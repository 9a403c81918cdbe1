use renri::layout::VcsContext;
use renri::pr_cache::{
    cache_path, cache_path_for, cache_path_in, fetch_via_gh, index_by_branch, is_stale, load_or_refresh,
    lookup_for_worktree, osc8_hyperlink, pr_url, state_rank, CacheFile, Load, PrIndex, PrInfo,
};
use renri::process::{Action, Output, Reply, Step};
use renri::removal::load_pr_cache_for_repo;
use renri::vcs::{Kind, Worktree};
use std::time::{SystemTime, UNIX_EPOCH};

#[test]
fn index_picks_open_over_closed_for_same_branch() {
    let prs = vec![
        PrInfo {
            number: 1,
            state: "CLOSED".into(),
            head_ref_name: "feat/x".into(),
        },
        PrInfo {
            number: 2,
            state: "OPEN".into(),
            head_ref_name: "feat/x".into(),
        },
    ];
    let map = index_by_branch(prs);
    assert_eq!(map.get("feat/x").unwrap().number, 2);
}

#[test]
fn is_stale_detects_old_cache() {
    let now = SystemTime::now()
        .duration_since(UNIX_EPOCH)
        .unwrap()
        .as_secs();
    assert!(is_stale(now, now.saturating_sub(2 * 3600), 1));
    assert!(!is_stale(now, now.saturating_sub(60), 24));
}

fn wt(name: &str, branch: Option<&str>) -> Worktree {
    Worktree {
        name: name.into(),
        path: String::new(),
        branch: branch.map(String::from),
        head: None,
        commit: None,
        desc: None,
        dirty: false,
        conflict: false,
        is_main: false,
        is_bare: false,
        is_stale: false,
        is_locked: false,
        vcs: Kind::Jj,
    }
}

fn pr(number: u64, state: &str, head: &str) -> PrInfo {
    PrInfo {
        number,
        state: state.into(),
        head_ref_name: head.into(),
    }
}

#[test]
fn lookup_for_worktree_prefers_branch_when_present() {
    let prs = index_by_branch(vec![pr(1, "OPEN", "feat-foo"), pr(2, "MERGED", "feat-bar")]);
    // workspace was renamed: name = "feat-bar" (original), branch was
    // moved to "feat-foo" intentionally. Branch wins.
    let row = wt("feat-bar", Some("feat-foo"));
    let found = lookup_for_worktree(&row, &prs).unwrap();
    assert_eq!(found.number, 1);
}

#[test]
fn lookup_for_worktree_falls_back_to_name_when_branch_missing() {
    let prs = index_by_branch(vec![pr(19, "MERGED", "feat-discover-pj")]);
    let row = wt("feat-discover-pj", None);
    let found = lookup_for_worktree(&row, &prs).unwrap();
    assert_eq!(found.number, 19);
    assert_eq!(found.state, "MERGED");
}

#[test]
fn lookup_for_worktree_falls_back_when_branch_present_but_no_match() {
    // Branch is set but doesn't match anything (e.g. anonymous local
    // bookmark). Fall through to the name lookup.
    let prs = index_by_branch(vec![pr(7, "OPEN", "feat-baz")]);
    let row = wt("feat-baz", Some("some-other-bookmark"));
    let found = lookup_for_worktree(&row, &prs).unwrap();
    assert_eq!(found.number, 7);
}

#[test]
fn lookup_for_worktree_returns_none_when_neither_matches() {
    let prs = index_by_branch(vec![pr(1, "OPEN", "feat-foo")]);
    let row = wt("unrelated", None);
    assert!(lookup_for_worktree(&row, &prs).is_none());
}

#[test]
fn lookup_for_worktree_normalizes_dash_name_to_slash_head_ref() {
    let prs = index_by_branch(vec![pr(120, "MERGED", "feat/explode-spec-cache")]);
    let row = wt("feat-explode-spec-cache", None);
    let found = lookup_for_worktree(&row, &prs).unwrap();
    assert_eq!(found.number, 120);
    assert_eq!(found.state, "MERGED");
}

#[test]
fn lookup_for_worktree_normalizes_via_dashed_branch_too() {
    let prs = index_by_branch(vec![pr(115, "MERGED", "release/v0.34.0")]);
    let row = wt("release-v0.34.0", Some("release-v0.34.0"));
    let found = lookup_for_worktree(&row, &prs).unwrap();
    assert_eq!(found.number, 115);
}

#[test]
fn lookup_normalized_prefers_open_over_merged_on_collision() {
    // Two distinct head refs collapse to the same normalized key
    // (`feat-x`). Prefer the OPEN one so the row reflects live work.
    let prs = index_by_branch(vec![pr(2, "MERGED", "feat/x"), pr(5, "OPEN", "feat-x")]);
    let row = wt("feat-x", None);
    let found = lookup_for_worktree(&row, &prs).unwrap();
    assert_eq!(found.number, 5);
    assert_eq!(found.state, "OPEN");
}

#[test]
fn lookup_normalized_breaks_state_ties_by_lower_number() {
    let prs = index_by_branch(vec![pr(9, "MERGED", "feat/x"), pr(3, "MERGED", "feat-x")]);
    let row = wt("feat-x", None);
    let found = lookup_for_worktree(&row, &prs).unwrap();
    assert_eq!(found.number, 3);
}

#[test]
fn lookup_for_worktree_exact_match_wins_over_normalized() {
    // An exact dashed head ref must not be shadowed by the normalized
    // fallback: `feat-foo` resolves to its own PR, not a `feat/foo`.
    let prs = index_by_branch(vec![pr(1, "OPEN", "feat-foo"), pr(2, "MERGED", "feat/foo")]);
    let row = wt("feat-foo", None);
    let found = lookup_for_worktree(&row, &prs).unwrap();
    assert_eq!(found.number, 1);
}

#[test]
fn normalized_candidates_are_ranked() {
    // No exact key: two refs flatten to the name, and rank decides before age.
    let prs = index_by_branch(vec![
        pr(4, "CLOSED", "a/b-c"),
        pr(9, "MERGED", "a-b/c"),
        pr(8, "MERGED", "a/b/c"),
    ]);
    assert_eq!(lookup_for_worktree(&wt("a-b-c", None), &prs).unwrap().number, 8);
}

#[test]
fn pr_url_builds_github_url() {
    assert_eq!(
        pr_url(Some("github.com"), "yukimemi", "renri", 27),
        "https://github.com/yukimemi/renri/pull/27"
    );
    // host = None still produces the github.com URL — host is
    // informational while we only support github.com.
    assert_eq!(
        pr_url(None, "yukimemi", "renri", 1),
        "https://github.com/yukimemi/renri/pull/1"
    );
}

#[test]
fn osc8_hyperlink_wraps_text_with_escape_codes() {
    let s = osc8_hyperlink("https://example.com/x", "click");
    assert!(s.starts_with("\x1b]8;;https://example.com/x\x1b\\"));
    assert!(s.ends_with("click\x1b]8;;\x1b\\"));
    // The visible text must be present uninterrupted between the two
    // OSC 8 sequences so terminals that ignore the escape still show
    // it correctly.
    assert!(s.contains("\x1b\\click\x1b]8;;"));
}

#[test]
fn states_are_ranked() {
    assert_eq!(
        [
            state_rank("OPEN"),
            state_rank("MERGED"),
            state_rank("CLOSED"),
            state_rank("open")
        ],
        [0, 1, 2, 3]
    );
}

#[test]
fn the_first_of_equally_ranked_prs_stands_for_a_branch() {
    let map = index_by_branch(vec![pr(5, "MERGED", "x"), pr(3, "MERGED", "x"), pr(1, "WHAT", "x")]);
    assert_eq!(map.get("x").unwrap().number, 5);
    assert!(map.get("y").is_none());
    assert!(PrIndex::new().get("x").is_none());
}

#[test]
fn a_cache_is_stale_only_past_its_time() {
    assert!(!is_stale(3600, 0, 1));
    assert!(is_stale(3601, 0, 1));
    // A clock that was set back makes nothing stale.
    assert!(!is_stale(0, 3601, 0));
    assert!(is_stale(u64::MAX, 0, u64::MAX / 3600));
}

fn cache(at: u64, number: u64) -> CacheFile {
    CacheFile {
        fetched_at: at,
        prs: vec![pr(number, "OPEN", "b")],
    }
}

fn number(load: Load) -> Option<u64> {
    match load {
        Load::Ready(index, _) => index.get("b").map(|p| p.number),
        Load::Fetch => panic!("asked to fetch"),
    }
}

#[test]
fn other_hosts_have_no_pull_requests() {
    for host in [None, Some("gitlab.com")] {
        let r = load_or_refresh(host, true, Some(cache(0, 1)), 9, 1, true, None);
        assert_eq!(number(r), None);
    }
    let r = load_or_refresh(Some("github.com"), false, None, 9, 1, true, None);
    assert_eq!(number(r), None);
}

#[test]
fn a_fresh_cache_is_used_as_it_is() {
    let r = load_or_refresh(Some("github.com"), true, Some(cache(100, 1)), 200, 1, false, None);
    assert_eq!(number(r), Some(1));
}

#[test]
fn a_stale_missing_or_overruled_cache_is_refreshed() {
    let hub = Some("github.com");
    assert_eq!(load_or_refresh(hub, true, Some(cache(0, 1)), 3601, 1, false, None), Load::Fetch);
    assert_eq!(load_or_refresh(hub, true, None, 0, 1, false, None), Load::Fetch);
    assert_eq!(load_or_refresh(hub, true, Some(cache(0, 1)), 0, 1, true, None), Load::Fetch);
    match load_or_refresh(
        hub,
        true,
        Some(cache(0, 1)),
        77,
        1,
        true,
        Some(Some(vec![pr(2, "OPEN", "b")])),
    ) {
        Load::Ready(index, Some(save)) => {
            assert_eq!(index.get("b").unwrap().number, 2);
            assert_eq!(save, cache(77, 2));
        }
        other => panic!("{other:?}"),
    }
}

#[test]
fn a_failed_fetch_falls_back_to_the_cache() {
    let hub = Some("github.com");
    let r = load_or_refresh(hub, true, Some(cache(0, 1)), 3601, 1, false, Some(None));
    assert_eq!(number(r), Some(1));
    let r = load_or_refresh(hub, true, None, 3601, 1, false, Some(None));
    assert_eq!(number(r), None);
}

#[test]
fn an_unknown_repository_has_no_pull_requests() {
    let ctx = |owner: &str| VcsContext {
        owner: owner.into(),
        repo: "r".into(),
        host: Some("github.com".into()),
        branch: "b".into(),
    };
    let r = load_pr_cache_for_repo(&ctx(""), true, Some(cache(0, 1)), 0, 1, true, None);
    assert_eq!(number(r), None);
    let r = load_pr_cache_for_repo(&ctx("o"), true, None, 0, 1, false, None);
    assert_eq!(r, Load::Fetch);
}

#[test]
fn gh_is_told_which_repository() {
    match fetch_via_gh("o", "r", "/d", &[]) {
        Step::Do(Action::Run(i)) => {
            assert_eq!(i.program, "gh");
            assert_eq!(i.args[0..4], ["pr", "list", "--repo", "o/r"]);
            assert_eq!(i.args[6..8], ["--limit", "200"]);
            assert_eq!(i.args.len(), 12);
        }
        other => panic!("{other:?}"),
    }
    assert_eq!(
        fetch_via_gh("o", "r", "/d", &[Reply::Ran(None)]),
        Step::Done(Err(
            "failed to spawn `gh` (install GitHub CLI to enable PR display)".to_string()
        ))
    );
    let failed = Reply::Ran(Some(Output {
        success: false,
        stdout: String::new(),
        stderr: "no auth\n".to_string(),
    }));
    assert_eq!(
        fetch_via_gh("o", "r", "/d", &[failed]),
        Step::Done(Err("gh pr list failed: no auth".to_string()))
    );
}

#[test]
fn caches_are_kept_by_repository() {
    assert_eq!(
        cache_path_in("/c", "o", "r", false),
        "/c/renri/o__r/pr-cache.json"
    );
    assert_eq!(
        cache_path_for(Some("/c"), "o", "r", false).as_deref(),
        Some("/c/renri/o__r/pr-cache.json")
    );
    assert_eq!(cache_path_for(None, "o", "r", false), None);
    if let Some(p) = cache_path("o", "r", false) {
        assert!(p.ends_with("/renri/o__r/pr-cache.json"), "got: {p}");
    }
}

#[test]
fn what_was_saved_is_loaded_until_it_is_stale() {
    let hub = Some("github.com");
    let fetched = Some(Some(vec![pr(2, "OPEN", "b")]));
    let saved = |fetched| match load_or_refresh(hub, true, None, 1000, 1, false, fetched) {
        Load::Ready(_, Some(save)) => save,
        other => panic!("{other:?}"),
    };
    let save = saved(fetched);
    assert_eq!(number(load_or_refresh(hub, true, Some(save), 1000 + 3600, 1, false, None)), Some(2));
    let save = saved(Some(Some(vec![pr(2, "OPEN", "b")])));
    assert_eq!(
        load_or_refresh(hub, true, Some(save), 1000 + 3601, 1, false, None),
        Load::Fetch
    );
}
