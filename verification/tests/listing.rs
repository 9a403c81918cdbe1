use renri::details::worktree_details;
use renri::layout::VcsContext;
use renri::listing::{table, table_of};
use renri::pr_cache::{index_by_branch, PrIndex, PrInfo};
use renri::vcs::{Kind, Worktree};

fn row(name: &str) -> Worktree {
    Worktree {
        name: name.into(),
        path: format!("/wt/{name}"),
        branch: Some(name.into()),
        head: Some("abc".into()),
        commit: None,
        desc: Some("say".into()),
        dirty: false,
        conflict: false,
        is_main: false,
        is_bare: false,
        is_stale: false,
        is_locked: false,
        vcs: Kind::Git,
    }
}

fn pr(number: u64, state: &str, head: &str) -> PrInfo {
    PrInfo {
        number,
        state: state.into(),
        head_ref_name: head.into(),
    }
}

#[test]
fn no_rows_no_table() {
    assert!(table(&Vec::new(), &PrIndex::new(), true, true, None).is_empty());
}

#[test]
fn a_plain_table() {
    let mut main = row("main");
    main.is_main = true;
    let mut dirty = row("feature");
    dirty.dirty = true;
    dirty.desc = None;
    let lines = table(&vec![main, dirty], &PrIndex::new(), false, false, None);
    assert_eq!(
        lines,
        vec![
            "  \x1b[2mNAME   \x1b[0m  \x1b[2mST\x1b[0m  \x1b[2mDESCRIPTION\x1b[0m",
            "\x1b[32m★\x1b[39m \x1b[1m\x1b[32mmain\x1b[39m\x1b[0m     \x1b[32m✓\x1b[39m   say",
            "  feature  \x1b[33m●\x1b[39m   \x1b[3m\x1b[2m(no description)\x1b[0m\x1b[0m",
        ]
    );
}

#[test]
fn stale_and_conflicted_rows_are_marked() {
    let mut stale = row("old");
    stale.is_stale = true;
    let mut broken = row("brk");
    broken.conflict = true;
    broken.dirty = true;
    let lines = table(&vec![stale, broken], &PrIndex::new(), false, true, None);
    assert_eq!(
        lines[1],
        "\x1b[33m⚠\x1b[39m \x1b[33mold\x1b[39m   \x1b[2mgit\x1b[0m  \x1b[2m⋯\x1b[0m   \
         \x1b[3m\x1b[33m(stale — directory missing)\x1b[39m\x1b[0m"
    );
    assert_eq!(
        lines[2],
        "  brk   \x1b[2mgit\x1b[0m  \x1b[1m\x1b[31m‼\x1b[39m\x1b[0m   say"
    );
    assert!(lines[0].contains("  \x1b[2mVCS\x1b[0m"));
}

#[test]
fn pull_requests_are_coloured_and_linked() {
    let ctx = VcsContext {
        owner: "o".into(),
        repo: "r".into(),
        host: Some("github.com".into()),
        branch: "b".into(),
    };
    let prs = index_by_branch(vec![
        pr(7, "OPEN", "a"),
        pr(123, "MERGED", "b"),
        pr(8, "CLOSED", "c"),
        pr(9, "DRAFT", "d"),
    ]);
    let rows = vec![row("a"), row("b"), row("c"), row("d"), row("e")];
    let lines = table(&rows, &prs, true, false, Some(&ctx));
    assert_eq!(
        lines[0],
        "  \x1b[2mNAME\x1b[0m  \x1b[2mST\x1b[0m  \x1b[2mPR  \x1b[0m  \x1b[2mDESCRIPTION\x1b[0m"
    );
    assert_eq!(
        lines[1],
        "  a     \x1b[32m✓\x1b[39m   \x1b]8;;https://github.com/o/r/pull/7\x1b\\\x1b[32m#7\x1b[39m\x1b]8;;\x1b\\    say"
    );
    assert!(lines[2].contains("\x1b[2m#123\x1b[0m\x1b]8;;\x1b\\  say"));
    assert!(lines[3].contains("\x1b[2m\x1b[31m#8\x1b[39m\x1b[0m"));
    assert!(lines[4].contains("\x1b\\#9\x1b]8;;"));
    assert_eq!(
        lines[5],
        "  e     \x1b[32m✓\x1b[39m   \x1b[2m—\x1b[0m     say"
    );
    // Without a repository there is nothing to link to.
    let plain = table(&rows, &prs, true, false, None);
    assert!(!plain[1].contains("]8;;"));
}

#[test]
fn columns_line_up() {
    let rows = vec![row("a"), row("日本語の名前")];
    let lines = table_of(&rows, &vec![None, None], false, false, None);
    let column = |l: &str| l.chars().position(|c| c == '✓').unwrap();
    assert_eq!(column(&lines[1]), column(&lines[2]));
}

fn labelled(name: &str, rest: &str) -> String {
    format!("  \x1b[2m{name:>9}\x1b[0m: {rest}")
}

#[test]
fn details_tell_all_that_is_known() {
    let mut w = row("feat");
    w.dirty = true;
    w.conflict = true;
    let p = pr(12, "MERGED", "feat");
    let lines = worktree_details(&w, Some(&p), Some("https://x"), false);
    assert_eq!(
        lines,
        vec![
            labelled("name", "feat"),
            labelled("branch", "feat"),
            labelled("path", "/wt/feat"),
            labelled("vcs", "git"),
            labelled("head", "abc \x1b[2msay\x1b[0m"),
            labelled(
                "status",
                "\x1b[33mdirty\x1b[39m \x1b[1m\x1b[31mconflict\x1b[39m\x1b[0m"
            ),
            labelled("pr", "#12 (\x1b[35mMERGED\x1b[39m)  \x1b[2mhttps://x\x1b[0m"),
        ]
    );
}

#[test]
fn details_of_a_bare_and_nameless_row() {
    let mut w = row("w");
    w.branch = None;
    w.head = None;
    w.vcs = Kind::Jj;
    let lines = worktree_details(&w, None, None, false);
    assert_eq!(lines[1], labelled("branch", "\x1b[2m(detached / no bookmark)\x1b[0m"));
    assert_eq!(lines[3], labelled("vcs", "jj"));
    assert_eq!(lines[4], labelled("head", "\x1b[2m(unknown)\x1b[0m"));
    assert_eq!(lines[5], labelled("status", "\x1b[32mclean\x1b[39m"));
    assert_eq!(lines[6], labelled("pr", "\x1b[2m(none)\x1b[0m"));
    w.is_main = true;
    w.is_stale = true;
    w.is_locked = true;
    w.is_bare = true;
    let lines = worktree_details(&w, Some(&pr(1, "OPEN", "w")), None, false);
    assert_eq!(
        lines[5],
        labelled(
            "status",
            "\x1b[32mmain\x1b[39m \x1b[33mstale\x1b[39m \x1b[33mlocked\x1b[39m \x1b[2mbare\x1b[0m"
        )
    );
    assert_eq!(lines[6], labelled("pr", "#1 (\x1b[32mOPEN\x1b[39m)"));
}
