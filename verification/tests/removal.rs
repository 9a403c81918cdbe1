use renri::batch::{report, Job, Line, Turn};
use renri::layout::VcsContext;
use renri::opened::{list_all, OpenedRepo};
use renri::pr_cache::PrInfo;
use renri::removal::{
    branch_for, candidates, check_known, check_removable, check_request, confirmation,
    failed_line, found_line, next, no_backend_error, removing_line, skipped_report, sweep_question,
    sweep_summary, RemoveRequest,
};
use renri::sweep::{Judged, Reason, Verdict};
use renri::vcs::{Backend, Kind, Repo, VcsChoice, Worktree};

fn row(name: &str) -> Worktree {
    Worktree {
        name: name.into(),
        path: format!("/wt/{name}"),
        branch: None,
        head: None,
        commit: None,
        desc: None,
        dirty: false,
        conflict: false,
        is_main: false,
        is_bare: false,
        is_stale: false,
        is_locked: false,
        vcs: Kind::Git,
    }
}

fn pr(number: u64, state: &str) -> Option<PrInfo> {
    Some(PrInfo {
        number,
        state: state.into(),
        head_ref_name: "h".into(),
    })
}

#[test]
fn a_sweep_takes_no_name() {
    assert!(check_request(true, false).is_ok());
    assert!(check_request(false, true).is_ok());
    assert_eq!(
        check_request(true, true).unwrap_err(),
        "--merged operates on the full list; pass either <name> or --merged"
    );
}

#[test]
fn the_main_worktree_is_not_removed() {
    let mut w = row("main");
    assert!(check_removable(&w).is_ok());
    w.is_main = true;
    assert_eq!(
        check_removable(&w).unwrap_err(),
        "main is the main worktree and cannot be removed via renri"
    );
    assert_eq!(branch_for(&w), "main");
    w.branch = Some("b".into());
    assert_eq!(branch_for(&w), "b");
}

#[test]
fn removals_are_confirmed() {
    assert_eq!(confirmation(true, true), Ok(false));
    assert_eq!(confirmation(true, false), Ok(false));
    assert_eq!(confirmation(false, false), Ok(true));
    assert_eq!(
        confirmation(false, true).unwrap_err(),
        "--non-interactive set; pass --yes to confirm the removal"
    );
}

#[test]
fn hooks_come_before_a_removal() {
    assert_eq!(next(0, None), RemoveRequest::Remove);
    assert_eq!(next(2, None), RemoveRequest::RunHooks);
    assert_eq!(next(2, Some(true)), RemoveRequest::Remove);
    assert_eq!(next(2, Some(false)), RemoveRequest::Stop);
}

#[test]
fn sweeps_need_a_known_repository() {
    let ctx = |owner: &str| VcsContext {
        owner: owner.into(),
        repo: "r".into(),
        host: None,
        branch: "b".into(),
    };
    assert!(check_known(&ctx("o"), "--merged").is_ok());
    assert_eq!(
        check_known(&ctx(""), "--merged").unwrap_err(),
        "could not determine GitHub owner/repo from origin remote; \
         --merged only works on GitHub-hosted repos"
    );
    assert_eq!(
        no_backend_error(Kind::Jj),
        "internal: row tagged Jj but no matching backend is open"
    );
}

#[test]
fn skipped_rows_are_told_with_their_reasons() {
    let rows = vec![row("a"), row("b"), row("c")];
    let judged = vec![
        Judged {
            row: 0,
            pr: pr(3, "MERGED"),
            verdict: Verdict::Skip(vec!["dirty", "locked"]),
        },
        Judged {
            row: 1,
            pr: None,
            verdict: Verdict::Sweep(Reason::Landed),
        },
        Judged {
            row: 2,
            pr: None,
            verdict: Verdict::Skip(vec!["conflict"]),
        },
    ];
    assert_eq!(
        skipped_report(&rows, &judged),
        vec![
            "\x1b[1m\x1b[33mskipping\x1b[39m\x1b[0m (pass --force to include):",
            "  a \x1b[2m#3 MERGED\x1b[0m — \x1b[33mdirty,locked\x1b[39m",
            "  c \x1b[2m(no PR)\x1b[0m — \x1b[33mconflict\x1b[39m",
            "",
        ]
    );
    assert_eq!(candidates(&judged), vec![1]);
    assert!(skipped_report(&rows, &Vec::new()).is_empty());
}

#[test]
fn sweeps_are_announced_and_summed_up() {
    assert_eq!(
        found_line(2),
        "\x1b[1m\x1b[32mfound\x1b[39m\x1b[0m 2 worktree(s) match merged/closed PRs:"
    );
    assert_eq!(sweep_question(1), "remove 1 worktree?");
    assert_eq!(sweep_question(12), "remove 12 worktrees?");
    assert_eq!(
        removing_line(&row("w"), Reason::Pr, &pr(5, "CLOSED"), "origin/main"),
        "removing w (\x1b[2m#5\x1b[0m \x1b[2mCLOSED\x1b[0m)"
    );
    assert_eq!(
        removing_line(&row("w"), Reason::Landed, &None, "origin/main"),
        "removing w (\x1b[2mlanded on origin/main\x1b[0m)"
    );
    assert_eq!(
        failed_line("busy"),
        "  \x1b[1m\x1b[31mfailed\x1b[39m\x1b[0m: busy"
    );
    let (line, r) = sweep_summary(&vec![true, true]);
    assert_eq!(line, "done — removed \x1b[32m2\x1b[39m, failed \x1b[2m0\x1b[0m");
    assert!(r.is_ok());
    let (line, r) = sweep_summary(&vec![true, false, false]);
    assert_eq!(line, "done — removed \x1b[32m1\x1b[39m, failed \x1b[31m2\x1b[39m");
    assert_eq!(r.unwrap_err(), "2 removal(s) failed");
}

fn turn(kind: Kind, result: Result<&str, &str>) -> Turn {
    Turn {
        kind,
        result: result.map(String::from).map_err(String::from),
    }
}

fn line(error: bool, text: &str) -> Line {
    Line {
        error,
        text: text.to_string(),
    }
}

#[test]
fn batches_tell_what_each_backend_had_to_show() {
    let (lines, r) = report(Job::Prune, &vec![turn(Kind::Git, Ok(" gone \n"))], false);
    assert_eq!(lines, vec![line(false, "gone")]);
    assert!(r.is_ok());
    let (lines, r) = report(
        Job::Fetch,
        &vec![turn(Kind::Jj, Ok("x")), turn(Kind::Git, Err("no net"))],
        true,
    );
    assert_eq!(
        lines,
        vec![line(false, "[jj] x"), line(true, "[git] fetch failed: no net")]
    );
    assert!(r.is_ok());
}

#[test]
fn batches_fail_where_every_backend_failed() {
    let (lines, r) = report(
        Job::Prune,
        &vec![turn(Kind::Jj, Err("a")), turn(Kind::Git, Err("b"))],
        true,
    );
    assert_eq!(lines.len(), 2);
    assert_eq!(r.unwrap_err(), "prune failed on every backend");
    let (lines, r) = report(Job::Fetch, &vec![turn(Kind::Git, Ok(" \n"))], false);
    assert_eq!(lines, vec![line(false, "fetched (nothing changed)")]);
    assert!(r.is_ok());
    let (lines, _) = report(Job::Prune, &vec![turn(Kind::Jj, Ok("")), turn(Kind::Git, Ok(""))], true);
    assert_eq!(lines, vec![line(false, "nothing to prune")]);
    // A failure is never followed by the news that there is none.
    let (lines, r) = report(Job::Prune, &vec![turn(Kind::Jj, Ok("")), turn(Kind::Git, Err("b"))], true);
    assert_eq!(lines, vec![line(true, "[git] prune failed: b")]);
    assert!(r.is_ok());
}

#[test]
fn a_colocated_repository_has_two_backends() {
    let repo = || Repo {
        root: "/r".to_string(),
        kind: Kind::Colocated,
    };
    let both = OpenedRepo::open(repo(), VcsChoice::Auto, false).unwrap();
    assert!(both.is_multi());
    assert_eq!(both.primary().name(), "jj");
    assert_eq!(both.backend_for(Kind::Git).unwrap().name(), "git");
    let git = OpenedRepo::open(repo(), VcsChoice::Git, false).unwrap();
    assert!(!git.is_multi());
    assert!(git.backend_for(Kind::Jj).is_none());
    let jj = Repo {
        root: "/r".to_string(),
        kind: Kind::Jj,
    };
    assert!(OpenedRepo::open(jj, VcsChoice::Git, false).is_err());
}

#[test]
fn lists_are_joined_or_fail_together() {
    let joined = list_all(&vec![Ok(vec![row("a")]), Ok(vec![row("b"), row("c")])]).unwrap();
    let names: Vec<&str> = joined.iter().map(|w| w.name.as_str()).collect();
    assert_eq!(names, vec!["a", "b", "c"]);
    assert_eq!(
        list_all(&vec![Ok(vec![row("a")]), Err("x".to_string()), Err("y".to_string())]).unwrap_err(),
        "x"
    );
}
