use renri::landed::{all_upstream, rev_parse, Probe};
use renri::process::{Action, Output, Reply, Step};
use renri::sweep::has_landed;
use renri::vcs::{Kind, Worktree};

fn ran(success: bool, stdout: &str) -> Reply {
    Reply::Ran(Some(Output {
        success,
        stdout: stdout.to_string(),
        stderr: String::new(),
    }))
}

#[test]
fn empty_cherry_output_is_landed() {
    // `git cherry` prints nothing when <head> adds no commits on top of
    // the upstream ref, i.e. it is already an ancestor.
    assert!(all_upstream(""));
    assert!(all_upstream("\n\n"));
}

#[test]
fn all_minus_lines_are_landed() {
    let out = "- 15596815329293bb076cfc7a483edf9eca4fc199\n\
               - b6109d058990aaaaaaaaaaaaaaaaaaaaaaaaaaaa\n";
    assert!(all_upstream(out));
}

#[test]
fn any_plus_line_is_not_landed() {
    let out = "- aaaaaaaaaaaaaaaaaaaaaaaaaaaaaaaaaaaaaaaa\n\
               + bbbbbbbbbbbbbbbbbbbbbbbbbbbbbbbbbbbbbbbb\n";
    assert!(!all_upstream(out));
}

#[test]
fn unrecognized_output_is_not_landed() {
    assert!(!all_upstream("warning: something odd\n"));
    assert!(!all_upstream("-aaaa\n"), "sign must be its own field");
}

#[test]
fn trunk_is_displayed_as_a_user_would_type_it() {
    let probe = |t: &str| Probe {
        root: String::new(),
        trunk: t.into(),
    };
    assert_eq!(probe("refs/remotes/origin/main").trunk(), "origin/main");
    assert_eq!(probe("refs/remotes/origin/HEAD").trunk(), "origin/HEAD");
    assert_eq!(probe("refs/heads/master").trunk(), "master");
    // Unrecognized shapes pass through rather than being mangled.
    assert_eq!(probe("origin/main").trunk(), "origin/main");
}

#[test]
fn probe_discover_returns_none_outside_a_repo() {
    let failing: Vec<Reply> = (0..5).map(|_| ran(false, "")).collect();
    assert_eq!(Probe::discover("/tmp/nonrepo", &failing), Step::Done(Ok(None)));
    let missing: Vec<Reply> = (0..5).map(|_| Reply::Ran(None)).collect();
    assert_eq!(Probe::discover("/tmp/nonrepo", &missing), Step::Done(Ok(None)));
}

#[test]
fn probe_takes_the_first_ref_that_resolves() {
    match Probe::discover("/r", &[]) {
        Step::Do(Action::Run(i)) => {
            assert_eq!(i.program, "git");
            assert_eq!(
                i.args,
                vec!["rev-parse", "--quiet", "--verify", "refs/remotes/origin/HEAD"]
            );
            assert_eq!(i.dir, "/r");
        }
        other => panic!("{other:?}"),
    }
    assert_eq!(
        Probe::discover("/r", &[ran(false, ""), ran(true, " \n"), ran(true, "abc\n")]),
        Step::Done(Ok(Some(Probe {
            root: "/r".to_string(),
            trunk: "refs/remotes/origin/master".to_string(),
        })))
    );
    assert_eq!(
        rev_parse("/r", "x", &[ran(true, "abc\n")]),
        Step::Done(Ok(Some("abc".to_string())))
    );
}

#[test]
fn landed_asks_git_cherry() {
    let p = Probe {
        root: "/r".to_string(),
        trunk: "refs/heads/main".to_string(),
    };
    match p.landed("c0ffee", &[]) {
        Step::Do(Action::Run(i)) => {
            assert_eq!(i.args, vec!["cherry", "refs/heads/main", "c0ffee"])
        }
        other => panic!("{other:?}"),
    }
    assert_eq!(p.landed("c", &[ran(true, "- x\n")]), Step::Done(Ok(true)));
    assert_eq!(p.landed("c", &[ran(false, "- x\n")]), Step::Done(Ok(false)));
    assert_eq!(p.landed("c", &[Reply::Ran(None)]), Step::Done(Ok(false)));
}

fn row(vcs: Kind, commit: Option<&str>) -> Worktree {
    Worktree {
        name: "w".into(),
        path: "/w".into(),
        branch: None,
        head: None,
        commit: commit.map(String::from),
        desc: None,
        dirty: false,
        conflict: false,
        is_main: false,
        is_bare: false,
        is_stale: false,
        is_locked: false,
        vcs,
    }
}

#[test]
fn a_jj_row_is_asked_for_its_commit() {
    let p = Probe {
        root: "/r".to_string(),
        trunk: "t".to_string(),
    };
    match has_landed(&p, "/r", &row(Kind::Jj, None), &[]) {
        Step::Do(Action::Run(i)) => {
            assert_eq!(i.program, "jj");
            assert_eq!(i.args[2], "w@");
        }
        other => panic!("{other:?}"),
    }
    match has_landed(&p, "/r", &row(Kind::Jj, None), &[ran(true, "cafe\n")]) {
        Step::Do(Action::Run(i)) => assert_eq!(i.args, vec!["cherry", "t", "cafe"]),
        other => panic!("{other:?}"),
    }
    assert_eq!(
        has_landed(&p, "/r", &row(Kind::Jj, None), &[ran(true, "cafe"), ran(true, "")]),
        Step::Done(Ok(true))
    );
    assert_eq!(
        has_landed(&p, "/r", &row(Kind::Jj, None), &[ran(false, "")]),
        Step::Done(Ok(false))
    );
    assert_eq!(
        has_landed(&p, "/r", &row(Kind::Git, None), &[]),
        Step::Done(Ok(false))
    );
    assert_eq!(
        has_landed(&p, "/r", &row(Kind::Git, Some("x")), &[ran(true, "+ x\n")]),
        Step::Done(Ok(false))
    );
}
