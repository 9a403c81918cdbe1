use renri::process::{Action, Invocation, Output, Reply, Step};
use renri::vcs::jj::{referenced_remote, JjBackend, JjStatus};
use renri::vcs::{AddBranch, Backend, Kind};

fn ran(success: bool, stdout: &str, stderr: &str) -> Reply {
    Reply::Ran(Some(Output {
        success,
        stdout: stdout.to_string(),
        stderr: stderr.to_string(),
    }))
}

fn run(args: &[&str], dir: &str, capture: bool) -> Action {
    Action::Run(Invocation {
        program: "jj".to_string(),
        args: args.iter().map(|a| a.to_string()).collect(),
        dir: dir.to_string(),
        capture,
    })
}

#[test]
fn referenced_remote_matches_remote_bookmark_forms() {
    let remotes = ["origin", "upstream"];
    assert_eq!(referenced_remote("main@origin", &remotes), Some("origin"));
    assert_eq!(
        referenced_remote("main@upstream", &remotes),
        Some("upstream")
    );
    // Revsets embedding a remote bookmark still resolve against it.
    assert_eq!(
        referenced_remote("main@origin..@", &remotes),
        Some("origin")
    );
}

#[test]
fn referenced_remote_ignores_working_copy_and_local_revs() {
    let remotes = ["origin"];
    // The working-copy rev and its ancestors are not remote refs.
    assert_eq!(referenced_remote("@", &remotes), None);
    assert_eq!(referenced_remote("@-", &remotes), None);
    // A local bookmark name is not a remote ref.
    assert_eq!(referenced_remote("main", &remotes), None);
    assert_eq!(referenced_remote("trunk()", &remotes), None);
    // No configured remotes → nothing references a remote.
    assert_eq!(referenced_remote("main@origin", &[]), None);
}

#[test]
fn referenced_remote_no_false_positive_for_short_remote_name() {
    // A remote named `a` must not match `main@abc` just because `@abc`
    // contains `@a`.
    let remotes = ["a"];
    assert_eq!(referenced_remote("main@abc", &remotes), None);
    // …but a genuine `<bookmark>@a` ref still resolves.
    assert_eq!(referenced_remote("main@a", &remotes), Some("a"));
}

const LISTING: &str = "default: qpvuntsm 230dd059 (empty)\n  feat-x : kk 11\n\nno colon here\n";

#[test]
fn list_asks_for_the_root_and_the_state_of_each_workspace() {
    let jj = JjBackend::new("/r", false);
    assert_eq!(jj.list(&[]), Step::Do(run(&["workspace", "list"], "/r", true)));
    assert_eq!(
        jj.list(&[ran(true, LISTING, "")]),
        Step::Do(run(&["workspace", "root", "--name", "default"], "/r", true))
    );
    match jj.list(&[ran(true, LISTING, ""), ran(true, "/r\n", "")]) {
        Step::Do(Action::Run(i)) => {
            assert_eq!(i.args[0..3], ["log", "-r", "default@"]);
            assert_eq!(i.args.len(), 6);
        }
        other => panic!("{other:?}"),
    }
    let rows = match jj.list(&[
        ran(true, LISTING, ""),
        ran(true, "/r\n", ""),
        ran(true, "qpvuntsm\x1fmain,dev\x1f1\x1f0\x1ffix: a\x1fb\n", ""),
        ran(false, "", "gone"),
    ]) {
        Step::Done(Ok(rows)) => rows,
        other => panic!("{other:?}"),
    };
    assert_eq!(rows.len(), 2);
    assert_eq!(rows[0].name, "default");
    assert!(rows[0].is_main && rows[0].dirty && !rows[0].conflict && !rows[0].is_stale);
    assert_eq!(rows[0].branch.as_deref(), Some("main,dev"));
    assert_eq!(rows[0].head.as_deref(), Some("qpvuntsm"));
    assert_eq!(rows[0].desc.as_deref(), Some("fix: a\x1fb"));
    assert_eq!(rows[0].path, "/r");
    assert_eq!(rows[1].name, "feat-x");
    assert!(rows[1].is_stale && !rows[1].is_main && rows[1].path.is_empty());
    assert_eq!(rows[1].vcs, Kind::Jj);
}

#[test]
fn list_tells_a_missing_program_from_a_stale_workspace() {
    let jj = JjBackend::new("/r", false);
    assert_eq!(
        jj.list(&[ran(true, LISTING, ""), Reply::Ran(None)]),
        Step::Done(Err("failed to spawn `jj`".to_string()))
    );
    assert_eq!(
        jj.list(&[ran(false, "", "no repo\n")]),
        Step::Done(Err("jj workspace list: no repo".to_string()))
    );
}

#[test]
fn status_needs_an_id() {
    let jj = JjBackend::new("/r", false);
    assert_eq!(
        jj.workspace_status("w", &[ran(true, " \x1fmain\x1f1", "")]),
        Step::Done(Ok(None))
    );
    assert_eq!(
        jj.workspace_status("w", &[ran(true, "id", "")]),
        Step::Done(Ok(Some(JjStatus {
            id: "id".to_string(),
            bookmarks: None,
            dirty: false,
            conflict: false,
            desc: None,
        })))
    );
    assert_eq!(
        jj.workspace_status("w", &[ran(true, "id\x1f\x1f0\x1f1\x1f \n", "")]),
        Step::Done(Ok(Some(JjStatus {
            id: "id".to_string(),
            bookmarks: None,
            dirty: false,
            conflict: true,
            desc: None,
        })))
    );
    assert_eq!(
        jj.workspace_root("w", &[ran(true, "  \n", "")]),
        Step::Done(Ok(None))
    );
}

#[test]
fn an_empty_working_copy_gives_way_to_trunk() {
    let jj = JjBackend::new("/r", false);
    let base = |replies: &[Reply]| jj.default_new_branch_base("@", replies);
    assert!(matches!(base(&[]), Step::Do(_)));
    // `@` has content: respect it.
    assert_eq!(base(&[ran(true, "0\n", "")]), Step::Done(Ok("@".to_string())));
    assert_eq!(base(&[ran(false, "1\n", "")]), Step::Done(Ok("@".to_string())));
    // `@` is empty: ask for trunk().
    match base(&[ran(true, "1\n", "")]) {
        Step::Do(Action::Run(i)) => assert_eq!(i.args[2], "trunk()"),
        other => panic!("{other:?}"),
    }
    assert_eq!(
        base(&[ran(true, "1", ""), ran(true, "abc\n", "")]),
        Step::Done(Ok("abc".to_string()))
    );
    assert_eq!(
        base(&[ran(true, "1", ""), ran(false, "", "")]),
        Step::Done(Ok("@".to_string()))
    );
    // Anything else is taken as it is.
    assert_eq!(
        jj.default_new_branch_base("main", &[]),
        Step::Done(Ok("main".to_string()))
    );
    assert_eq!(jj.is_empty("@", &[ran(true, "1", "")]), Step::Done(Ok(true)));
    assert_eq!(
        jj.resolve_rev("x", &[ran(true, " q \n", "")]),
        Step::Done(Ok(Some("q".to_string())))
    );
}

#[test]
fn add_makes_the_workspace_and_then_the_bookmark() {
    let jj = JjBackend::new("/r", false);
    let new = AddBranch::NewBranch {
        name: "n",
        base: Some("main"),
    };
    assert_eq!(
        jj.add("wt/n", new, &[]),
        Step::Do(run(
            &["workspace", "add", "-r", "main", "wt/n", "--name", "n"],
            "/r",
            false
        ))
    );
    assert_eq!(
        jj.add("wt/n", new, &[ran(true, "", "")]),
        Step::Do(run(&["bookmark", "create", "n"], "/r/wt/n", false))
    );
    assert_eq!(
        jj.add("wt/n", new, &[ran(true, "", ""), ran(true, "", "")]),
        Step::Done(Ok(()))
    );
    assert_eq!(
        jj.add("wt/n", new, &[ran(false, "", "")]),
        Step::Done(Err("jj workspace add failed".to_string()))
    );
    assert_eq!(
        jj.add("wt/n", new, &[ran(true, "", ""), ran(false, "", "")]),
        Step::Done(Err("jj bookmark create failed".to_string()))
    );
    // With no base, two questions come first.
    let head = AddBranch::NewBranch {
        name: "n",
        base: None,
    };
    assert_eq!(
        jj.add("/wt/n", head, &[ran(true, "1", ""), ran(true, "tt", "")]),
        Step::Do(run(
            &["workspace", "add", "-r", "tt", "/wt/n", "--name", "n"],
            "/r",
            false
        ))
    );
}

#[test]
fn add_attaches_to_a_bookmark_as_it_is() {
    let jj = JjBackend::new("/r", false);
    let old = AddBranch::ExistingBranch("b");
    assert_eq!(
        jj.add("/wt/b", old, &[]),
        Step::Do(run(
            &["workspace", "add", "-r", "b", "/wt/b", "--name", "b"],
            "/r",
            false
        ))
    );
    assert_eq!(
        jj.add("/wt/b", old, &[ran(true, "", "")]),
        Step::Do(run(&["edit", "b"], "/wt/b", false))
    );
    assert_eq!(
        jj.add("/wt/b", old, &[ran(true, "", ""), ran(false, "", "")]),
        Step::Done(Err("jj edit b failed".to_string()))
    );
}

fn one_workspace(name: &str, path: &str) -> Vec<Reply> {
    vec![
        ran(true, &format!("{name}: a b\n"), ""),
        ran(true, path, ""),
        ran(true, "id", ""),
    ]
}

#[test]
fn remove_forgets_and_then_deletes() {
    let jj = JjBackend::new("/r", false);
    let mut replies = one_workspace("w", "/wt/w");
    assert_eq!(
        jj.remove("/wt/./w/", false, &replies),
        Step::Do(Action::Resolve("/wt/./w/".to_string()))
    );
    replies.push(Reply::Resolved(None));
    assert_eq!(
        jj.remove("/wt/./w/", false, &replies),
        Step::Do(Action::Resolve("/wt/w".to_string()))
    );
    replies.push(Reply::Resolved(None));
    assert_eq!(
        jj.remove("/wt/./w/", false, &replies),
        Step::Do(run(&["workspace", "forget", "w"], "/r", false))
    );
    replies.push(ran(true, "", ""));
    assert_eq!(
        jj.remove("/wt/w", false, &replies),
        Step::Do(Action::Look("/wt/w".to_string()))
    );
    replies.push(Reply::Found(true));
    assert_eq!(
        jj.remove("/wt/w", false, &replies),
        Step::Do(Action::Delete("/wt/w".to_string()))
    );
    replies.push(Reply::Deleted(false));
    assert_eq!(
        jj.remove("/wt/w", false, &replies),
        Step::Done(Err("removing /wt/w after forget".to_string()))
    );
    replies.pop();
    replies.push(Reply::Deleted(true));
    assert_eq!(jj.remove("/wt/w", false, &replies), Step::Done(Ok(())));
}

#[test]
fn remove_goes_by_canonical_paths_too() {
    let jj = JjBackend::new("/r", false);
    let mut replies = one_workspace("w", "/link/w");
    replies.push(Reply::Resolved(Some("/real/w".to_string())));
    replies.push(Reply::Resolved(Some("/real/w".to_string())));
    assert_eq!(
        jj.remove("/wt/w", false, &replies),
        Step::Do(run(&["workspace", "forget", "w"], "/r", false))
    );
    replies.pop();
    replies.push(Reply::Resolved(Some("/real/v".to_string())));
    assert_eq!(
        jj.remove("/wt/w", false, &replies),
        Step::Done(Err("no jj workspace at /wt/w".to_string()))
    );
}

#[test]
fn the_default_workspace_is_not_forgotten() {
    let jj = JjBackend::new("/r", false);
    let mut replies = one_workspace("default", "/r");
    assert_eq!(jj.prune(&replies), Step::Done(Ok(String::new())));
    replies.push(Reply::Resolved(None));
    replies.push(Reply::Resolved(None));
    assert_eq!(
        jj.remove("/r", true, &replies),
        Step::Done(Err("cannot forget the default jj workspace".to_string()))
    );
}

#[test]
fn prune_forgets_what_is_gone() {
    let jj = JjBackend::new("/r", false);
    let mut replies = vec![
        ran(true, "default: x\na: x\nb: x\nc: x\n", ""),
        ran(true, "/r", ""),
        ran(true, "id", ""),
        ran(false, "", ""),
        ran(true, "/b", ""),
        ran(true, "id", ""),
        ran(true, "/c", ""),
        ran(true, "id", ""),
    ];
    // `a` has no root; `b` is looked for and missing; `c` is there.
    assert_eq!(
        jj.prune(&replies),
        Step::Do(run(&["workspace", "forget", "a"], "/r", false))
    );
    replies.push(ran(true, "", ""));
    assert_eq!(jj.prune(&replies), Step::Do(Action::Look("/b".to_string())));
    replies.push(Reply::Found(false));
    assert_eq!(
        jj.prune(&replies),
        Step::Do(run(&["workspace", "forget", "b"], "/r", false))
    );
    replies.push(ran(true, "", ""));
    assert_eq!(jj.prune(&replies), Step::Do(Action::Look("/c".to_string())));
    replies.push(Reply::Found(true));
    assert_eq!(
        jj.prune(&replies),
        Step::Done(Ok("forgot stale workspace(s): a, b".to_string()))
    );
}

#[test]
fn origin_is_read_from_the_remotes() {
    let jj = JjBackend::new("/r", false);
    assert_eq!(
        jj.origin_url(&[ran(true, "up https://u/u\n origin  git@h:o/r.git \n", "")]),
        Step::Done(Ok(Some("git@h:o/r.git".to_string())))
    );
    assert_eq!(
        jj.origin_url(&[ran(true, "origin: https://h/o/r\n", "")]),
        Step::Done(Ok(Some("https://h/o/r".to_string())))
    );
    assert_eq!(jj.origin_url(&[ran(true, "originx y\n", "")]), Step::Done(Ok(None)));
    assert_eq!(
        jj.referenced_remote("main@up", &[ran(true, "  up\tu\n\norigin o\n", "")]),
        Step::Done(Ok(Some("up".to_string())))
    );
}

#[test]
fn jj_bookmarks_and_fetches() {
    let jj = JjBackend::new("/r", false);
    assert_eq!(
        jj.list_refs(&[ran(true, "a\nb\n", "")]),
        Step::Done(Ok(vec!["a".to_string(), "b".to_string()]))
    );
    assert_eq!(
        jj.list_refs(&[ran(false, "", "x")]),
        Step::Done(Err("jj bookmark list: x".to_string()))
    );
    assert_eq!(jj.branch_exists("a", &[ran(true, "a: x\n", "")]), Step::Done(Ok(true)));
    assert_eq!(jj.branch_exists("a", &[ran(true, "", "w")]), Step::Done(Ok(false)));
    assert_eq!(jj.fetch(&[]), Step::Do(run(&["git", "fetch"], "/r", true)));
    assert_eq!(
        jj.fetch_remote("up", &[]),
        Step::Do(run(&["git", "fetch", "--remote", "up"], "/r", true))
    );
    assert_eq!(
        jj.fetch_remote("up", &[ran(false, "", "bad\n")]),
        Step::Done(Err("jj git fetch --remote up: bad".to_string()))
    );
    assert_eq!(
        jj.current_branch(&[ran(true, "a,b\n", "")]),
        Step::Done(Ok(Some("a,b".to_string())))
    );
}
