use renri::process::{Action, Invocation, Output, Reply, Step};
use renri::vcs::git::{derive_name, parse_porcelain, GitBackend};
use renri::vcs::{AddBranch, Backend, Kind};

fn ran(success: bool, stdout: &str, stderr: &str) -> Reply {
    Reply::Ran(Some(Output {
        success,
        stdout: stdout.to_string(),
        stderr: stderr.to_string(),
    }))
}

fn run(args: &[&str], dir: &str, capture: bool) -> Action {
    Action::Run(Invocation {
        program: "git".to_string(),
        args: args.iter().map(|a| a.to_string()).collect(),
        dir: dir.to_string(),
        capture,
    })
}

#[test]
fn parse_porcelain_basic() {
    let text = "\
worktree /home/me/proj
HEAD aaaaaaaaaaaaaaaaaaaaaaaaaaaaaaaaaaaaaaaa
branch refs/heads/main

worktree /home/me/proj-feature
HEAD bbbbbbbbbbbbbbbbbbbbbbbbbbbbbbbbbbbbbbbb
branch refs/heads/feature/x
";
    let wts = parse_porcelain(text, false);
    assert_eq!(wts.len(), 2);

    assert!(wts[0].is_main);
    assert_eq!(wts[0].path, "/home/me/proj");
    assert_eq!(wts[0].branch.as_deref(), Some("main"));
    assert_eq!(wts[0].name, "main");

    assert!(!wts[1].is_main);
    assert_eq!(wts[1].path, "/home/me/proj-feature");
    assert_eq!(wts[1].branch.as_deref(), Some("feature/x"));
    assert_eq!(wts[1].name, "feature/x");
    assert_eq!(
        wts[1].commit.as_deref(),
        Some("bbbbbbbbbbbbbbbbbbbbbbbbbbbbbbbbbbbbbbbb")
    );
    assert_eq!(wts[1].vcs, Kind::Git);
}

#[test]
fn parse_porcelain_handles_detached_bare_locked_prunable() {
    let text = "\
worktree /repo
bare

worktree /repo/wt-detached
HEAD cccccccccccccccccccccccccccccccccccccccc
detached

worktree /repo/wt-locked
HEAD dddddddddddddddddddddddddddddddddddddddd
branch refs/heads/locked-feature
locked some reason

worktree /repo/wt-stale
HEAD eeeeeeeeeeeeeeeeeeeeeeeeeeeeeeeeeeeeeeee
branch refs/heads/old
prunable gitdir file points to non-existent location
";
    let wts = parse_porcelain(text, false);
    assert_eq!(wts.len(), 4);

    assert!(wts[0].is_main && wts[0].is_bare);

    assert!(wts[1].branch.is_none(), "detached → no branch");
    assert_eq!(wts[1].name, "wt-detached");

    assert!(wts[2].is_locked);
    assert_eq!(wts[2].branch.as_deref(), Some("locked-feature"));

    assert!(wts[3].is_stale);
}

#[test]
fn parse_porcelain_empty() {
    assert_eq!(parse_porcelain("", false), vec![]);
}

#[test]
fn parse_porcelain_trailing_blank_line() {
    let text = "\
worktree /repo
HEAD aaaaaaaaaaaaaaaaaaaaaaaaaaaaaaaaaaaaaaaa
branch refs/heads/main

";
    let wts = parse_porcelain(text, false);
    assert_eq!(wts.len(), 1);
    assert_eq!(wts[0].name, "main");
}

#[test]
fn records_without_a_blank_line_between_are_told_apart() {
    let wts = parse_porcelain("HEAD x\nworktree /a\r\nbare\r\nworktree /b\nbranch topic\n", false);
    assert_eq!(wts.len(), 2);
    assert_eq!(wts[0].path, "/a");
    assert!(wts[0].is_bare && wts[0].head.is_none());
    assert_eq!(wts[1].branch.as_deref(), Some("topic"));
}

#[test]
fn a_path_without_a_name_is_a_question_mark() {
    assert_eq!(derive_name("/", false), "?");
    assert_eq!(derive_name("/a/..", false), "?");
    assert_eq!(derive_name("/a/b/", false), "b");
}

#[test]
fn list_asks_for_the_state_of_each_worktree() {
    let git = GitBackend::new("/r", false);
    assert_eq!(
        git.list(&[]),
        Step::Do(run(&["worktree", "list", "--porcelain"], "/r", true))
    );
    let listing = "worktree /r\nHEAD a\nbranch refs/heads/main\n\nworktree /gone\nHEAD b\nprunable x\n";
    assert_eq!(
        git.list(&[ran(true, listing, "")]),
        Step::Do(run(&["status", "--porcelain"], "/r", true))
    );
    assert_eq!(
        git.list(&[ran(true, listing, ""), ran(true, " M x\n", "")]),
        Step::Do(run(&["log", "-1", "--format=%h%n%B"], "/r", true))
    );
    match git.list(&[
        ran(true, listing, ""),
        ran(true, " M x\n", ""),
        ran(true, "a1b2\nsubject\nmore\n\nbody\n", ""),
    ]) {
        Step::Done(Ok(rows)) => {
            assert_eq!(rows.len(), 2);
            assert!(rows[0].dirty && rows[0].is_main);
            assert_eq!(rows[0].desc.as_deref(), Some("subject"));
            assert_eq!(rows[0].head.as_deref(), Some("a1b2"));
            assert_eq!(rows[0].commit.as_deref(), Some("a"));
            assert!(rows[1].is_stale && !rows[1].dirty && rows[1].desc.is_none());
        }
        other => panic!("{other:?}"),
    }
}

#[test]
fn list_failures_carry_what_git_said() {
    let git = GitBackend::new("/r", false);
    assert_eq!(
        git.list(&[ran(false, "", " fatal: no \n")]),
        Step::Done(Err("git worktree list: fatal: no".to_string()))
    );
    assert_eq!(
        git.list(&[Reply::Ran(None)]),
        Step::Done(Err("failed to spawn `git`".to_string()))
    );
}

#[test]
fn add_passes_the_branch_and_the_base() {
    let git = GitBackend::new("/r", false);
    let new = AddBranch::NewBranch {
        name: "n",
        base: Some("origin/main"),
    };
    assert_eq!(
        git.add("/wt/n", new, &[]),
        Step::Do(run(
            &["worktree", "add", "-b", "n", "/wt/n", "origin/main"],
            "/r",
            false
        ))
    );
    let head = AddBranch::NewBranch {
        name: "n",
        base: None,
    };
    assert_eq!(
        git.add("/wt/n", head, &[]),
        Step::Do(run(&["worktree", "add", "-b", "n", "/wt/n"], "/r", false))
    );
    assert_eq!(
        git.add("/wt/n", AddBranch::ExistingBranch("n"), &[]),
        Step::Do(run(&["worktree", "add", "/wt/n", "n"], "/r", false))
    );
    assert_eq!(
        git.add("/wt/n", head, &[ran(true, "", "")]),
        Step::Done(Ok(()))
    );
    assert_eq!(
        git.add("/wt/n", head, &[ran(false, "", "")]),
        Step::Done(Err("git worktree add failed".to_string()))
    );
}

#[test]
fn remove_passes_force_on() {
    let git = GitBackend::new("/r", false);
    assert_eq!(
        git.remove("/wt", false, &[]),
        Step::Do(run(&["worktree", "remove", "/wt"], "/r", false))
    );
    assert_eq!(
        git.remove("/wt", true, &[]),
        Step::Do(run(&["worktree", "remove", "--force", "/wt"], "/r", false))
    );
    assert_eq!(
        git.remove("/wt", true, &[ran(false, "", "")]),
        Step::Done(Err("git worktree remove failed".to_string()))
    );
}

#[test]
fn origin_and_branch_are_trimmed_answers() {
    let git = GitBackend::new("/r", false);
    assert_eq!(
        git.origin_url(&[]),
        Step::Do(run(&["remote", "get-url", "origin"], "/r", true))
    );
    assert_eq!(
        git.origin_url(&[ran(true, " url \n", "")]),
        Step::Done(Ok(Some("url".to_string())))
    );
    assert_eq!(git.origin_url(&[ran(false, "url", "")]), Step::Done(Ok(None)));
    assert_eq!(git.current_branch(&[ran(true, "\n", "")]), Step::Done(Ok(None)));
    assert_eq!(git.current_branch(&[Reply::Ran(None)]), Step::Done(Ok(None)));
}

#[test]
fn refs_and_branches_are_found() {
    let git = GitBackend::new("/r", false);
    assert_eq!(
        git.list_refs(&[ran(true, "main\n\norigin/main\n", "")]),
        Step::Done(Ok(vec!["main".to_string(), "origin/main".to_string()]))
    );
    assert_eq!(
        git.branch_exists("x/y", &[]),
        Step::Do(run(
            &["show-ref", "--verify", "--quiet", "refs/heads/x/y"],
            "/r",
            true
        ))
    );
    assert_eq!(git.branch_exists("x", &[ran(true, "", "")]), Step::Done(Ok(true)));
    assert_eq!(git.branch_exists("x", &[ran(false, "", "")]), Step::Done(Ok(false)));
}

#[test]
fn fetch_shows_messages_before_output() {
    let git = GitBackend::new("/r", false);
    assert_eq!(git.fetch(&[]), Step::Do(run(&["fetch", "origin"], "/r", true)));
    assert_eq!(
        git.fetch_remote("up", &[]),
        Step::Do(run(&["fetch", "up"], "/r", true))
    );
    assert_eq!(
        git.fetch(&[ran(true, "out", "msg")]),
        Step::Done(Ok("msg".to_string()))
    );
    assert_eq!(
        git.fetch(&[ran(true, "out", " \n")]),
        Step::Done(Ok("out".to_string()))
    );
    assert_eq!(
        git.fetch_remote("up", &[ran(false, "", "nope\n")]),
        Step::Done(Err("git fetch up: nope".to_string()))
    );
}

#[test]
fn git_remote_is_what_precedes_the_slash() {
    let git = GitBackend::new("/r", false);
    let remotes = || ran(true, "origin\nupstream\n", "");
    assert_eq!(
        git.referenced_remote("upstream/main", &[remotes()]),
        Step::Done(Ok(Some("upstream".to_string())))
    );
    assert_eq!(
        git.referenced_remote("feature/upstream", &[remotes()]),
        Step::Done(Ok(None))
    );
    assert_eq!(git.referenced_remote("origin", &[remotes()]), Step::Done(Ok(None)));
}

#[test]
fn prune_shows_what_git_printed() {
    let git = GitBackend::new("/r", false);
    assert_eq!(
        git.prune(&[]),
        Step::Do(run(&["worktree", "prune", "--verbose"], "/r", true))
    );
    assert_eq!(
        git.prune(&[ran(true, "Removing x\n", "")]),
        Step::Done(Ok("Removing x\n".to_string()))
    );
}
