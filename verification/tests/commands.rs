use renri::commands::{
    change_dir, check_init, effective_cwd, exec_in, gh_repo, init_target, not_opened_error,
    open_in_browser, pick_project, pick_subshell, pr_page, ChangeDir, Desktop, INIT_TEMPLATE,
};
use renri::discovery::Project;
use renri::pr_cache::PrInfo;
use renri::process::Action;
use renri::vcs::{Kind, Worktree};

fn row(name: &str) -> Worktree {
    Worktree {
        name: name.into(),
        path: format!("/wt/{name}"),
        branch: None,
        head: None,
        commit: None,
        desc: None,
        dirty: false,
        conflict: false,
        is_main: false,
        is_bare: false,
        is_stale: false,
        is_locked: false,
        vcs: Kind::Git,
    }
}

#[test]
fn gh_repo_needs_owner_and_name() {
    assert_eq!(gh_repo(Some("git@github.com:o/r.git")).as_deref(), Some("o/r"));
    assert_eq!(gh_repo(Some("git@host:r")), None);
    assert_eq!(gh_repo(Some("https://host")), None);
    assert_eq!(gh_repo(None), None);
}

#[test]
fn pages_are_opened_or_missed() {
    let p = PrInfo {
        number: 4,
        state: "OPEN".into(),
        head_ref_name: "w".into(),
    };
    assert_eq!(
        pr_page(&row("w"), Some(&p), "o", "r").unwrap(),
        (
            "https://github.com/o/r/pull/4".to_string(),
            "opening PR #4 (OPEN) — https://github.com/o/r/pull/4".to_string()
        )
    );
    assert_eq!(
        pr_page(&row("w"), None, "o", "r").unwrap_err(),
        "no PR found for `w` in the cache. try `renri pr w --refresh` to re-fetch from GitHub, \
         or check that the branch was actually pushed and a PR was opened."
    );
}

#[test]
fn browsers_differ_by_desktop() {
    let programs = |d: Desktop| -> Vec<(String, Vec<String>)> {
        open_in_browser(d, "u")
            .into_iter()
            .map(|a| match a {
                Action::Run(i) => (i.program, i.args),
                other => panic!("{other:?}"),
            })
            .collect()
    };
    let entry = |p: &str, a: &[&str]| {
        (p.to_string(), a.iter().map(|s| s.to_string()).collect::<Vec<_>>())
    };
    assert_eq!(programs(Desktop::Mac), vec![entry("open", &["u"])]);
    assert_eq!(
        programs(Desktop::Windows),
        vec![entry("rundll32", &["url.dll,FileProtocolHandler", "u"])]
    );
    assert_eq!(
        programs(Desktop::Other),
        vec![
            entry("xdg-open", &["u"]),
            entry("gio", &["open", "u"]),
            entry("wslview", &["u"])
        ]
    );
    assert_eq!(
        not_opened_error(Desktop::Mac, "u"),
        "failed to open `u` in browser"
    );
    assert_eq!(
        not_opened_error(Desktop::Other, "u"),
        "no suitable URL opener found (install xdg-utils, or open manually): u"
    );
}

#[test]
fn cd_prints_inside_the_wrapper_and_opens_a_shell_elsewhere() {
    assert_eq!(pick_subshell(false, None), "bash");
    assert_eq!(pick_subshell(true, None), "pwsh");
    assert_eq!(pick_subshell(true, Some("cmd.exe")), "cmd.exe");
    assert_eq!(
        change_dir("/wt/a", true, "bash", false),
        ChangeDir::Print("/wt/a".to_string())
    );
    match change_dir("/wt/a", false, "fish", false) {
        ChangeDir::Shell(i, note) => {
            assert_eq!((i.program.as_str(), i.dir.as_str()), ("fish", "/wt/a"));
            assert!(i.args.is_empty() && !i.capture);
            assert_eq!(note.len(), 4);
            assert_eq!(note[0], "renri: spawning fish in /wt/a");
        }
        other => panic!("{other:?}"),
    }
}

#[test]
fn exec_needs_a_program() {
    let argv: Vec<String> = ["make", "-j", "x"].iter().map(|s| s.to_string()).collect();
    let i = exec_in(&argv, "/wt").unwrap();
    assert_eq!((i.program.as_str(), i.dir.as_str()), ("make", "/wt"));
    assert_eq!(i.args, vec!["-j", "x"]);
    assert_eq!(
        exec_in(&Vec::new(), "/wt").unwrap_err(),
        "no command was given (use `renri exec <name> -- cmd args...`)"
    );
}

#[test]
fn init_does_not_overwrite_unasked() {
    assert_eq!(init_target("/p", false), "/p/renri.toml");
    assert!(check_init("t", false, false).is_ok());
    assert!(check_init("t", true, true).is_ok());
    assert_eq!(
        check_init("/p/renri.toml", true, false).unwrap_err(),
        "/p/renri.toml already exists; pass --force to overwrite"
    );
    assert!(INIT_TEMPLATE.starts_with("# renri.toml\n"));
}

#[test]
fn the_directory_to_start_from() {
    assert_eq!(effective_cwd(Some("/x"), true, Some("/y")).unwrap(), "/x");
    assert_eq!(
        effective_cwd(Some("/x"), false, Some("/y")).unwrap_err(),
        "--cwd path does not exist: /x"
    );
    assert_eq!(effective_cwd(None, false, Some("/y")).unwrap(), "/y");
    assert_eq!(
        effective_cwd(None, false, None).unwrap_err(),
        "could not read current directory"
    );
}

#[test]
fn projects_are_offered_with_their_size() {
    let project = |label: &str, n: usize| Project {
        label: label.to_string(),
        worktrees: vec!["/w".to_string(); n],
    };
    let projects = vec![project("a", 1), project("b", 2)];
    assert_eq!(
        pick_project("/wt", &projects, false, false).unwrap(),
        vec!["a  (1 worktree)", "b  (2 worktrees)"]
    );
    assert!(pick_project("/wt", &projects, true, false)
        .unwrap_err()
        .contains("--non-interactive set"));
    assert_eq!(
        pick_project("/wt", &Vec::new(), false, false).unwrap_err(),
        "not inside a git or jj repository, and no managed projects found under /wt.\n\
         tip: cd into a repo, pass `-C <path>`, or `renri add <branch>` from a repo first."
    );
}
