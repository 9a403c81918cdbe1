use renri::config::{HookSpec, LoadedConfig};
use renri::layout::VcsContext;
use renri::report::config_report;

fn ctx() -> VcsContext {
    VcsContext {
        owner: "o".into(),
        repo: "r".into(),
        host: None,
        branch: "b".into(),
    }
}

fn names(n: &[&str]) -> Vec<String> {
    n.iter().map(|s| s.to_string()).collect()
}

#[test]
fn an_unconfigured_repository() {
    let lines = config_report(
        &names(&["git"]),
        "/r",
        &ctx(),
        None,
        &LoadedConfig::default(),
        "/wt/o/r/(none)",
        false,
    );
    assert_eq!(
        lines,
        vec![
            "\x1b[2mrepo\x1b[0m",
            "  backend:           git",
            "  root:              /r",
            "",
            "\x1b[2mvcs context\x1b[0m",
            "  host:              (none)",
            "  owner:             o",
            "  repo:              r",
            "  branch:            \x1b[2m(no bookmark at @)\x1b[0m",
            "",
            "\x1b[2mlayout (template)\x1b[0m",
            "  worktree_root:     {{ home() }}/wt",
            "  worktree_path:     {{ vcs.owner }}/{{ vcs.repo }}/{{ vcs.branch | replace(from='/', to='-') }}",
            "",
            "\x1b[2mhooks\x1b[0m",
            "  post_create:       0",
            "  pre_remove:        0",
            "",
            "\x1b[2mconfig sources\x1b[0m        \x1b[2m(none — using built-in defaults)\x1b[0m",
        ]
    );
}

#[test]
fn a_configured_repository_with_both_backends() {
    let mut loaded = LoadedConfig::default();
    loaded.config.layout.worktree_root = Some("/srv".to_string());
    loaded.config.hooks.pre_remove.push(HookSpec::Copy { files: Vec::new() });
    loaded.sources = names(&["/c/renri/config.toml", "/r/renri.toml"]);
    let mut c = ctx();
    c.host = Some("github.com".into());
    let lines = config_report(
        &names(&["jj", "git"]),
        "/r",
        &c,
        Some("main"),
        &loaded,
        "/srv/o/r/main",
        false,
    );
    assert_eq!(lines[1], "  backends:          jj, git (primary: jj)");
    assert_eq!(lines[5], "  host:              github.com");
    assert_eq!(lines[8], "  branch:            main");
    assert_eq!(lines[11], "  worktree_root:     /srv");
    assert_eq!(lines[14], "\x1b[2mlayout (resolved for current branch)\x1b[0m");
    assert_eq!(lines[15], "  → /srv/o/r/main");
    assert_eq!(lines[19], "  pre_remove:        1");
    assert_eq!(lines[22..], ["  /c/renri/config.toml", "  /r/renri.toml"]);
}
