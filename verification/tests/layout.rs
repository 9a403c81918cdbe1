use renri::render::{Rendering, Template};
use renri::layout::{
    context_for, discover_vcs_context, lay_out, parse_origin, render_path, render_worktree_root,
    split_host_and_path, split_owner_repo, VcsContext,
};

#[test]
fn parse_origin_scp_like() {
    let v = parse_origin("git@github.com:yukimemi/teravars.git");
    assert_eq!(v.host.as_deref(), Some("github.com"));
    assert_eq!(v.owner, "yukimemi");
    assert_eq!(v.repo, "teravars");
}

#[test]
fn parse_origin_https() {
    let v = parse_origin("https://github.com/foo/bar.git");
    assert_eq!(v.host.as_deref(), Some("github.com"));
    assert_eq!(v.owner, "foo");
    assert_eq!(v.repo, "bar");
}

#[test]
fn parse_origin_ssh_with_port() {
    let v = parse_origin("ssh://git@gitlab.example.com:2222/group/proj.git");
    assert_eq!(v.host.as_deref(), Some("gitlab.example.com"));
    assert_eq!(v.owner, "group");
    assert_eq!(v.repo, "proj");
}

#[test]
fn parse_origin_nested_owner_path() {
    let v = parse_origin("git@gitlab.com:team/group/subproj.git");
    assert_eq!(v.host.as_deref(), Some("gitlab.com"));
    assert_eq!(v.owner, "team/group");
    assert_eq!(v.repo, "subproj");
}

#[test]
fn parse_origin_no_owner() {
    let v = parse_origin("git@host:repo.git");
    assert_eq!(v.host.as_deref(), Some("host"));
    assert_eq!(v.owner, "");
    assert_eq!(v.repo, "repo");
}

#[test]
fn parse_origin_strips_git_suffix() {
    assert_eq!(parse_origin("https://x.y/a/b.git").repo, "b");
    assert_eq!(parse_origin("https://x.y/a/b").repo, "b");
}

#[test]
fn parse_origin_of_a_local_path() {
    let v = parse_origin(" /srv/git/origin.git\n");
    assert_eq!(v.host, None);
    assert_eq!(v.owner, "srv/git");
    assert_eq!(v.repo, "origin");
    assert_eq!(v.branch, "");
}

#[test]
fn hosts_and_paths_are_split() {
    assert_eq!(
        split_host_and_path("https://user:pw@h.x:80/a/b"),
        (Some("h.x".to_string()), "a/b")
    );
    assert_eq!(
        split_host_and_path("https://h.x:80"),
        (Some("h.x:80".to_string()), "")
    );
    assert_eq!(split_host_and_path("./a:b"), (None, "./a:b"));
    assert_eq!(
        split_host_and_path("git@h:a/b"),
        split_host_and_path("https://h/a/b")
    );
    assert_eq!(split_owner_repo("//a/b/c"), ("a/b", "c"));
    assert_eq!(split_owner_repo("c"), ("", "c"));
}

fn ctx(owner: &str, repo: &str, host: Option<&str>, branch: &str) -> VcsContext {
    VcsContext {
        owner: owner.into(),
        repo: repo.into(),
        host: host.map(String::from),
        branch: branch.into(),
    }
}

/// Renders what the library hands out.
fn render_outside(t: &Template) -> Result<String, String> {
    let mut ctx = teravars::system_context();
    for table in &t.scope {
        let fields: std::collections::BTreeMap<&str, Option<&str>> = table
            .fields
            .iter()
            .map(|f| (f.name.as_str(), f.value.as_deref()))
            .collect();
        ctx.insert(table.name.clone(), &fields);
    }
    teravars::Engine::new().render(&t.source, &ctx).map_err(|e| e.to_string())
}

fn run(step: impl Fn(&[Result<String, String>]) -> Rendering) -> Result<String, String> {
    let mut replies = Vec::new();
    loop {
        match step(&replies) {
            Rendering::Ask(t) => replies.push(render_outside(&t)),
            Rendering::Done(r) => return r,
        }
    }
}

#[test]
fn render_path_uses_defaults_and_resolves_branch_with_slash() {
    let vcs = ctx("yuki", "renri", Some("github.com"), "feature/auth");
    let path = run(|replies| render_path(&vcs, None, None, false, replies)).unwrap();
    let s = path.replace('\\', "/");
    assert!(s.ends_with("yuki/renri/feature-auth"), "got: {s}");
}

#[test]
fn render_path_honors_custom_templates() {
    let vcs = ctx("o", "r", None, "b");
    let p = run(|replies| {
        render_path(
            &vcs,
            Some("/tmp/worktrees"),
            Some("{{ vcs.repo }}/{{ vcs.branch }}"),
            false,
            replies,
        )
    })
    .unwrap();
    let s = p.replace('\\', "/");
    assert_eq!(s, "/tmp/worktrees/r/b");
}

#[test]
fn render_path_says_which_template_failed() {
    let vcs = ctx("o", "r", None, "b");
    assert_eq!(
        run(|replies| render_path(&vcs, Some("{{ nope }"), None, false, replies)).unwrap_err(),
        "rendering layout.worktree_root"
    );
    assert_eq!(
        run(|replies| render_path(&vcs, Some("/r"), Some("{{ vcs.nope }}"), false, replies))
            .unwrap_err(),
        "rendering layout.worktree_path"
    );
}

#[test]
fn templates_are_asked_for_one_by_one() {
    let vcs = ctx("o", "r", None, "b");
    let step = |replies: &[Result<String, String>]| {
        render_path(&vcs, Some("{{ a() }}"), Some("{{ b() }}"), false, replies)
    };
    let source = |r: Rendering| match r {
        Rendering::Ask(t) => t.source,
        other => panic!("{other:?}"),
    };
    assert_eq!(source(step(&[])), "{{ a() }}");
    assert_eq!(source(step(&[Ok("/w".to_string())])), "{{ b() }}");
    assert_eq!(
        step(&[Ok("/w".to_string()), Ok(" x ".to_string())]),
        Rendering::Done(Ok("/w/x".to_string()))
    );
    assert_eq!(
        step(&[Err("no".to_string())]),
        Rendering::Done(Err("rendering layout.worktree_root".to_string()))
    );
    assert_eq!(
        render_path(&vcs, Some("C:\\wt"), None, true, &[]),
        Rendering::Done(Ok("C:\\wt\\o/r/b".to_string()))
    );
}

#[test]
fn values_are_rendered_as_they_are() {
    // Neither escaped nor rendered again.
    let vcs = ctx("<o>&", "{{ vcs.owner }}", Some("h"), "a/b/c");
    let p = render_path(
        &vcs,
        Some(" /w "),
        Some("{{ vcs.owner }}+{{ vcs.repo }}+{{ vcs.host }}+{{ vcs.branch | replace(from='/', to='-') }}"),
        false,
        &[],
    );
    assert_eq!(
        p,
        Rendering::Done(Ok("/w/<o>&+{{ vcs.owner }}+h+a-b-c".to_string()))
    );
}

#[test]
fn plain_templates_are_rendered_as_the_engine_does() {
    let vcs = ctx("ö\r\n", "r%}", Some("h"), "a/b");
    for source in [
        "",
        " \t\r\n ",
        "x #% y",
        "{{ vcs.owner }}{{ vcs.repo }}",
        "a{{ vcs.branch | replace(from='/', to='-') }}\n\n",
        "%{{ vcs.host }}# ",
    ] {
        let done = match render_path(&vcs, Some("/w"), Some(source), false, &[]) {
            Rendering::Done(r) => r,
            other => panic!("{other:?}"),
        };
        let asked = match render_path(&vcs, Some("/w"), Some("{{ x }}"), false, &[]) {
            Rendering::Ask(t) => t,
            other => panic!("{other:?}"),
        };
        let t = Template {
            source: source.to_string(),
            scope: asked.scope,
        };
        let out = render_outside(&t).unwrap();
        assert_eq!(done.unwrap(), lay_out("/w", &out, false), "{source:?}");
    }
}

#[test]
fn worktree_root_is_rendered_alone() {
    assert_eq!(
        render_worktree_root(Some(" /srv/wt\n"), &[]),
        Rendering::Done(Ok("/srv/wt".to_string()))
    );
    assert_eq!(
        run(|replies| render_worktree_root(Some("{{ vcs.owner }}"), replies)).unwrap_err(),
        "rendering layout.worktree_root"
    );
    assert!(run(|replies| render_worktree_root(None, replies)).unwrap().ends_with("/wt"));
}

#[test]
fn an_absolute_sub_path_stands_alone() {
    assert_eq!(lay_out(" /a ", " b/c ", false), "/a/b/c");
    assert_eq!(lay_out("/a", "/b", false), "/b");
}

#[test]
fn without_origin_the_user_owns_the_directory() {
    let c = context_for(None, "me", "/home/me/proj", "b", false);
    assert_eq!(c, ctx("me", "proj", None, "b"));
    assert_eq!(context_for(None, "me", "/", "b", false).repo, "repo");
    let d = context_for(Some("git@h:o/r"), "me", "/x", "b", false);
    assert_eq!(d, ctx("o", "r", Some("h"), "b"));
    assert_eq!(discover_vcs_context(Some("git@h:o/r"), "/x", "b", false), d);
    let local = discover_vcs_context(None, "/x/proj", "b", false);
    assert_eq!(local.repo, "proj");
    assert!(!local.owner.is_empty());
}
