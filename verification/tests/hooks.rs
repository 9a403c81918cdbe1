use renri::config::HookSpec;
use renri::hooks::copy::{
    copy_dir_recursive, copy_path, failure_of, CopyJob, Entry, FileKind,
};
use renri::hooks::symlink::{create, junction_link, windows_symlink, LinkJob, Platform};
use renri::hooks::{
    command, parse_arrow, run_all, run_one, Asked, HookAction, HookRun, HookStep, Progress,
};
use renri::layout::VcsContext;
use renri::process::{Action, Invocation};
use renri::render::Rendering;

#[test]
fn parse_arrow_with_rename() {
    assert_eq!(
        parse_arrow(".env.example -> .env"),
        (".env.example", ".env")
    );
}

#[test]
fn parse_arrow_without_rename() {
    assert_eq!(parse_arrow(".env"), (".env", ".env"));
}

#[test]
fn parse_arrow_handles_extra_whitespace() {
    assert_eq!(
        parse_arrow("  src.toml  ->  dst.toml  "),
        ("src.toml", "dst.toml")
    );
}

#[test]
fn parse_arrow_splits_at_the_first_arrow() {
    assert_eq!(parse_arrow("a->b->c"), ("a", "b->c"));
    assert_eq!(parse_arrow("->"), ("", ""));
}

fn vcs() -> VcsContext {
    VcsContext {
        owner: "o".into(),
        repo: "r".into(),
        host: None,
        branch: "feat/x".into(),
    }
}

fn at<'a>(vcs: &'a VcsContext) -> HookRun<'a> {
    HookRun {
        repo_root: "/repo",
        worktree_path: "/wt",
        vcs,
        windows: false,
    }
}

#[test]
fn hooks_are_rendered_with_the_paths_in_scope() {
    let v = vcs();
    let hr = at(&v);
    assert_eq!(
        hr.render("{{ repo.root }}|{{ worktree.path }}|{{ vcs.branch }}", &[], 0),
        (Rendering::Done(Ok("/repo|/wt|feat/x".to_string())), 0)
    );
    let source = "{{ nothing.here }}";
    match hr.render(source, &[], 0) {
        (Rendering::Ask(t), 0) => {
            assert_eq!(t.source, source);
            let names: Vec<&str> = t.scope.iter().map(|t| t.name.as_str()).collect();
            assert_eq!(names, vec!["vcs", "worktree", "repo"]);
        }
        other => panic!("{other:?}"),
    }
    let replies = vec![Ok("x".to_string()), Err("no".to_string())];
    assert_eq!(
        hr.render(source, &replies, 1),
        (Rendering::Done(Err("no".to_string())), 2)
    );
}

#[test]
fn the_second_template_is_rendered_after_the_first() {
    let v = vcs();
    let hr = at(&v);
    let spec = HookSpec::Symlink {
        src: "{{ a() }}".to_string(),
        dst: "{{ b() }}".to_string(),
    };
    let source = |asked: Asked| match asked {
        Asked::Render(t) => t.source,
        other => panic!("{other:?}"),
    };
    assert_eq!(source(run_one(&spec, 0, &hr, &[])), "{{ a() }}");
    let first = vec![Ok("s".to_string())];
    assert_eq!(source(run_one(&spec, 0, &hr, &first)), "{{ b() }}");
    let failed = vec![Err("e".to_string())];
    assert_eq!(run_one(&spec, 0, &hr, &failed), Asked::Fail("e".to_string()));
    let both = vec![Ok("s".to_string()), Ok("d".to_string())];
    assert_eq!(
        run_one(&spec, 0, &hr, &both),
        Asked::Act(HookAction::Link {
            target: "/repo/s".to_string(),
            link: "/wt/d".to_string()
        })
    );
}

#[test]
fn paths_are_joined_as_on_windows_there() {
    let v = vcs();
    let hr = HookRun {
        repo_root: "C:\\repo",
        worktree_path: "\\\\?\\D:\\wt",
        vcs: &v,
        windows: true,
    };
    let spec = HookSpec::Copy {
        files: vec!["a/b -> ./c/../d".to_string()],
    };
    assert_eq!(
        run_one(&spec, 0, &hr, &[]),
        Asked::Act(HookAction::Copy {
            src: "C:\\repo\\a/b".to_string(),
            dst: "\\\\?\\D:\\wt\\d".to_string()
        })
    );
}

#[test]
fn copies_go_from_the_repository_to_the_worktree() {
    let v = vcs();
    let spec = HookSpec::Copy {
        files: vec![".env".to_string(), "cfg/{{ vcs.repo }} -> /abs".to_string()],
    };
    assert_eq!(
        run_one(&spec, 0, &at(&v), &[]),
        Asked::Act(HookAction::Copy {
            src: "/repo/.env".to_string(),
            dst: "/wt/.env".to_string()
        })
    );
    assert_eq!(
        run_one(&spec, 1, &at(&v), &[]),
        Asked::Act(HookAction::Copy {
            src: "/repo/cfg/r".to_string(),
            dst: "/abs".to_string()
        })
    );
}

#[test]
fn links_point_into_the_repository() {
    let v = vcs();
    let link = |src: &str| HookSpec::Symlink {
        src: src.to_string(),
        dst: "node_modules".to_string(),
    };
    assert_eq!(
        run_one(&link("deps"), 0, &at(&v), &[]),
        Asked::Act(HookAction::Link {
            target: "/repo/deps".to_string(),
            link: "/wt/node_modules".to_string()
        })
    );
    assert_eq!(
        run_one(&link("/deps"), 0, &at(&v), &[]),
        Asked::Act(HookAction::Link {
            target: "/deps".to_string(),
            link: "/wt/node_modules".to_string()
        })
    );
}

fn invocation(program: &str, args: &[&str]) -> Invocation {
    Invocation {
        program: program.to_string(),
        args: args.iter().map(|a| a.to_string()).collect(),
        dir: "/wt".to_string(),
        capture: false,
    }
}

#[test]
fn commands_run_in_the_shell_asked_for() {
    let run = |shell: Option<&str>, windows: bool| command::run("x", shell, "/wt", windows);
    assert_eq!(run(None, false).unwrap(), invocation("bash", &["-c", "x"]));
    assert_eq!(
        run(Some("auto"), true).unwrap(),
        invocation("pwsh", &["-NoProfile", "-Command", "x"])
    );
    assert_eq!(
        run(Some("powershell"), false).unwrap(),
        invocation("powershell", &["-NoProfile", "-Command", "x"])
    );
    assert_eq!(
        run(Some("pwsh"), true).unwrap(),
        invocation("powershell", &["-NoProfile", "-Command", "x"])
    );
    assert_eq!(
        run(None, true).unwrap(),
        invocation("pwsh", &["-NoProfile", "-Command", "x"])
    );
    assert_eq!(run(Some("bash"), true).unwrap(), invocation("bash", &["-c", "x"]));
    assert_eq!(run(Some("sh"), true).unwrap(), invocation("sh", &["-c", "x"]));
    assert_eq!(run(Some("zsh"), true).unwrap(), invocation("zsh", &["-c", "x"]));
    assert_eq!(run(Some("cmd"), false).unwrap(), invocation("cmd", &["/C", "x"]));
    assert_eq!(run(Some("fish"), false).unwrap_err(), "unknown shell: fish");
}

#[test]
fn hooks_run_one_after_the_other() {
    let v = vcs();
    let specs = vec![
        HookSpec::Copy { files: Vec::new() },
        HookSpec::Copy {
            files: vec!["a".to_string(), "b".to_string()],
        },
        HookSpec::Command {
            run: "make {{ vcs.owner }}".to_string(),
            shell: None,
        },
    ];
    let mut p = Progress { hook: 0, entry: 0 };
    let mut seen = Vec::new();
    loop {
        match run_all(&specs, &at(&v), p, &[], Ok(())) {
            HookStep::Do(a, next) => {
                seen.push(a);
                p = next;
            }
            HookStep::Render(t) => panic!("{t:?}"),
            HookStep::Finished => break,
            HookStep::Failed(what, why) => panic!("{what}: {why}"),
        }
    }
    assert_eq!(seen.len(), 3);
    assert_eq!(
        seen[2],
        HookAction::Run(invocation("bash", &["-c", "make o"]))
    );
}

#[test]
fn the_first_failure_ends_it_all() {
    let v = vcs();
    let specs = vec![HookSpec::Command {
        run: "false".to_string(),
        shell: None,
    }];
    let next = match run_all(&specs, &at(&v), Progress { hook: 0, entry: 0 }, &[], Ok(())) {
        HookStep::Do(_, next) => next,
        other => panic!("{other:?}"),
    };
    assert_eq!(
        run_all(&specs, &at(&v), next, &[], Err("exited".to_string())),
        HookStep::Failed("command hook failed: false".to_string(), "exited".to_string())
    );
    let bad = vec![HookSpec::Symlink {
        src: "{{ x".to_string(),
        dst: "d".to_string(),
    }];
    match run_all(&bad, &at(&v), Progress { hook: 0, entry: 0 }, &[], Ok(())) {
        HookStep::Render(t) => assert_eq!(t.source, "{{ x"),
        other => panic!("{other:?}"),
    }
    let refused = vec![Err("unclosed".to_string())];
    match run_all(&bad, &at(&v), Progress { hook: 0, entry: 0 }, &refused, Ok(())) {
        HookStep::Failed(what, _) => assert_eq!(what, "symlink hook failed"),
        other => panic!("{other:?}"),
    }
    let unknown = vec![HookSpec::Command {
        run: "x".to_string(),
        shell: Some("tcsh".to_string()),
    }];
    match run_all(&unknown, &at(&v), Progress { hook: 0, entry: 0 }, &[], Ok(())) {
        HookStep::Failed(what, why) => {
            assert_eq!(what, "command hook failed: x");
            assert_eq!(why, "unknown shell: tcsh");
        }
        other => panic!("{other:?}"),
    }
}

#[test]
fn missing_source_is_an_error() {
    let err = copy_path("/tmp/nope", "/tmp/dst", None, false).unwrap_err();
    assert!(err.contains("source not found"));
    assert_eq!(err, "source not found: /tmp/nope");
}

fn file(src: &str, dst: &str) -> CopyJob {
    CopyJob::CopyFile {
        src: src.to_string(),
        dst: dst.to_string(),
    }
}

#[test]
fn copies_make_their_directory_first() {
    assert_eq!(
        copy_path("/s", "/a/b/d", Some(FileKind::File), false).unwrap(),
        vec![CopyJob::MakeDirs("/a/b".to_string()), file("/s", "/a/b/d")]
    );
    assert_eq!(
        copy_path("/s", "d", Some(FileKind::Dir), false).unwrap(),
        vec![CopyJob::CopyTree {
            src: "/s".to_string(),
            dst: "d".to_string()
        }]
    );
    let jobs = copy_path("/s", "d", Some(FileKind::Other), false).unwrap();
    assert_eq!(
        failure_of(&jobs[0]),
        "copy hook: /s is neither a file nor a directory"
    );
    assert_eq!(failure_of(&file("a", "b")), "copy a -> b");
}

#[test]
fn trees_are_copied_in_order() {
    let entry = |name: &str, kind: FileKind| Entry {
        name: name.to_string(),
        kind,
    };
    let mut pending = vec![file("old", "old")];
    copy_dir_recursive(
        "/s",
        "/d",
        &vec![
            entry("one", FileKind::File),
            entry("pipe", FileKind::Other),
            entry("two", FileKind::Dir),
        ],
        false,
        &mut pending,
    );
    assert_eq!(pending.pop().unwrap(), file("/s/one", "/d/one"));
    assert_eq!(
        pending.pop().unwrap(),
        CopyJob::CopyTree {
            src: "/s/two".to_string(),
            dst: "/d/two".to_string()
        }
    );
    assert_eq!(pending, vec![file("old", "old")]);
}

#[test]
fn links_are_planned_by_platform() {
    let link = |dir: bool| LinkJob::Link {
        target: "/t".to_string(),
        link: "l".to_string(),
        dir,
    };
    assert_eq!(create("/t", "l", Platform::Unix, None), vec![link(false)]);
    assert_eq!(
        create("/t", "l", Platform::Windows, Some(FileKind::Dir)),
        vec![link(true)]
    );
    assert_eq!(
        create("/t", "a/l", Platform::Windows, None),
        vec![
            LinkJob::MakeDirs("a".to_string()),
            LinkJob::Refuse("symlink target /t does not exist".to_string())
        ]
    );
    assert_eq!(
        create("/t", "l", Platform::Other, None),
        vec![LinkJob::Refuse(
            "symlink hook is unsupported on this platform".to_string()
        )]
    );
}

#[test]
fn a_refused_directory_link_becomes_a_junction() {
    match windows_symlink("t", "l", true, "denied") {
        Ok(Action::Run(i)) => {
            assert_eq!(i.program, "cmd");
            assert_eq!(i.args, vec!["/C", "mklink", "/J", "l", "t"]);
        }
        other => panic!("{other:?}"),
    }
    assert!(junction_link("t", "l", Some(true)).is_ok());
    assert_eq!(
        junction_link("t", "l", Some(false)).unwrap_err(),
        "junction creation failed: mklink /J l t"
    );
    assert_eq!(
        junction_link("t", "l", None).unwrap_err(),
        "failed to spawn cmd /C mklink /J"
    );
    let e = windows_symlink("t", "l", false, "denied").unwrap_err();
    assert!(e.starts_with("symlink l -> t failed: denied\non Windows, file symlinks"));
}
