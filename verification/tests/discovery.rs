use renri::discovery::{
    canonical, derive_label, is_worktree, normalize_to_repo_root, repo_identity,
    resolve_git_common_dir, resolve_jj_repo, scan, DirEntry, Listing, Located, Marker, Walk,
};

#[test]
fn normalize_collapses_git_jj_to_same_root() {
    // Default colocated layout: <root>/.git and <root>/.jj live next
    // to each other. Both should normalize to <root>.
    let root = "/some/repo";
    let from_git = normalize_to_repo_root("/some/repo/.git", false);
    let from_jj_dir = normalize_to_repo_root("/some/repo/.jj/repo", false);
    let from_secondary_git = normalize_to_repo_root("/some/repo/.git/worktrees/wt-foo", false);
    assert_eq!(from_git, root);
    assert_eq!(from_jj_dir, root);
    assert_eq!(from_secondary_git, root);
}

#[test]
fn normalize_leaves_other_paths_alone() {
    assert_eq!(normalize_to_repo_root("/wt/repo", false), "/wt/repo");
    assert_eq!(normalize_to_repo_root("/x/worktrees/y", false), "/x/worktrees/y");
    assert_eq!(normalize_to_repo_root("/.git", false), "/");
}

fn dir(name: &str) -> DirEntry {
    DirEntry {
        name: name.to_string(),
        is_symlink: false,
        is_dir: true,
    }
}

/// A small file system: the directories that hold others, and the worktrees.
fn look(tree: &[(&str, &[&str])], worktrees: &[&str], path: &str) -> Listing {
    let mut entries = Vec::new();
    for (parent, names) in tree {
        if *parent == path {
            for n in names.iter() {
                entries.push(dir(n));
            }
        }
    }
    Listing {
        has_git: worktrees.contains(&path),
        has_jj: false,
        entries,
    }
}

fn walk(root: &str, tree: &[(&str, &[&str])], worktrees: &[&str]) -> Vec<String> {
    let mut w = Walk::new(root);
    while let Some(path) = w.next() {
        let listing = look(tree, worktrees, path);
        w.visit(&listing, false);
    }
    w.found
}

fn located(paths: Vec<String>) -> Vec<Located> {
    paths
        .into_iter()
        .map(|p| {
            let id = repo_identity(&p, false, &Marker::Absent, &Marker::Dir, false);
            Located {
                identity: id.map(|i| canonical(&i, None)),
                path: p,
            }
        })
        .collect()
}

#[test]
fn scan_returns_empty_when_root_missing() {
    let projects = scan("/tmp/does-not-exist", false, &Vec::new(), false);
    assert!(projects.is_empty());
}

#[test]
fn scan_returns_empty_when_no_worktrees() {
    let found = walk("/t", &[("/t", &["owner"]), ("/t/owner", &["repo"])], &[]);
    assert!(found.is_empty());
    assert!(scan("/t", true, &located(found), false).is_empty());
}

#[test]
fn scan_finds_default_layout_worktrees() {
    let tree: &[(&str, &[&str])] = &[
        ("/t", &["yuki"]),
        ("/t/yuki", &["renri", "teravars"]),
        ("/t/yuki/renri", &["main", "feat-x"]),
        ("/t/yuki/teravars", &["main"]),
    ];
    let worktrees = [
        "/t/yuki/renri/main",
        "/t/yuki/renri/feat-x",
        "/t/yuki/teravars/main",
    ];
    let found = walk("/t", tree, &worktrees);
    assert_eq!(found, worktrees);
    let projects = scan("/t", true, &located(found), false);
    let labels: Vec<&str> = projects.iter().map(|p| p.label.as_str()).collect();
    assert!(
        labels.iter().any(|l| l.contains("renri")),
        "labels: {labels:?}"
    );
    assert!(
        labels.iter().any(|l| l.contains("teravars")),
        "labels: {labels:?}"
    );
}

#[test]
fn scan_handles_git_as_a_file() {
    let id = repo_identity(
        "/t/owner/repo/branch",
        false,
        &Marker::Absent,
        &Marker::File("gitdir: /tmp/whatever\n".to_string()),
        false,
    );
    assert_eq!(id.as_deref(), Some("/"));
    let found = vec![Located {
        path: "/t/owner/repo/branch".to_string(),
        identity: id,
    }];
    let projects = scan("/t", true, &found, false);
    assert_eq!(projects.len(), 1);
    assert!(projects[0].label.contains("owner"));
}

#[test]
fn scan_does_not_descend_into_a_worktree() {
    let tree: &[(&str, &[&str])] = &[
        ("/t", &["owner"]),
        ("/t/owner", &["repo"]),
        ("/t/owner/repo", &["main"]),
        ("/t/owner/repo/main", &["vendor"]),
        ("/t/owner/repo/main/vendor", &["sub"]),
    ];
    let found = walk(
        "/t",
        tree,
        &["/t/owner/repo/main", "/t/owner/repo/main/vendor/sub"],
    );
    let projects = scan("/t", true, &located(found), false);
    assert_eq!(projects.len(), 1);
    assert_eq!(projects[0].worktrees.len(), 1);
    assert_eq!(projects[0].worktrees[0], "/t/owner/repo/main");
    assert_eq!(projects[0].entry_path(), "/t/owner/repo/main");
}

#[test]
fn scan_skips_dot_directories_at_top_level() {
    let tree: &[(&str, &[&str])] = &[
        ("/t", &[".cache", "real"]),
        ("/t/.cache", &["something"]),
        ("/t/.cache/something", &["foo"]),
        ("/t/real", &["repo"]),
        ("/t/real/repo", &["main"]),
    ];
    let found = walk(
        "/t",
        tree,
        &["/t/.cache/something/foo", "/t/real/repo/main"],
    );
    let projects = scan("/t", true, &located(found), false);
    // Only `real/repo/main` should be picked up.
    assert_eq!(projects.len(), 1);
    assert!(projects[0].label.contains("real"));
}

#[test]
fn the_walk_is_no_deeper_than_five_and_follows_no_links() {
    let tree: &[(&str, &[&str])] = &[
        ("/", &["a"]),
        ("/a", &["b"]),
        ("/a/b", &["c"]),
        ("/a/b/c", &["d"]),
        ("/a/b/c/d", &["e"]),
        ("/a/b/c/d/e", &["f"]),
    ];
    assert_eq!(walk("/", tree, &["/a/b/c/d/e"]), vec!["/a/b/c/d/e"]);
    assert!(walk("/", tree, &["/a/b/c/d/e/f"]).is_empty());

    let mut w = Walk::new("/r");
    w.visit(&Listing {
        has_git: false,
        has_jj: false,
        entries: vec![
            DirEntry {
                name: "link".to_string(),
                is_symlink: true,
                is_dir: true,
            },
            DirEntry {
                name: "file".to_string(),
                is_symlink: false,
                is_dir: false,
            },
            dir("one"),
            dir("two"),
        ],
    }, false);
    assert_eq!(w.next(), Some("/r/one"));
    w.visit(&Listing {
        has_git: false,
        has_jj: true,
        entries: vec![dir("in")],
    }, false);
    assert_eq!(w.next(), Some("/r/two"));
    assert_eq!(w.found, vec!["/r/one"]);
}

#[test]
fn worktrees_of_one_repo_are_one_project() {
    let at = |path: &str, id: &str| Located {
        path: path.to_string(),
        identity: Some(id.to_string()),
    };
    let found = vec![
        at("/t/o/z/main", "/src/z"),
        at("/t/o/a/two", "/src/a"),
        at("/t/o/a/one", "/src/a"),
        Located {
            path: "/t/solo".to_string(),
            identity: None,
        },
    ];
    let projects = scan("/t", true, &found, false);
    let labels: Vec<&str> = projects.iter().map(|p| p.label.as_str()).collect();
    assert_eq!(labels, vec!["o/a", "o/z", "solo"]);
    assert_eq!(projects[0].worktrees, vec!["/t/o/a/one", "/t/o/a/two"]);
}

#[test]
fn equal_labels_are_ordered_by_repository() {
    let at = |path: &str, id: &str| Located {
        path: path.to_string(),
        identity: Some(id.to_string()),
    };
    let projects = scan("/t", true, &vec![at("/t/o/r/b", "/z"), at("/t/o/r/a", "/y")], false);
    assert_eq!(projects[0].worktrees, vec!["/t/o/r/a"]);
    assert_eq!(projects[1].worktrees, vec!["/t/o/r/b"]);
}

#[test]
fn derive_label_default_layout() {
    let label = derive_label("/tmp/x", &vec!["/tmp/x/yuki/renri/main".to_string()], false);
    assert_eq!(label, "yuki/renri");
}

#[test]
fn derive_label_shallow() {
    let label = derive_label("/tmp/x", &vec!["/tmp/x/solo".to_string()], false);
    assert_eq!(label, "solo");
}

#[test]
fn derive_label_at_and_outside_the_root() {
    assert_eq!(derive_label("/tmp/x", &vec!["/tmp/x".to_string()], false), "x");
    assert_eq!(derive_label("/", &vec!["/".to_string()], false), "(unknown)");
    assert_eq!(derive_label("/tmp/x", &vec!["a/b/c".to_string()], false), "a/b");
}

#[test]
fn resolve_jj_repo_dir_form() {
    assert_eq!(
        resolve_jj_repo("/tmp/ws", &Marker::Dir, false).as_deref(),
        Some("/tmp/ws/.jj/repo")
    );
}

#[test]
fn resolve_jj_repo_file_form_relative() {
    let m = Marker::File("../../main/.jj/repo".to_string());
    assert_eq!(
        resolve_jj_repo("/tmp/wt", &m, false).as_deref(),
        Some("/tmp/wt/.jj/../../main/.jj/repo")
    );
    let abs = Marker::File(" /main/.jj/repo\n".to_string());
    assert_eq!(resolve_jj_repo("/tmp/wt", &abs, false).as_deref(), Some("/main/.jj/repo"));
    assert!(resolve_jj_repo("/tmp/wt", &Marker::File(" \n".to_string()), false).is_none());
    assert!(resolve_jj_repo("/tmp/wt", &Marker::Absent, false).is_none());
}

#[test]
fn resolve_git_common_dir_dir_form() {
    assert_eq!(
        resolve_git_common_dir("/tmp/main", &Marker::Dir, false).as_deref(),
        Some("/tmp/main/.git")
    );
}

#[test]
fn resolve_git_common_dir_secondary_worktree() {
    let m = Marker::File("gitdir: /tmp/main/.git/worktrees/wt-foo\n".to_string());
    assert_eq!(
        resolve_git_common_dir("/tmp/wt-foo", &m, false).as_deref(),
        Some("/tmp/main/.git")
    );
    let rel = Marker::File("gitdir: ../main/.git/worktrees/w\nmore\n".to_string());
    assert_eq!(
        resolve_git_common_dir("/tmp/w", &rel, false).as_deref(),
        Some("/tmp/w/../main/.git")
    );
    assert!(resolve_git_common_dir("/tmp/w", &Marker::File("".to_string()), false).is_none());
    assert!(resolve_git_common_dir("/tmp/w", &Marker::File("gitdir:  \n".to_string()), false).is_none());
}

#[test]
fn identity_prefers_jj() {
    let git = Marker::File("gitdir: /g/.git/worktrees/w".to_string());
    assert_eq!(
        repo_identity("/w", true, &Marker::File("/j/.jj/repo".to_string()), &git, false).as_deref(),
        Some("/j")
    );
    assert_eq!(
        repo_identity("/w", true, &Marker::Absent, &git, false).as_deref(),
        Some("/g")
    );
    assert_eq!(
        repo_identity("/w", false, &Marker::Dir, &git, false).as_deref(),
        Some("/g")
    );
    assert!(repo_identity("/w", false, &Marker::Dir, &Marker::Absent, false).is_none());
    assert_eq!(canonical("/a", Some("/b")), "/b");
}

#[test]
fn either_marker_makes_a_worktree() {
    let l = |has_git: bool, has_jj: bool| Listing {
        has_git,
        has_jj,
        entries: Vec::new(),
    };
    assert!(is_worktree(&l(true, false)) && is_worktree(&l(false, true)));
    assert!(!is_worktree(&l(false, false)));
}
