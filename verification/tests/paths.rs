use renri::discovery::{derive_label, normalize_to_repo_root, resolve_git_common_dir, Marker};
use renri::order::{path_is_before, sort_paths};
use renri::paths::prefix::Class;
use renri::paths::{absolute, base_name, joined, parent_of, same, split, split_texts};
use renri::vcs::detect::{ancestors, detect, Kind, Markers};
use renri::vcs::git::derive_name;

fn classes(p: &str) -> Vec<Class> {
    split(p, true).iter().map(|c| c.class).collect()
}

#[test]
fn windows_paths_are_absolute_with_a_prefix_and_a_root() {
    for (p, expected) in [
        (r"c:\windows", true),
        (r"c:/windows", true),
        (r"c:temp", false),
        (r"\temp", false),
        (r"/temp", false),
        (r"temp", false),
        (r"\\server\share", true),
        (r"\\server\share\x", true),
        (r"\\server", false),
        (r"\\?\pictures", true),
        (r"\\?\C:\x", true),
        (r"\\.\COM42", true),
        ("", false),
    ] {
        assert_eq!(absolute(p, true), expected, "{p}");
    }
    assert!(!absolute(r"c:\windows", false));
    assert!(absolute("/temp", false));
}

#[test]
fn prefixes_are_told_apart() {
    for (p, expected) in [
        (r"\\?\pictures\kittens", vec![Class::Verbatim, Class::Root, Class::Normal]),
        (r"\\?\UNC\server\share\a", vec![Class::VerbatimUnc, Class::Root, Class::Normal]),
        (r"\\?\c:\", vec![Class::VerbatimDisk, Class::Root]),
        (r"\\.\BrainInterface", vec![Class::Device, Class::Root]),
        (r"\\server\share", vec![Class::Unc, Class::Root]),
        (r"//server/share/a", vec![Class::Unc, Class::Root, Class::Normal]),
        (r"C:\Users\Rust", vec![Class::Disk, Class::Root, Class::Normal, Class::Normal]),
        (r"C:a\..\b", vec![Class::Disk, Class::Normal, Class::ParentDir, Class::Normal]),
        (r"\a", vec![Class::Root, Class::Normal]),
        (r".\a\.\b", vec![Class::CurDir, Class::Normal, Class::Normal]),
        (r"\\?\C:\a\.\b", vec![Class::VerbatimDisk, Class::Root, Class::Normal, Class::CurDir, Class::Normal]),
    ] {
        assert_eq!(classes(p), expected, "{p}");
    }
    let c = split(r"\\?\UNC\server\share\a", true);
    assert_eq!((c[0].name.as_str(), c[0].share.as_str()), ("server", "share"));
    let d = split("c:x", true);
    assert_eq!(d[0].name, "C");
    assert_eq!(split_texts(r"c:\x/y", true), vec!["c:", r"\", "x", "y"]);
    assert_eq!(split_texts(r"\\?\C:\x/y\z", true), vec![r"\\?\C:", r"\", "x/y", "z"]);
    assert_eq!(split_texts(r"c:\x", false), vec![r"c:\x"]);
}

#[test]
fn windows_parents_stop_at_the_prefix() {
    for (p, expected) in [
        (r"C:\a\b", Some(r"C:\a")),
        (r"C:\a/b\", Some(r"C:\a")),
        (r"C:\a", Some(r"C:\")),
        (r"C:\", None),
        (r"C:", None),
        (r"C:a", Some(r"C:")),
        (r"\a", Some(r"\")),
        (r"a\b", Some("a")),
        ("a", Some("")),
        (".", Some("")),
        ("", None),
        (r"\\server\share\a", Some(r"\\server\share\")),
        (r"\\server\share", None),
        (r"\\?\C:\a", Some(r"\\?\C:\")),
        (r"\\?\C:\a\b/c", Some(r"\\?\C:\a")),
        (r"\\?\C:\", None),
    ] {
        assert_eq!(parent_of(p, true).as_deref(), expected, "{p}");
    }
    assert_eq!(base_name(r"C:\a\b", true).as_deref(), Some("b"));
    assert_eq!(base_name(r"C:\a/b", true).as_deref(), Some("b"));
    assert_eq!(base_name(r"C:\", true), None);
    assert_eq!(base_name(r"C:\a\..", true), None);
    assert_eq!(base_name(r"C:\a\b", false).as_deref(), Some(r"C:\a\b"));
}

#[test]
fn windows_paths_are_joined_as_std_joins_them() {
    for (from, p, expected) in [
        (r"C:\a", "b", r"C:\a\b"),
        (r"C:\a\", "b", r"C:\a\b"),
        (r"C:/a/", "b", r"C:/a/b"),
        (r"C:\a", r"D:\b", r"D:\b"),
        (r"C:\a", r"D:b", r"D:b"),
        (r"C:\a", r"\windows", r"C:\windows"),
        (r"C:\a", "/windows", r"C:/windows"),
        (r"\\server\share\x", r"\y", r"\\server\share\y"),
        ("C:", "a", "C:a"),
        ("", "a", "a"),
        ("a", "", r"a\"),
        ("a", r"..\b", r"a\..\b"),
        (r"\\?\C:\a", "b", r"\\?\C:\a\b"),
        (r"\\?\C:\a", r".\b/../c", r"\\?\C:\a\c"),
        (r"\\?\C:\a", r"..\..\..", r"\\?\C:\"),
        (r"\\?\C:\a\b", r"\c", r"\\?\C:\c"),
        (r"\\?\C:\a", "", r"\\?\C:\a\"),
        (r"\\?\x", "a", r"\\?\x\a"),
    ] {
        assert_eq!(joined(from, p, true), expected, "{from} + {p}");
    }
}

#[test]
fn windows_paths_are_the_same_by_their_components() {
    assert!(same(r"C:\a\b", r"c:/a//b/.", true));
    assert!(same(r"C:\a\b", r"C:/a\b", true));
    assert!(same(r"\\.\x", r"//./x", true));
    assert!(same(r"\\server\share", r"//server/share/", true));
    assert!(!same(r"C:\a", r"C:a", true));
    assert!(!same(r"C:\a", r"C:\A", true));
    assert!(!same(r"C:\a", r"\\?\C:\a", true));
    assert!(!same(r"C:\a", "C:/a", false));
}

#[test]
fn windows_paths_sort_by_prefix_first() {
    let sorted = [
        r"\\?\C:\a",
        r"\\server\a",
        r"\\server\b\x",
        r"C:",
        r"C:\a",
        r"C:a",
        r"D:\",
        r"\a",
        "a",
    ];
    let mut v: Vec<String> = sorted.iter().map(|s| s.to_string()).collect();
    v.reverse();
    assert_eq!(sort_paths(&v, true), sorted);
    assert!(path_is_before(r"C:\a\b", r"c:\a-b", true));
}

#[test]
fn joining_is_undone_on_windows() {
    for (p, n) in [
        (r"C:\", "x"),
        ("C:", "x"),
        (r"C:\a", ".git"),
        (r"\\s\t\", "x"),
        (r"\\?\C:\a\b", "x"),
        (".", "x"),
    ] {
        let s = joined(p, n, true);
        assert_eq!(parent_of(&s, true).as_deref(), Some(p), "{s}");
        assert_eq!(base_name(&s, true).as_deref(), Some(n), "{s}");
    }
}

#[test]
fn repositories_are_found_on_windows() {
    assert_eq!(ancestors(r"C:\a\b", true), vec![r"C:\a\b", r"C:\a", r"C:\"]);
    assert_eq!(
        ancestors(r"\\?\C:\a\b", true),
        vec![r"\\?\C:\a\b", r"\\?\C:\a", r"\\?\C:\"]
    );
    let none = Markers { jj: false, git: false };
    let git = Markers { jj: false, git: true };
    let repo = detect(r"C:\a\b", true, &[none, git, none]).unwrap();
    assert_eq!((repo.root.as_str(), repo.kind), (r"C:\a", Kind::Git));
    assert_eq!(normalize_to_repo_root(r"C:\r\.git", true), r"C:\r");
    assert_eq!(normalize_to_repo_root(r"C:\r\.jj\repo", true), r"C:\r");
    assert_eq!(normalize_to_repo_root(r"C:/r/.git/worktrees/w", true), "C:/r");
    assert_eq!(
        normalize_to_repo_root(r"C:\worktrees\.git", true),
        r"C:\worktrees"
    );
    let m = Marker::File("gitdir: C:/r/.git/worktrees/w\n".to_string());
    assert_eq!(
        resolve_git_common_dir(r"C:\w", &m, true).as_deref(),
        Some("C:/r/.git")
    );
    assert_eq!(
        derive_label(r"C:\wt", &vec![r"c:\wt\o\r\b".to_string()], true),
        "o/r"
    );
    assert_eq!(
        derive_label(r"D:\wt", &vec![r"c:\o\r".to_string()], true),
        r"c:/\/o"
    );
    assert_eq!(derive_name(r"C:\a\b", true), "b");
}
