use renri::vcs::detect::{ancestors, detect, Kind, Markers};

const NONE: Markers = Markers {
    jj: false,
    git: false,
};
const GIT: Markers = Markers {
    jj: false,
    git: true,
};
const JJ: Markers = Markers {
    jj: true,
    git: false,
};
const BOTH: Markers = Markers {
    jj: true,
    git: true,
};

#[test]
fn detects_git_repo() {
    let r = detect("/tmp/r", false, &[GIT]).unwrap();
    assert_eq!(r.kind, Kind::Git);
}

#[test]
fn detects_jj_repo() {
    let r = detect("/tmp/r", false, &[JJ]).unwrap();
    assert_eq!(r.kind, Kind::Jj);
}

#[test]
fn detects_colocated_repo() {
    let r = detect("/tmp/r", false, &[BOTH]).unwrap();
    assert_eq!(r.kind, Kind::Colocated);
}

#[test]
fn walks_up_from_subdirectory() {
    assert_eq!(
        ancestors("/tmp/r/a/b/c", false),
        vec!["/tmp/r/a/b/c", "/tmp/r/a/b", "/tmp/r/a", "/tmp/r", "/tmp", "/"]
    );
    let r = detect("/tmp/r/a/b/c", false, &[NONE, NONE, NONE, GIT, NONE, NONE]).unwrap();
    assert_eq!(r.root, "/tmp/r");
    assert_eq!(r.kind, Kind::Git);
}

#[test]
fn handles_git_as_a_file_inside_a_worktree() {
    // A marker is a marker, be it a file or a directory.
    let r = detect("/wt/feature", false, &[GIT, NONE, NONE]).unwrap();
    assert_eq!(r.kind, Kind::Git);
    assert_eq!(r.root, "/wt/feature");
}

#[test]
fn returns_none_when_no_repo_above() {
    assert!(detect("/tmp/r", false, &[NONE, NONE, NONE]).is_none());
    assert!(detect("/tmp/r", false, &[]).is_none());
}

#[test]
fn the_nearest_repo_wins() {
    let r = detect("/a/b/c", false, &[NONE, JJ, GIT, GIT]).unwrap();
    assert_eq!(r.root, "/a/b");
    assert_eq!(r.kind, Kind::Jj);
}
