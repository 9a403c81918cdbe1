use renri::vcs::{kind_short, open_backend, select_kind, select_kinds, Backend, Kind, Repo, VcsChoice};

#[test]
fn select_auto_passes_through_pure_kinds() {
    assert_eq!(select_kind(Kind::Git, VcsChoice::Auto).unwrap(), Kind::Git);
    assert_eq!(select_kind(Kind::Jj, VcsChoice::Auto).unwrap(), Kind::Jj);
}

#[test]
fn select_auto_prefers_jj_for_colocated() {
    assert_eq!(
        select_kind(Kind::Colocated, VcsChoice::Auto).unwrap(),
        Kind::Jj
    );
}

#[test]
fn select_explicit_overrides_colocated() {
    assert_eq!(
        select_kind(Kind::Colocated, VcsChoice::Git).unwrap(),
        Kind::Git
    );
    assert_eq!(
        select_kind(Kind::Colocated, VcsChoice::Jj).unwrap(),
        Kind::Jj
    );
}

#[test]
fn select_rejects_incompatible_overrides() {
    assert!(select_kind(Kind::Git, VcsChoice::Jj).is_err());
    assert!(select_kind(Kind::Jj, VcsChoice::Git).is_err());
}

#[test]
fn select_kinds_passthrough_for_pure_kinds() {
    assert_eq!(
        select_kinds(Kind::Git, VcsChoice::Auto).unwrap(),
        vec![Kind::Git]
    );
    assert_eq!(
        select_kinds(Kind::Jj, VcsChoice::Auto).unwrap(),
        vec![Kind::Jj]
    );
}

#[test]
fn select_kinds_returns_both_for_colocated_auto() {
    // jj first so that what needs a single backend lands on jj.
    assert_eq!(
        select_kinds(Kind::Colocated, VcsChoice::Auto).unwrap(),
        vec![Kind::Jj, Kind::Git]
    );
}

#[test]
fn select_kinds_narrows_under_explicit_override() {
    assert_eq!(
        select_kinds(Kind::Colocated, VcsChoice::Git).unwrap(),
        vec![Kind::Git]
    );
    assert_eq!(
        select_kinds(Kind::Colocated, VcsChoice::Jj).unwrap(),
        vec![Kind::Jj]
    );
}

#[test]
fn select_kinds_rejects_incompatible_overrides() {
    assert!(select_kinds(Kind::Git, VcsChoice::Jj).is_err());
    assert!(select_kinds(Kind::Jj, VcsChoice::Git).is_err());
}

#[test]
fn select_kind_compat_shim_picks_jj_for_colocated_auto() {
    assert_eq!(
        select_kind(Kind::Colocated, VcsChoice::Auto).unwrap(),
        Kind::Jj
    );
}

#[test]
fn refusals_say_why() {
    assert_eq!(
        select_kinds(Kind::Git, VcsChoice::Jj).unwrap_err(),
        "this repo is git-managed but --vcs jj was forced; \
         initialize jj on top with `jj git init --colocate` first"
    );
    assert_eq!(
        select_kinds(Kind::Jj, VcsChoice::Git).unwrap_err(),
        "this repo is jj-managed (no .git/) but --vcs git was forced"
    );
}

#[test]
fn kinds_have_short_names() {
    assert_eq!(kind_short(Kind::Git), "git");
    assert_eq!(kind_short(Kind::Jj), "jj");
    assert_eq!(kind_short(Kind::Colocated), "?");
}

#[test]
fn backends_are_opened_by_kind() {
    let repo = Repo {
        root: "/r".to_string(),
        kind: Kind::Colocated,
    };
    assert_eq!(open_backend(&repo, Kind::Git, false).name(), "git");
    assert_eq!(open_backend(&repo, Kind::Jj, false).name(), "jj");
}
