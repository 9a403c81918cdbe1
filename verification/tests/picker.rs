use renri::picker::{resolve, resolve_by_query, resolve_lowered, Choice, Lowered};
use renri::vcs::{Kind, Worktree};

fn wt(name: &str, branch: Option<&str>) -> Worktree {
    Worktree {
        name: name.into(),
        path: format!("/wt/{name}"),
        branch: branch.map(String::from),
        head: None,
        commit: None,
        desc: None,
        dirty: false,
        conflict: false,
        is_main: false,
        is_bare: false,
        is_stale: false,
        is_locked: false,
        vcs: Kind::Git,
    }
}

#[test]
fn exact_name_wins() {
    let w = vec![wt("a", Some("a")), wt("ab", Some("ab"))];
    let r = resolve_by_query(&w, "a").unwrap();
    assert_eq!(r.name, "a");
}

#[test]
fn substring_match_unique() {
    let w = vec![wt("foo", Some("feature/foo"))];
    let r = resolve_by_query(&w, "feature").unwrap();
    assert_eq!(r.name, "foo");
}

#[test]
fn substring_match_case_insensitive() {
    let w = vec![wt("Foo", Some("Bar"))];
    let r = resolve_by_query(&w, "foo").unwrap();
    assert_eq!(r.name, "Foo");
}

#[test]
fn ambiguous_substring_match_errors() {
    let w = vec![wt("alpha-one", None), wt("alpha-two", None)];
    let err = resolve_by_query(&w, "alpha").unwrap_err();
    assert!(err.message().contains("ambiguous"));
    assert_eq!(
        err.message(),
        "`alpha` is ambiguous (2 matches: alpha-one, alpha-two); be more specific"
    );
}

#[test]
fn exact_name_wins_over_substring_collision() {
    // "alpha" exists exactly *and* would match "alphabet" by substring.
    // The exact match must win without triggering the ambiguity error.
    let w = vec![wt("alpha", None), wt("alphabet", None)];
    let r = resolve_by_query(&w, "alpha").unwrap();
    assert_eq!(r.name, "alpha");
}

#[test]
fn no_match_errors() {
    let w = vec![wt("foo", None)];
    let err = resolve_by_query(&w, "bar").unwrap_err();
    assert!(err.message().contains("no worktree"));
    assert_eq!(err.message(), "no worktree matches `bar`");
}

#[test]
fn non_interactive_without_query_errors() {
    let w = vec![wt("foo", None)];
    let err = resolve(&w, None, true, "pick").err().unwrap();
    assert!(err.message().contains("--non-interactive"));
}

#[test]
fn an_exact_branch_comes_after_an_exact_name() {
    let w = vec![wt("x", Some("topic")), wt("topic", None), wt("y", Some("z"))];
    assert_eq!(resolve_by_query(&w, "topic").unwrap().name, "topic");
    assert_eq!(resolve_by_query(&w, "z").unwrap().name, "y");
}

#[test]
fn nothing_to_pick_from() {
    let err = resolve(&Vec::new(), Some("x"), false, "pick").err().unwrap();
    assert_eq!(err.message(), "no worktrees to pick from");
}

#[test]
fn asking_lists_every_worktree() {
    let mut main = wt("m", None);
    main.is_main = true;
    let w = vec![main, wt("n", None)];
    match resolve(&w, None, false, "remove:") {
        Ok(Choice::Ask { prompt, items }) => {
            assert_eq!(prompt, "remove:");
            assert_eq!(items, vec!["m (main)  /wt/m", "n  /wt/n"]);
        }
        _ => panic!("not asked"),
    }
    match resolve(&w, Some("N"), true, "remove:") {
        Ok(Choice::Row(row)) => assert_eq!(row.name, "n"),
        _ => panic!("not found"),
    }
}

#[test]
fn lowered_names_decide_what_matches() {
    let w = vec![wt("A", None), wt("B", Some("C"))];
    let low = |name: &str, branch: Option<&str>| Lowered {
        name: name.into(),
        branch: branch.map(String::from),
    };
    let lows = vec![low("one", None), low("two", Some("three"))];
    assert_eq!(resolve_lowered(&w, &lows, "q", "hre").unwrap().name, "B");
    assert_eq!(resolve_lowered(&w, &lows, "A", "hre").unwrap().name, "A");
    assert!(resolve_lowered(&w, &lows, "q", "q").is_err());
}
