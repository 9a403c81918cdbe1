use renri::add::{tie_of, AddReply, AddRequest, Adding, Stage};
use renri::vcs::AddBranch;

fn opened(rendered: &str) -> AddReply {
    AddReply::Opened {
        root: "/repo".to_string(),
        rendered: rendered.to_string(),
    }
}

#[test]
fn a_name_is_trimmed_and_must_not_be_blank() {
    let a = Adding::begin(Some("  feat/x "), None, true, false).unwrap();
    assert_eq!(a.request(), AddRequest::Open("feat/x".to_string()));
    assert_eq!(
        Adding::begin(Some(" "), None, true, false).unwrap_err(),
        "branch / bookmark name must not be empty"
    );
    assert_eq!(
        Adding::begin(None, None, true, false).unwrap_err(),
        "--non-interactive set and no branch name was given"
    );
    let asked = Adding::begin(None, None, false, false).unwrap();
    assert_eq!(asked.request(), AddRequest::AskName);
    let named = asked.reply(AddReply::Answer(" b\n".to_string())).unwrap();
    assert_eq!(named.request(), AddRequest::Open("b".to_string()));
}

#[test]
fn a_new_branch_from_a_remote_is_fetched_first() {
    let mut a = Adding::begin(Some("n"), Some(" origin/main "), true, false).unwrap();
    a = a.reply(opened("/wt/n")).unwrap();
    assert_eq!(a.request(), AddRequest::Look("/wt/n".to_string()));
    a = a.reply(AddReply::Found(false)).unwrap();
    assert_eq!(a.request(), AddRequest::Look("/wt".to_string()));
    a = a.reply(AddReply::Found(false)).unwrap();
    assert_eq!(a.request(), AddRequest::MakeDirs("/wt".to_string()));
    a = a.reply(AddReply::Good).unwrap();
    assert_eq!(a.request(), AddRequest::FindBranch("n".to_string()));
    a = a.reply(AddReply::Found(false)).unwrap();
    assert_eq!(a.request(), AddRequest::FindRemote("origin/main".to_string()));
    a = a.reply(AddReply::Remote(Some("origin".to_string()))).unwrap();
    assert_eq!(a.request(), AddRequest::FetchRemote("origin".to_string()));
    // A fetch that fails is no reason to give up.
    a = a.reply(AddReply::Failed("offline".to_string())).unwrap();
    assert_eq!(
        a.request(),
        AddRequest::Create {
            path: "/wt/n".to_string(),
            name: "n".to_string(),
            existing: false,
            base: Some("origin/main".to_string()),
        }
    );
    a = a.reply(AddReply::Good).unwrap();
    assert_eq!(a.request(), AddRequest::RunHooks("/wt/n".to_string()));
    a = a.reply(AddReply::Good).unwrap();
    assert_eq!(a.stage, Stage::Done);
    assert_eq!(a.request(), AddRequest::Nothing);
}

#[test]
fn an_existing_branch_is_attached_to() {
    let mut a = Adding::begin(Some("n"), Some("x"), true, false).unwrap();
    a = a.reply(opened("wt/n")).unwrap();
    assert_eq!(a.path, "/repo/wt/n");
    a = a.reply(AddReply::Found(false)).unwrap();
    a = a.reply(AddReply::Found(true)).unwrap();
    a = a.reply(AddReply::Found(true)).unwrap();
    assert!(a.from_is_ignored());
    match a.request() {
        AddRequest::Create { existing, .. } => assert!(existing),
        other => panic!("{other:?}"),
    }
    assert!(matches!(
        tie_of("n", true, Some("x")),
        AddBranch::ExistingBranch("n")
    ));
    assert!(matches!(
        tie_of("n", false, Some("x")),
        AddBranch::NewBranch {
            name: "n",
            base: Some("x")
        }
    ));
}

#[test]
fn nothing_is_made_over_what_is_there() {
    let a = Adding::begin(Some("n"), None, true, false).unwrap();
    let a = a.reply(opened("/wt/n")).unwrap();
    assert_eq!(
        a.reply(AddReply::Found(true)).unwrap_err(),
        "target path already exists: /wt/n\nremove it manually or pick a different branch name"
    );
}

#[test]
fn a_base_without_a_value_is_picked() {
    let start = |non_interactive: bool| {
        let a = Adding::begin(Some("n"), Some("  "), non_interactive, false).unwrap();
        let a = a.reply(opened("/n")).unwrap();
        a.reply(AddReply::Found(false)).unwrap()
    };
    assert_eq!(
        start(true).reply(AddReply::Found(true)).unwrap_err(),
        "--non-interactive set and `--from` had no value"
    );
    let a = start(false).reply(AddReply::Found(true)).unwrap();
    assert_eq!(a.request(), AddRequest::ListRefs);
    let a = a.reply(AddReply::Refs(vec!["main".to_string()])).unwrap();
    let a = a.reply(AddReply::Answer("main".to_string())).unwrap();
    assert_eq!(a.base.as_deref(), Some("main"));
    let b = start(false).reply(AddReply::Found(true)).unwrap();
    assert_eq!(
        b.reply(AddReply::Refs(Vec::new())).unwrap_err(),
        "no branches / bookmarks / tags found to pick from; pass an explicit `--from <REF>`"
    );
}

#[test]
fn a_failure_ends_it() {
    let a = Adding::begin(Some("n"), None, true, false).unwrap();
    assert_eq!(
        a.reply(AddReply::Failed("no repo".to_string())).unwrap_err(),
        "no repo"
    );
    // A reply to something else changes nothing.
    let b = Adding::begin(Some("n"), None, true, false).unwrap();
    assert_eq!(b.reply(AddReply::Found(true)).unwrap().stage, Stage::Open);
}
