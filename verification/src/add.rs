//! Making a worktree, step by step: [`Adding::request`] says what is to be done
//! next outside, and [`Adding::reply`] takes what came of it.

use crate::hooks::copy;
use crate::paths;
use crate::process;
use crate::strings;
use crate::text;
use crate::vcs::{AddBranch, AddBranchView};
use vstd::prelude::*;
use vstd::string::*;

verus! {

/// How far it has come.
#[derive(Debug, Clone, Copy, PartialEq, Eq, Structural)]
pub enum Stage {
    /// The branch is to be asked for.
    Name,
    /// The repository is to be opened, and the path rendered.
    Open,
    /// Whether something is at the path.
    Target,
    /// Whether the directory that the path stands in is there.
    Parent,
    /// That directory is to be made.
    MakeParent,
    /// The base is to be picked from a list.
    PickBase,
    /// Whether the branch is there.
    Branch,
    /// Whether the base belongs to a remote.
    Remote,
    /// That remote is to be fetched.
    Fetch,
    /// The worktree is to be made.
    Create,
    /// The hooks are to be run.
    Hooks,
    /// All is done.
    Done,
}

/// Making a worktree.
#[derive(Debug, PartialEq, Eq)]
pub struct Adding {
    pub stage: Stage,
    /// The branch.
    pub name: String,
    /// What `--from` said, trimmed; empty where it had no value.
    pub from: Option<String>,
    pub non_interactive: bool,
    /// Paths are those of Windows.
    pub windows: bool,
    /// Where the worktree goes.
    pub path: String,
    /// What a new branch starts from, if not from what is checked out.
    pub base: Option<String>,
    /// The branch is there already.
    pub existing: bool,
    /// The remote to fetch.
    pub remote: String,
}

/// What an [`Adding`] stands for.
#[verifier::ext_equal]
pub struct AddingView {
    pub stage: Stage,
    pub name: Seq<char>,
    pub from: Option<Seq<char>>,
    pub non_interactive: bool,
    pub windows: bool,
    pub path: Seq<char>,
    pub base: Option<Seq<char>>,
    pub existing: bool,
    pub remote: Seq<char>,
}

impl DeepView for Adding {
    type V = AddingView;

    open spec fn deep_view(&self) -> AddingView {
        AddingView {
            stage: self.stage,
            name: self.name@,
            from: self.from.deep_view(),
            non_interactive: self.non_interactive,
            windows: self.windows,
            path: self.path@,
            base: self.base.deep_view(),
            existing: self.existing,
            remote: self.remote@,
        }
    }
}

/// What is to be done next.
#[derive(Debug, PartialEq, Eq)]
pub enum AddRequest {
    /// Ask the user for the branch.
    AskName,
    /// Open the repository and render the path for this branch.
    Open(String),
    /// See whether something is at this path.
    Look(String),
    /// Make this directory and those it stands in.
    MakeDirs(String),
    /// List what a branch could start from.
    ListRefs,
    /// Find out whether there is such a branch.
    FindBranch(String),
    /// Find the remote that this revision names.
    FindRemote(String),
    /// Fetch from this remote.
    FetchRemote(String),
    /// Make the worktree at `path`. Where the branch is `existing` it is attached
    /// to; else it is made, at `base` or at what is checked out.
    Create { path: String, name: String, existing: bool, base: Option<String> },
    /// Run the hooks for the worktree at this path.
    RunHooks(String),
    /// Nothing more.
    Nothing,
}

/// What an [`AddRequest`] stands for.
pub enum AddRequestView {
    AskName,
    Open(Seq<char>),
    Look(Seq<char>),
    MakeDirs(Seq<char>),
    ListRefs,
    FindBranch(Seq<char>),
    FindRemote(Seq<char>),
    FetchRemote(Seq<char>),
    Create { path: Seq<char>, name: Seq<char>, existing: bool, base: Option<Seq<char>> },
    RunHooks(Seq<char>),
    Nothing,
}

/// How a new worktree is tied to its branch.
pub open spec fn tie(name: Seq<char>, existing: bool, base: Option<Seq<char>>) -> AddBranchView {
    if existing {
        AddBranchView::ExistingBranch(name)
    } else {
        AddBranchView::NewBranch { name, base }
    }
}

impl DeepView for AddRequest {
    type V = AddRequestView;

    open spec fn deep_view(&self) -> AddRequestView {
        match self {
            AddRequest::AskName => AddRequestView::AskName,
            AddRequest::Open(n) => AddRequestView::Open(n@),
            AddRequest::Look(p) => AddRequestView::Look(p@),
            AddRequest::MakeDirs(p) => AddRequestView::MakeDirs(p@),
            AddRequest::ListRefs => AddRequestView::ListRefs,
            AddRequest::FindBranch(n) => AddRequestView::FindBranch(n@),
            AddRequest::FindRemote(r) => AddRequestView::FindRemote(r@),
            AddRequest::FetchRemote(r) => AddRequestView::FetchRemote(r@),
            AddRequest::Create { path, name, existing, base } => AddRequestView::Create {
                path: path@,
                name: name@,
                existing: *existing,
                base: base.deep_view(),
            },
            AddRequest::RunHooks(p) => AddRequestView::RunHooks(p@),
            AddRequest::Nothing => AddRequestView::Nothing,
        }
    }
}

/// How a new worktree is tied to its branch.
pub fn tie_of<'a>(name: &'a str, existing: bool, base: Option<&'a str>) -> (r: AddBranch<'a>)
    ensures
        r.deep_view() == tie(name@, existing, base.deep_view()),
{
    if existing {
        AddBranch::ExistingBranch(name)
    } else {
        AddBranch::NewBranch { name, base }
    }
}

/// What came of a request.
#[derive(Debug, PartialEq, Eq)]
pub enum AddReply {
    /// What the user answered.
    Answer(String),
    /// The root of the repository and the rendered path.
    Opened { root: String, rendered: String },
    /// Whether something is there.
    Found(bool),
    /// What there is to pick from.
    Refs(Vec<String>),
    /// The remote that the revision names, if any.
    Remote(Option<String>),
    /// It was done.
    Good,
    /// It failed, with this message.
    Failed(String),
}

/// What an [`AddReply`] stands for.
pub enum AddReplyView {
    Answer(Seq<char>),
    Opened { root: Seq<char>, rendered: Seq<char> },
    Found(bool),
    Refs(Seq<Seq<char>>),
    Remote(Option<Seq<char>>),
    Good,
    Failed(Seq<char>),
}

impl DeepView for AddReply {
    type V = AddReplyView;

    open spec fn deep_view(&self) -> AddReplyView {
        match self {
            AddReply::Answer(a) => AddReplyView::Answer(a@),
            AddReply::Opened { root, rendered } => AddReplyView::Opened {
                root: root@,
                rendered: rendered@,
            },
            AddReply::Found(b) => AddReplyView::Found(*b),
            AddReply::Refs(v) => AddReplyView::Refs(v.deep_view()),
            AddReply::Remote(r) => AddReplyView::Remote(r.deep_view()),
            AddReply::Good => AddReplyView::Good,
            AddReply::Failed(e) => AddReplyView::Failed(e@),
        }
    }
}

/// The message for a name that is blank.
pub open spec fn blank_name() -> Seq<char> {
    "branch / bookmark name must not be empty"@
}

/// How it begins: with the branch that was named, or with a question, where
/// asking is allowed.
pub open spec fn begun(
    name: Option<Seq<char>>,
    from: Option<Seq<char>>,
    non_interactive: bool,
    windows: bool,
) -> Result<AddingView, Seq<char>> {
    let start = AddingView {
        stage: Stage::Name,
        name: seq![],
        from: match from {
            Some(f) => Some(text::trim(f)),
            None => None,
        },
        non_interactive,
        windows,
        path: seq![],
        base: None,
        existing: false,
        remote: seq![],
    };
    match name {
        Some(n) => named(start, n),
        None => if non_interactive {
            Err("--non-interactive set and no branch name was given"@)
        } else {
            Ok(start)
        },
    }
}

/// The branch is named, unless the name is blank.
pub open spec fn named(s: AddingView, name: Seq<char>) -> Result<AddingView, Seq<char>> {
    if text::trim(name).len() == 0 {
        Err(blank_name())
    } else {
        Ok(AddingView { stage: Stage::Open, name: text::trim(name), ..s })
    }
}

/// The base is what `--from` said; without a value it is to be picked, where
/// asking is allowed.
pub open spec fn based(s: AddingView) -> Result<AddingView, Seq<char>> {
    match s.from {
        None => Ok(AddingView { stage: Stage::Branch, ..s }),
        Some(f) => if f.len() > 0 {
            Ok(AddingView { stage: Stage::Branch, base: Some(f), ..s })
        } else if s.non_interactive {
            Err("--non-interactive set and `--from` had no value"@)
        } else {
            Ok(AddingView { stage: Stage::PickBase, ..s })
        },
    }
}

/// What is asked for at each stage.
pub open spec fn wanted(s: AddingView) -> AddRequestView {
    match s.stage {
        Stage::Name => AddRequestView::AskName,
        Stage::Open => AddRequestView::Open(s.name),
        Stage::Target => AddRequestView::Look(s.path),
        Stage::Parent => match copy::holder(s.path, s.windows) {
            Some(p) => AddRequestView::Look(p),
            None => AddRequestView::Nothing,
        },
        Stage::MakeParent => match copy::holder(s.path, s.windows) {
            Some(p) => AddRequestView::MakeDirs(p),
            None => AddRequestView::Nothing,
        },
        Stage::PickBase => AddRequestView::ListRefs,
        Stage::Branch => AddRequestView::FindBranch(s.name),
        Stage::Remote => match s.base {
            Some(b) => AddRequestView::FindRemote(b),
            None => AddRequestView::Nothing,
        },
        Stage::Fetch => AddRequestView::FetchRemote(s.remote),
        Stage::Create => AddRequestView::Create {
            path: s.path,
            name: s.name,
            existing: s.existing,
            base: s.base,
        },
        Stage::Hooks => AddRequestView::RunHooks(s.path),
        Stage::Done => AddRequestView::Nothing,
    }
}

/// What follows on a reply. A failure ends it, except that of a fetch: then what
/// is known of the remote has to do. A reply to something else changes nothing.
pub open spec fn followed(s: AddingView, reply: AddReplyView) -> Result<AddingView, Seq<char>> {
    match (s.stage, reply) {
        (Stage::Fetch, AddReplyView::Failed(_)) => Ok(AddingView { stage: Stage::Create, ..s }),
        (_, AddReplyView::Failed(e)) => Err(e),
        (Stage::Name, AddReplyView::Answer(a)) => named(s, a),
        (Stage::Open, AddReplyView::Opened { root, rendered }) => Ok(
            AddingView { stage: Stage::Target, path: paths::join(root, rendered, s.windows), ..s },
        ),
        (Stage::Target, AddReplyView::Found(there)) => if there {
            Err(
                "target path already exists: "@ + s.path
                    + "\nremove it manually or pick a different branch name"@,
            )
        } else if copy::holder(s.path, s.windows) is Some {
            Ok(AddingView { stage: Stage::Parent, ..s })
        } else {
            based(s)
        },
        (Stage::Parent, AddReplyView::Found(there)) => if there {
            based(s)
        } else {
            Ok(AddingView { stage: Stage::MakeParent, ..s })
        },
        (Stage::MakeParent, AddReplyView::Good) => based(s),
        (Stage::PickBase, AddReplyView::Refs(refs)) => if refs.len() == 0 {
            Err(
                "no branches / bookmarks / tags found to pick from; pass an explicit `--from <REF>`"@,
            )
        } else {
            Ok(s)
        },
        (Stage::PickBase, AddReplyView::Answer(b)) => Ok(
            AddingView { stage: Stage::Branch, base: Some(b), ..s },
        ),
        (Stage::Branch, AddReplyView::Found(there)) => Ok(
            AddingView {
                stage: if !there && s.base is Some {
                    Stage::Remote
                } else {
                    Stage::Create
                },
                existing: there,
                ..s
            },
        ),
        (Stage::Remote, AddReplyView::Remote(Some(r))) => Ok(
            AddingView { stage: Stage::Fetch, remote: r, ..s },
        ),
        (Stage::Remote, AddReplyView::Remote(None)) => Ok(
            AddingView { stage: Stage::Create, ..s },
        ),
        (Stage::Fetch, AddReplyView::Good) => Ok(AddingView { stage: Stage::Create, ..s }),
        (Stage::Create, AddReplyView::Good) => Ok(AddingView { stage: Stage::Hooks, ..s }),
        (Stage::Hooks, AddReplyView::Good) => Ok(AddingView { stage: Stage::Done, ..s }),
        _ => Ok(s),
    }
}

/// `--from` is ignored: the branch is there already.
pub open spec fn ignores_from(s: AddingView) -> bool {
    s.existing && s.base is Some
}

impl Adding {
    /// Begins, with the branch and the base as they were given.
    pub fn begin(
        name: Option<&str>,
        from: Option<&str>,
        non_interactive: bool,
        windows: bool,
    ) -> (r: Result<Adding, String>)
        ensures
            process::result_view(r) == begun(
                name.deep_view(),
                from.deep_view(),
                non_interactive,
                windows,
            ),
    {
        let from = match from {
            Some(f) => Some(strings::trim(f).to_string()),
            None => None,
        };
        let start = Adding {
            stage: Stage::Name,
            name: String::new(),
            from,
            non_interactive,
            windows,
            path: String::new(),
            base: None,
            existing: false,
            remote: String::new(),
        };
        proof {
            assert(start.name@ =~= seq![]);
            assert(start.path@ =~= seq![]);
            assert(start.remote@ =~= seq![]);
        }
        match name {
            Some(n) => start.name_it(n),
            None => {
                if non_interactive {
                    Err("--non-interactive set and no branch name was given".to_string())
                } else {
                    Ok(start)
                }
            },
        }
    }

    /// Names the branch.
    fn name_it(self, name: &str) -> (r: Result<Adding, String>)
        ensures
            process::result_view(r) == named(self.deep_view(), name@),
    {
        let n = strings::trim(name);
        if n.unicode_len() == 0 {
            return Err("branch / bookmark name must not be empty".to_string());
        }
        let mut s = self;
        s.name = n.to_string();
        s.stage = Stage::Open;
        Ok(s)
    }

    /// Settles the base, or that it is to be picked.
    fn base_it(self) -> (r: Result<Adding, String>)
        ensures
            process::result_view(r) == based(self.deep_view()),
    {
        let mut s = self;
        match &s.from {
            None => {
                s.stage = Stage::Branch;
                Ok(s)
            },
            Some(f) => {
                if f.as_str().unicode_len() > 0 {
                    s.base = Some(f.clone());
                    s.stage = Stage::Branch;
                    Ok(s)
                } else if s.non_interactive {
                    Err("--non-interactive set and `--from` had no value".to_string())
                } else {
                    s.stage = Stage::PickBase;
                    Ok(s)
                }
            },
        }
    }

    /// The same, at another stage.
    fn at(self, stage: Stage) -> (r: Adding)
        ensures
            r.deep_view() == (AddingView { stage, ..self.deep_view() }),
    {
        let mut s = self;
        s.stage = stage;
        s
    }

    /// What is to be done next.
    pub fn request(&self) -> (r: AddRequest)
        ensures
            r.deep_view() == wanted(self.deep_view()),
    {
        match self.stage {
            Stage::Name => AddRequest::AskName,
            Stage::Open => AddRequest::Open(self.name.clone()),
            Stage::Target => AddRequest::Look(self.path.clone()),
            Stage::Parent => match copy::holder_of(self.path.as_str(), self.windows) {
                Some(p) => AddRequest::Look(p),
                None => AddRequest::Nothing,
            },
            Stage::MakeParent => match copy::holder_of(self.path.as_str(), self.windows) {
                Some(p) => AddRequest::MakeDirs(p),
                None => AddRequest::Nothing,
            },
            Stage::PickBase => AddRequest::ListRefs,
            Stage::Branch => AddRequest::FindBranch(self.name.clone()),
            Stage::Remote => match &self.base {
                Some(b) => AddRequest::FindRemote(b.clone()),
                None => AddRequest::Nothing,
            },
            Stage::Fetch => AddRequest::FetchRemote(self.remote.clone()),
            Stage::Create => AddRequest::Create {
                path: self.path.clone(),
                name: self.name.clone(),
                existing: self.existing,
                base: self.base.clone(),
            },
            Stage::Hooks => AddRequest::RunHooks(self.path.clone()),
            Stage::Done => AddRequest::Nothing,
        }
    }

    /// Takes what came of the request.
    pub fn reply(self, reply: AddReply) -> (r: Result<Adding, String>)
        ensures
            process::result_view(r) == followed(self.deep_view(), reply.deep_view()),
    {
        let mut s = self;
        match (s.stage, reply) {
            (Stage::Fetch, AddReply::Failed(_)) => Ok(s.at(Stage::Create)),
            (_, AddReply::Failed(e)) => Err(e),
            (Stage::Name, AddReply::Answer(a)) => s.name_it(a.as_str()),
            (Stage::Open, AddReply::Opened { root, rendered }) => {
                s.path = paths::joined(root.as_str(), rendered.as_str(), s.windows);
                Ok(s.at(Stage::Target))
            },
            (Stage::Target, AddReply::Found(there)) => {
                if there {
                    let mut e = "target path already exists: ".to_string();
                    e.append(s.path.as_str());
                    e.append("\nremove it manually or pick a different branch name");
                    Err(e)
                } else if copy::holder_of(s.path.as_str(), s.windows).is_some() {
                    Ok(s.at(Stage::Parent))
                } else {
                    s.base_it()
                }
            },
            (Stage::Parent, AddReply::Found(there)) => {
                if there {
                    s.base_it()
                } else {
                    Ok(s.at(Stage::MakeParent))
                }
            },
            (Stage::MakeParent, AddReply::Good) => s.base_it(),
            (Stage::PickBase, AddReply::Refs(refs)) => {
                proof {
                    assert(refs.deep_view().len() == refs@.len());
                }
                if refs.len() == 0 {
                    Err(
                        "no branches / bookmarks / tags found to pick from; pass an explicit `--from <REF>`".to_string(),
                    )
                } else {
                    Ok(s)
                }
            },
            (Stage::PickBase, AddReply::Answer(b)) => {
                s.base = Some(b);
                Ok(s.at(Stage::Branch))
            },
            (Stage::Branch, AddReply::Found(there)) => {
                s.existing = there;
                if !there && s.base.is_some() {
                    Ok(s.at(Stage::Remote))
                } else {
                    Ok(s.at(Stage::Create))
                }
            },
            (Stage::Remote, AddReply::Remote(Some(r))) => {
                s.remote = r;
                Ok(s.at(Stage::Fetch))
            },
            (Stage::Remote, AddReply::Remote(None)) => Ok(s.at(Stage::Create)),
            (Stage::Fetch, AddReply::Good) => Ok(s.at(Stage::Create)),
            (Stage::Create, AddReply::Good) => Ok(s.at(Stage::Hooks)),
            (Stage::Hooks, AddReply::Good) => Ok(s.at(Stage::Done)),
            _ => Ok(s),
        }
    }

    /// Whether `--from` is ignored, because the branch is there already.
    pub fn from_is_ignored(&self) -> (r: bool)
        ensures
            r == ignores_from(self.deep_view()),
    {
        self.existing && self.base.is_some()
    }
}

/// All that follows on a list of replies, unless it fails on the way.
pub open spec fn run(s: AddingView, replies: Seq<AddReplyView>) -> Result<AddingView, Seq<char>>
    decreases replies.len(),
{
    if replies.len() == 0 {
        Ok(s)
    } else {
        match run(s, replies.drop_last()) {
            Ok(t) => followed(t, replies.last()),
            Err(e) => Err(e),
        }
    }
}

/// The worktree's path is settled and known to be free.
pub open spec fn past_target(stage: Stage) -> bool {
    !(stage is Name || stage is Open || stage is Target)
}

/// Nothing is ever made over something that is there: once past the look at its
/// path, that look found nothing, and the path has not changed since.
pub proof fn existing_paths_are_left_alone(s: AddingView, replies: Seq<AddReplyView>)
    requires
        !past_target(s.stage),
    ensures
        match run(s, replies) {
            Ok(t) => past_target(t.stage) ==> exists|i: int|
                #![trigger replies[i]]
                0 <= i < replies.len() && replies[i] == AddReplyView::Found(false) && match run(
                    s,
                    replies.take(i),
                ) {
                    Ok(u) => u.stage == Stage::Target && u.path == t.path,
                    Err(_) => false,
                },
            Err(_) => true,
        },
    decreases replies.len(),
{
    if replies.len() > 0 {
        let head = replies.drop_last();
        existing_paths_are_left_alone(s, head);
        if let Ok(t) = run(s, replies) {
            let u = run(s, head)->Ok_0;
            if past_target(t.stage) {
                if past_target(u.stage) {
                    assert(t.path == u.path);
                    let i = choose|i: int|
                        #![trigger head[i]]
                        0 <= i < head.len() && head[i] == AddReplyView::Found(false) && match run(
                            s,
                            head.take(i),
                        ) {
                            Ok(v) => v.stage == Stage::Target && v.path == u.path,
                            Err(_) => false,
                        };
                    assert(replies[i] == head[i]);
                    assert(replies.take(i) =~= head.take(i));
                } else {
                    let n = replies.len() - 1;
                    assert(replies.take(n) =~= head);
                    assert(replies[n] == AddReplyView::Found(false));
                }
            }
        }
    }
}

/// A new branch that starts from a remote's is made only after that remote was
/// asked for: the stage before is the search for the remote, which found none,
/// or the fetch.
pub proof fn remote_base_is_fetched_first(s: AddingView, reply: AddReplyView)
    requires
        s.stage != Stage::Create,
    ensures
        match followed(s, reply) {
            Ok(t) => t.stage == Stage::Create && !t.existing && t.base is Some ==> s.stage
                == Stage::Fetch || s.stage == Stage::Remote && reply == AddReplyView::Remote(None),
            Err(_) => true,
        },
{
}

} // verus!
