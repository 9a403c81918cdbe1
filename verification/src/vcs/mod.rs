//! Version control: which kind of repository this is, and what to ask of `git`
//! or `jj` to work on its worktrees.

use crate::process::{Reply, ReplyView, Step, StepView};
use vstd::prelude::*;

pub mod detect;
pub mod git;
pub mod jj;

pub use detect::{detect, Kind, Repo};

verus! {

/// The caller's choice of backend.
#[derive(Debug, Clone, Copy, PartialEq, Eq, Structural)]
pub enum VcsChoice {
    Auto,
    Git,
    Jj,
}

/// One row of the list: a worktree (git) or a workspace (jj).
#[derive(Debug, PartialEq, Eq)]
pub struct Worktree {
    /// Short name: the branch or bookmark where there is one, else the name of
    /// the directory.
    pub name: String,
    /// Path of the worktree.
    pub path: String,
    /// Branch (git) or bookmark (jj); `None` if detached or anonymous.
    pub branch: Option<String>,
    /// Short commit (git) or change (jj) id of what is checked out.
    pub head: Option<String>,
    /// Full commit id of what is checked out, where the listing gives it.
    pub commit: Option<String>,
    /// First line of its description.
    pub desc: Option<String>,
    /// The working copy has changes (git: uncommitted files; jj: content in
    /// `@`).
    pub dirty: bool,
    /// Unresolved conflicts (jj only).
    pub conflict: bool,
    /// The worktree that the repository was made in.
    pub is_main: bool,
    pub is_bare: bool,
    /// Git: prunable. jj: the workspace's directory is gone.
    pub is_stale: bool,
    pub is_locked: bool,
    /// Which backend listed this row; never `Colocated`.
    pub vcs: Kind,
}

/// What a [`Worktree`] stands for.
#[verifier::ext_equal]
pub struct WorktreeView {
    pub name: Seq<char>,
    pub path: Seq<char>,
    pub branch: Option<Seq<char>>,
    pub head: Option<Seq<char>>,
    pub commit: Option<Seq<char>>,
    pub desc: Option<Seq<char>>,
    pub dirty: bool,
    pub conflict: bool,
    pub is_main: bool,
    pub is_bare: bool,
    pub is_stale: bool,
    pub is_locked: bool,
    pub vcs: Kind,
}

impl DeepView for Worktree {
    type V = WorktreeView;

    open spec fn deep_view(&self) -> WorktreeView {
        WorktreeView {
            name: self.name@,
            path: self.path@,
            branch: self.branch.deep_view(),
            head: self.head.deep_view(),
            commit: self.commit.deep_view(),
            desc: self.desc.deep_view(),
            dirty: self.dirty,
            conflict: self.conflict,
            is_main: self.is_main,
            is_bare: self.is_bare,
            is_stale: self.is_stale,
            is_locked: self.is_locked,
            vcs: self.vcs,
        }
    }
}

impl Clone for Worktree {
    fn clone(&self) -> (r: Worktree)
        ensures
            r.deep_view() == self.deep_view(),
    {
        Worktree {
            name: self.name.clone(),
            path: self.path.clone(),
            branch: self.branch.clone(),
            head: self.head.clone(),
            commit: self.commit.clone(),
            desc: self.desc.clone(),
            dirty: self.dirty,
            conflict: self.conflict,
            is_main: self.is_main,
            is_bare: self.is_bare,
            is_stale: self.is_stale,
            is_locked: self.is_locked,
            vcs: self.vcs,
        }
    }
}

/// How a new worktree is tied to a branch.
#[derive(Debug, Clone, Copy)]
pub enum AddBranch<'a> {
    /// Create the branch `name`, at `base` or, without one, at what is checked
    /// out where the command runs.
    NewBranch { name: &'a str, base: Option<&'a str> },
    /// Attach to a branch that is there.
    ExistingBranch(&'a str),
}

/// What an [`AddBranch`] stands for.
pub enum AddBranchView {
    NewBranch { name: Seq<char>, base: Option<Seq<char>> },
    ExistingBranch(Seq<char>),
}

impl<'a> DeepView for AddBranch<'a> {
    type V = AddBranchView;

    open spec fn deep_view(&self) -> AddBranchView {
        match self {
            AddBranch::NewBranch { name, base } => AddBranchView::NewBranch {
                name: name@,
                base: base.deep_view(),
            },
            AddBranch::ExistingBranch(name) => AddBranchView::ExistingBranch(name@),
        }
    }
}

/// The short name of a kind of repository.
pub open spec fn short(kind: Kind) -> Seq<char> {
    match kind {
        Kind::Git => "git"@,
        Kind::Jj => "jj"@,
        Kind::Colocated => "?"@,
    }
}

/// Listing the worktrees, given the replies so far.
pub open spec fn listing(
    kind: Kind,
    root: Seq<char>,
    windows: bool,
    replies: Seq<ReplyView>,
) -> StepView<Seq<WorktreeView>> {
    match kind {
        Kind::Git => git::listing(root, windows, replies),
        _ => jj::listing(root, replies),
    }
}

/// Adding a worktree at `path`.
pub open spec fn adding(
    kind: Kind,
    root: Seq<char>,
    path: Seq<char>,
    branch: AddBranchView,
    windows: bool,
    replies: Seq<ReplyView>,
) -> StepView<()> {
    match kind {
        Kind::Git => git::adding(root, path, branch, replies),
        _ => jj::adding(root, path, branch, windows, replies),
    }
}

/// Removing the worktree at `path`; jj removes by force in any case.
pub open spec fn removing(
    kind: Kind,
    root: Seq<char>,
    path: Seq<char>,
    force: bool,
    windows: bool,
    replies: Seq<ReplyView>,
) -> StepView<()> {
    match kind {
        Kind::Git => git::removing(root, path, force, replies),
        _ => jj::removing(root, path, windows, replies),
    }
}

/// Finding the URL of the remote `origin`.
pub open spec fn origin(
    kind: Kind,
    root: Seq<char>,
    replies: Seq<ReplyView>,
) -> StepView<Option<Seq<char>>> {
    match kind {
        Kind::Git => git::origin(root, replies),
        _ => jj::origin(root, replies),
    }
}

/// Finding the branch or bookmark that is checked out.
pub open spec fn current(
    kind: Kind,
    root: Seq<char>,
    replies: Seq<ReplyView>,
) -> StepView<Option<Seq<char>>> {
    match kind {
        Kind::Git => git::current(root, replies),
        _ => jj::current(root, replies),
    }
}

/// Finding what a new branch could start from.
pub open spec fn refs(
    kind: Kind,
    root: Seq<char>,
    replies: Seq<ReplyView>,
) -> StepView<Seq<Seq<char>>> {
    match kind {
        Kind::Git => git::refs(root, replies),
        _ => jj::refs(root, replies),
    }
}

/// Finding out whether there is a branch or bookmark `name`.
pub open spec fn existing(
    kind: Kind,
    root: Seq<char>,
    name: Seq<char>,
    replies: Seq<ReplyView>,
) -> StepView<bool> {
    match kind {
        Kind::Git => git::exists_branch(root, name, replies),
        _ => jj::exists_branch(root, name, replies),
    }
}

/// Dropping what is left of worktrees that are gone.
pub open spec fn pruning(
    kind: Kind,
    root: Seq<char>,
    replies: Seq<ReplyView>,
) -> StepView<Seq<char>> {
    match kind {
        Kind::Git => git::pruning(root, replies),
        _ => jj::pruning(root, replies),
    }
}

/// Fetching from `origin`.
pub open spec fn fetching(
    kind: Kind,
    root: Seq<char>,
    replies: Seq<ReplyView>,
) -> StepView<Seq<char>> {
    match kind {
        Kind::Git => git::fetching(root, "origin"@, replies),
        _ => jj::fetching(root, replies),
    }
}

/// Fetching from one remote.
pub open spec fn fetching_remote(
    kind: Kind,
    root: Seq<char>,
    remote: Seq<char>,
    replies: Seq<ReplyView>,
) -> StepView<Seq<char>> {
    match kind {
        Kind::Git => git::fetching(root, remote, replies),
        _ => jj::fetching_remote(root, remote, replies),
    }
}

/// Finding the remote whose branch a revision names.
pub open spec fn remote_of(
    kind: Kind,
    root: Seq<char>,
    rev: Seq<char>,
    replies: Seq<ReplyView>,
) -> StepView<Option<Seq<char>>> {
    match kind {
        Kind::Git => git::remote_of(root, rev, replies),
        _ => jj::remote_of(root, rev, replies),
    }
}

/// What a version control program is to do, step by step. Each method takes
/// the replies to the actions that it asked for so far.
pub trait Backend {
    /// Which program this is.
    spec fn kind(&self) -> Kind;

    /// The root of the repository.
    spec fn at(&self) -> Seq<char>;

    /// Paths are those of Windows.
    spec fn windows(&self) -> bool;

    /// The name of the program.
    fn name(&self) -> (r: &str)
        ensures
            r@ == short(self.kind()),
    ;

    /// The worktrees.
    fn list(&self, replies: &[Reply]) -> (r: Step<Vec<Worktree>>)
        ensures
            r.deep_view() == listing(self.kind(), self.at(), self.windows(), replies.deep_view()),
    ;

    /// Makes a worktree at `path` for a branch.
    fn add(&self, path: &str, branch: AddBranch, replies: &[Reply]) -> (r: Step<()>)
        ensures
            r.deep_view() == adding(
                self.kind(),
                self.at(),
                path@,
                branch.deep_view(),
                self.windows(),
                replies.deep_view(),
            ),
    ;

    /// Removes the worktree at `path`. With `force`, also one that has changes.
    fn remove(&self, path: &str, force: bool, replies: &[Reply]) -> (r: Step<()>)
        ensures
            r.deep_view() == removing(
                self.kind(),
                self.at(),
                path@,
                force,
                self.windows(),
                replies.deep_view(),
            ),
    ;

    /// The URL of the remote `origin`, if there is one.
    fn origin_url(&self, replies: &[Reply]) -> (r: Step<Option<String>>)
        ensures
            r.deep_view() == origin(self.kind(), self.at(), replies.deep_view()),
    ;

    /// The branch (git) or the bookmarks (jj) that are checked out.
    fn current_branch(&self, replies: &[Reply]) -> (r: Step<Option<String>>)
        ensures
            r.deep_view() == current(self.kind(), self.at(), replies.deep_view()),
    ;

    /// What a new branch could start from.
    fn list_refs(&self, replies: &[Reply]) -> (r: Step<Vec<String>>)
        ensures
            r.deep_view() == refs(self.kind(), self.at(), replies.deep_view()),
    ;

    /// Whether there is a branch or bookmark `name`.
    fn branch_exists(&self, name: &str, replies: &[Reply]) -> (r: Step<bool>)
        ensures
            r.deep_view() == existing(self.kind(), self.at(), name@, replies.deep_view()),
    ;

    /// Drops what is left of worktrees whose directory is gone, and tells what
    /// that was.
    fn prune(&self, replies: &[Reply]) -> (r: Step<String>)
        ensures
            r.deep_view() == pruning(self.kind(), self.at(), replies.deep_view()),
    ;

    /// Updates what is known of the remote `origin`.
    fn fetch(&self, replies: &[Reply]) -> (r: Step<String>)
        ensures
            r.deep_view() == fetching(self.kind(), self.at(), replies.deep_view()),
    ;

    /// Updates what is known of one remote.
    fn fetch_remote(&self, remote: &str, replies: &[Reply]) -> (r: Step<String>)
        ensures
            r.deep_view() == fetching_remote(self.kind(), self.at(), remote@, replies.deep_view()),
    ;

    /// The remote whose branch `rev` names, so that it can be fetched before
    /// `rev` is resolved.
    fn referenced_remote(&self, rev: &str, replies: &[Reply]) -> (r: Step<Option<String>>)
        ensures
            r.deep_view() == remote_of(self.kind(), self.at(), rev@, replies.deep_view()),
    ;
}

/// The backend of one kind of repository.
pub enum OpenBackend {
    Git(git::GitBackend),
    Jj(jj::JjBackend),
}

impl Backend for OpenBackend {
    open spec fn kind(&self) -> Kind {
        match self {
            OpenBackend::Git(_) => Kind::Git,
            OpenBackend::Jj(_) => Kind::Jj,
        }
    }

    open spec fn at(&self) -> Seq<char> {
        match self {
            OpenBackend::Git(b) => b.root@,
            OpenBackend::Jj(b) => b.root@,
        }
    }

    open spec fn windows(&self) -> bool {
        match self {
            OpenBackend::Git(b) => b.windows,
            OpenBackend::Jj(b) => b.windows,
        }
    }

    fn name(&self) -> (r: &str) {
        match self {
            OpenBackend::Git(b) => b.name(),
            OpenBackend::Jj(b) => b.name(),
        }
    }

    fn list(&self, replies: &[Reply]) -> (r: Step<Vec<Worktree>>) {
        match self {
            OpenBackend::Git(b) => b.list(replies),
            OpenBackend::Jj(b) => b.list(replies),
        }
    }

    fn add(&self, path: &str, branch: AddBranch, replies: &[Reply]) -> (r: Step<()>) {
        match self {
            OpenBackend::Git(b) => b.add(path, branch, replies),
            OpenBackend::Jj(b) => b.add(path, branch, replies),
        }
    }

    fn remove(&self, path: &str, force: bool, replies: &[Reply]) -> (r: Step<()>) {
        match self {
            OpenBackend::Git(b) => b.remove(path, force, replies),
            OpenBackend::Jj(b) => b.remove(path, force, replies),
        }
    }

    fn origin_url(&self, replies: &[Reply]) -> (r: Step<Option<String>>) {
        match self {
            OpenBackend::Git(b) => b.origin_url(replies),
            OpenBackend::Jj(b) => b.origin_url(replies),
        }
    }

    fn current_branch(&self, replies: &[Reply]) -> (r: Step<Option<String>>) {
        match self {
            OpenBackend::Git(b) => b.current_branch(replies),
            OpenBackend::Jj(b) => b.current_branch(replies),
        }
    }

    fn list_refs(&self, replies: &[Reply]) -> (r: Step<Vec<String>>) {
        match self {
            OpenBackend::Git(b) => b.list_refs(replies),
            OpenBackend::Jj(b) => b.list_refs(replies),
        }
    }

    fn branch_exists(&self, name: &str, replies: &[Reply]) -> (r: Step<bool>) {
        match self {
            OpenBackend::Git(b) => b.branch_exists(name, replies),
            OpenBackend::Jj(b) => b.branch_exists(name, replies),
        }
    }

    fn prune(&self, replies: &[Reply]) -> (r: Step<String>) {
        match self {
            OpenBackend::Git(b) => b.prune(replies),
            OpenBackend::Jj(b) => b.prune(replies),
        }
    }

    fn fetch(&self, replies: &[Reply]) -> (r: Step<String>) {
        match self {
            OpenBackend::Git(b) => b.fetch(replies),
            OpenBackend::Jj(b) => b.fetch(replies),
        }
    }

    fn fetch_remote(&self, remote: &str, replies: &[Reply]) -> (r: Step<String>) {
        match self {
            OpenBackend::Git(b) => b.fetch_remote(remote, replies),
            OpenBackend::Jj(b) => b.fetch_remote(remote, replies),
        }
    }

    fn referenced_remote(&self, rev: &str, replies: &[Reply]) -> (r: Step<Option<String>>) {
        match self {
            OpenBackend::Git(b) => b.referenced_remote(rev, replies),
            OpenBackend::Jj(b) => b.referenced_remote(rev, replies),
        }
    }
}

/// The backends that a repository and the caller's choice call for: one, or jj
/// and then git where the repository is both and the choice is left open. None
/// where the choice contradicts the repository.
pub open spec fn kinds(repo_kind: Kind, choice: VcsChoice) -> Option<Seq<Kind>> {
    match (repo_kind, choice) {
        (Kind::Git, VcsChoice::Auto) => Some(seq![Kind::Git]),
        (Kind::Jj, VcsChoice::Auto) => Some(seq![Kind::Jj]),
        (Kind::Colocated, VcsChoice::Auto) => Some(seq![Kind::Jj, Kind::Git]),
        (Kind::Git, VcsChoice::Jj) => None,
        (Kind::Jj, VcsChoice::Git) => None,
        (_, VcsChoice::Git) => Some(seq![Kind::Git]),
        (_, VcsChoice::Jj) => Some(seq![Kind::Jj]),
    }
}

/// Why a choice contradicts a repository.
pub open spec fn refusal(repo_kind: Kind) -> Seq<char> {
    if repo_kind == Kind::Git {
        "this repo is git-managed but --vcs jj was forced; initialize jj on top with `jj git init --colocate` first"@
    } else {
        "this repo is jj-managed (no .git/) but --vcs git was forced"@
    }
}

/// Picks the backends to work with.
pub fn select_kinds(repo_kind: Kind, choice: VcsChoice) -> (r: Result<Vec<Kind>, String>)
    ensures
        match r {
            Ok(v) => kinds(repo_kind, choice) == Some(v@) && v@.len() > 0,
            Err(e) => kinds(repo_kind, choice) is None && e@ == refusal(repo_kind),
        },
{
    let r = match (repo_kind, choice) {
        (Kind::Git, VcsChoice::Auto) => Ok(vec![Kind::Git]),
        (Kind::Jj, VcsChoice::Auto) => Ok(vec![Kind::Jj]),
        (Kind::Colocated, VcsChoice::Auto) => Ok(vec![Kind::Jj, Kind::Git]),
        (Kind::Git, VcsChoice::Git) => Ok(vec![Kind::Git]),
        (Kind::Colocated, VcsChoice::Git) => Ok(vec![Kind::Git]),
        (Kind::Jj, VcsChoice::Jj) => Ok(vec![Kind::Jj]),
        (Kind::Colocated, VcsChoice::Jj) => Ok(vec![Kind::Jj]),
        (Kind::Git, VcsChoice::Jj) => Err(
            "this repo is git-managed but --vcs jj was forced; initialize jj on top with `jj git init --colocate` first".to_string(),
        ),
        (Kind::Jj, VcsChoice::Git) => Err(
            "this repo is jj-managed (no .git/) but --vcs git was forced".to_string(),
        ),
    };
    proof {
        if r is Ok {
            assert(r->Ok_0@ =~= kinds(repo_kind, choice)->0);
        }
    }
    r
}

/// Picks the one backend for what works on one worktree: the first of
/// [`select_kinds`].
pub fn select_kind(repo_kind: Kind, choice: VcsChoice) -> (r: Result<Kind, String>)
    ensures
        match r {
            Ok(k) => kinds(repo_kind, choice) is Some && k == kinds(repo_kind, choice)->0[0],
            Err(e) => kinds(repo_kind, choice) is None && e@ == refusal(repo_kind),
        },
{
    match select_kinds(repo_kind, choice) {
        Ok(v) => Ok(v[0]),
        Err(e) => Err(e),
    }
}

/// Whatever is picked is git or jj, never both at once, and no backend is
/// picked twice; jj comes first where both are.
pub proof fn picked_kinds_are_single(repo_kind: Kind, choice: VcsChoice)
    ensures
        kinds(repo_kind, choice) is Some ==> {
            let ks = kinds(repo_kind, choice)->0;
            &&& ks.no_duplicates()
            &&& !ks.contains(Kind::Colocated)
            &&& ks.len() == if repo_kind == Kind::Colocated && choice == VcsChoice::Auto {
                2nat
            } else {
                1nat
            }
            &&& ks.len() == 2 ==> ks[0] == Kind::Jj
        },
{
}

/// The short name of a kind.
pub fn kind_short(kind: Kind) -> (r: &'static str)
    ensures
        r@ == short(kind),
{
    match kind {
        Kind::Git => "git",
        Kind::Jj => "jj",
        Kind::Colocated => "?",
    }
}

/// Opens the backend of a kind that [`select_kinds`] picked.
pub fn open_backend(repo: &Repo, kind: Kind, windows: bool) -> (r: OpenBackend)
    requires
        kind != Kind::Colocated,
    ensures
        r.kind() == kind,
        r.at() == repo.root@,
        r.windows() == windows,
{
    match kind {
        Kind::Git => OpenBackend::Git(git::GitBackend::new(repo.root.as_str(), windows)),
        _ => OpenBackend::Jj(jj::JjBackend::new(repo.root.as_str(), windows)),
    }
}

/// Whatever the program replies, every row of a listing is tagged with the
/// backend that listed it, so that what is done with the row goes to the right
/// one.
pub proof fn rows_are_tagged_with_their_backend(
    kind: Kind,
    root: Seq<char>,
    windows: bool,
    replies: Seq<ReplyView>,
)
    requires
        kind != Kind::Colocated,
    ensures
        match listing(kind, root, windows, replies) {
            StepView::Done(Ok(rows)) => forall|i: int|
                0 <= i < rows.len() ==> (#[trigger] rows[i]).vcs == kind,
            _ => true,
        },
{
    git::listed_rows_are_those_of_the_listing(root, windows, replies);
    jj::listed_rows_are_well_tagged(root, replies);
}

} // verus!
