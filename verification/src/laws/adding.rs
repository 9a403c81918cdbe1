//! Adding a worktree: from what the user said to what is made.

use crate::add::{
    begun, followed, ignores_from, run, tie, wanted, AddReplyView, AddRequestView, AddingView,
    Stage,
};
use crate::hooks::copy;
use crate::paths;
use crate::text;
use crate::vcs::AddBranchView;
use vstd::prelude::*;

verus! {

/// What is asked for once these replies came, where nothing failed on the way.
pub open spec fn asked(s: AddingView, replies: Seq<AddReplyView>) -> Option<AddRequestView> {
    match run(s, replies) {
        Ok(t) => Some(wanted(t)),
        Err(_) => None,
    }
}

/// It begins with the branch that was named, without the white space around it.
/// A blank name is refused. Without a name the user is asked, where that is
/// allowed.
pub proof fn beginning_takes_the_name(
    name: Option<Seq<char>>,
    from: Option<Seq<char>>,
    non_interactive: bool,
    windows: bool,
)
    ensures
        match begun(name, from, non_interactive, windows) {
            Ok(s) => {
                &&& name is Some ==> text::trim(name->0).len() > 0 && wanted(s)
                    == AddRequestView::Open(text::trim(name->0))
                &&& name is None ==> !non_interactive && wanted(s) == AddRequestView::AskName
                &&& s.non_interactive == non_interactive
                &&& s.windows == windows
                &&& s.from is Some == from is Some
                &&& from is Some ==> s.from->0 == text::trim(from->0)
                &&& s.base is None
                &&& !s.existing
            },
            Err(e) => {
                ||| name is Some && text::trim(name->0).len() == 0 && e
                    == "branch / bookmark name must not be empty"@
                ||| name is None && non_interactive && e
                    == "--non-interactive set and no branch name was given"@
            },
        },
{
}

/// The name that the user gives counts like one given at the beginning.
pub proof fn answered_names_count(
    from: Option<Seq<char>>,
    windows: bool,
    name: Seq<char>,
    s: AddingView,
)
    requires
        begun(None, from, false, windows) == Ok::<AddingView, Seq<char>>(s),
    ensures
        followed(s, AddReplyView::Answer(name)) == begun(Some(name), from, false, windows),
{
}

/// The replies about the directory that a path stands in: it is there, or it is
/// not and is made.
pub open spec fn parent_replies(there: bool) -> Seq<AddReplyView> {
    if there {
        seq![AddReplyView::Found(true)]
    } else {
        seq![AddReplyView::Found(false), AddReplyView::Good]
    }
}

proof fn run_push(s: AddingView, replies: Seq<AddReplyView>, r: AddReplyView)
    ensures
        run(s, replies.push(r)) == match run(s, replies) {
            Ok(t) => followed(t, r),
            Err(e) => Err(e),
        },
{
    assert(replies.push(r).drop_last() =~= replies);
}

/// Up to the look for the branch: the repository is opened for the named branch,
/// the path is taken from its root, nothing may be there, and the directory it
/// stands in is made where it is missing. Then the branch is looked for, with
/// what `--from` said as its base.
pub proof fn branch_is_looked_for(
    name: Seq<char>,
    from: Option<Seq<char>>,
    non_interactive: bool,
    windows: bool,
    root: Seq<char>,
    rendered: Seq<char>,
    there: bool,
)
    requires
        text::trim(name).len() > 0,
        from is Some ==> text::trim(from->0).len() > 0,
    ensures
        begun(Some(name), from, non_interactive, windows) is Ok,
        ({
            let s = begun(Some(name), from, non_interactive, windows)->Ok_0;
            let path = paths::join(root, rendered, windows);
            let opened = seq![AddReplyView::Opened { root, rendered }];
            let free = opened.push(AddReplyView::Found(false));
            let up = paths::parent(path, windows);
            let stands = up is Some && up->0.len() > 0;
            let ready = if stands {
                free + parent_replies(there)
            } else {
                free
            };
            &&& asked(s, seq![]) == Some(AddRequestView::Open(text::trim(name)))
            &&& asked(s, opened) == Some(AddRequestView::Look(path))
            &&& run(s, opened.push(AddReplyView::Found(true))) is Err
            &&& stands ==> asked(s, free) == Some(AddRequestView::Look(up->0))
            &&& stands ==> asked(s, free.push(AddReplyView::Found(false))) == Some(
                AddRequestView::MakeDirs(up->0),
            )
            &&& asked(s, ready) == Some(AddRequestView::FindBranch(text::trim(name)))
            &&& run(s, ready)->Ok_0.base == match from {
                Some(f) => Some(text::trim(f)),
                None => None,
            }
            &&& run(s, ready)->Ok_0.path == path
            &&& run(s, ready)->Ok_0.stage == Stage::Branch
        }),
{
    let s = begun(Some(name), from, non_interactive, windows)->Ok_0;
    let path = paths::join(root, rendered, windows);
    let opened = seq![AddReplyView::Opened { root, rendered }];
    let free = opened.push(AddReplyView::Found(false));
    let none: Seq<AddReplyView> = seq![];
    assert(opened =~= none.push(AddReplyView::Opened { root, rendered }));
    run_push(s, none, AddReplyView::Opened { root, rendered });
    run_push(s, opened, AddReplyView::Found(true));
    run_push(s, opened, AddReplyView::Found(false));
    run_push(s, free, AddReplyView::Found(true));
    run_push(s, free, AddReplyView::Found(false));
    let missing = free.push(AddReplyView::Found(false));
    run_push(s, missing, AddReplyView::Good);
    assert(free + seq![AddReplyView::Found(true)] =~= free.push(AddReplyView::Found(true)));
    assert(free + seq![AddReplyView::Found(false), AddReplyView::Good] =~= missing.push(
        AddReplyView::Good,
    ));
}

/// From the look for the branch on: the worktree is made on the branch exactly
/// where it was found, whatever the base; a new branch from a base is made after
/// the remote that the base names was fetched, well or not. Then the hooks run,
/// and that is all.
pub proof fn worktree_is_made_as_found(
    s: AddingView,
    there: bool,
    remote: Option<Seq<char>>,
    fetch: AddReplyView,
)
    requires
        wanted(s) == AddRequestView::FindBranch(s.name),
        s.stage == Stage::Branch,
        fetch is Good || fetch is Failed,
    ensures
        ({
            let found = seq![AddReplyView::Found(there)];
            let looked = found.push(AddReplyView::Remote(remote));
            let new_from = !there && s.base is Some;
            let ready = if !new_from {
                found
            } else if remote is None {
                looked
            } else {
                looked.push(fetch)
            };
            let done = ready.push(AddReplyView::Good);
            &&& new_from ==> asked(s, found) == Some(AddRequestView::FindRemote(s.base->0))
            &&& new_from && remote is Some ==> asked(s, looked) == Some(
                AddRequestView::FetchRemote(remote->0),
            )
            &&& asked(s, ready) == Some(
                AddRequestView::Create { path: s.path, name: s.name, existing: there, base: s.base },
            )
            &&& asked(s, done) == Some(AddRequestView::RunHooks(s.path))
            &&& asked(s, done.push(AddReplyView::Good)) == Some(AddRequestView::Nothing)
        }),
{
    let none: Seq<AddReplyView> = seq![];
    let found = seq![AddReplyView::Found(there)];
    let looked = found.push(AddReplyView::Remote(remote));
    assert(found =~= none.push(AddReplyView::Found(there)));
    run_push(s, none, AddReplyView::Found(there));
    run_push(s, found, AddReplyView::Remote(remote));
    run_push(s, looked, fetch);
    let new_from = !there && s.base is Some;
    let ready = if !new_from {
        found
    } else if remote is None {
        looked
    } else {
        looked.push(fetch)
    };
    run_push(s, ready, AddReplyView::Good);
    run_push(s, ready.push(AddReplyView::Good), AddReplyView::Good);
}

/// In every run, whatever the replies: once the look for the branch is past, the
/// worktree is on an existing branch exactly where that look found it.
pub proof fn existing_means_found(s: AddingView, replies: Seq<AddReplyView>)
    requires
        s.stage == Stage::Name || s.stage == Stage::Open,
    ensures
        match run(s, replies) {
            Ok(t) => t.stage == Stage::Remote || t.stage == Stage::Fetch || t.stage == Stage::Create
                || t.stage == Stage::Hooks || t.stage == Stage::Done ==> exists|i: int|
                #![trigger replies[i]]
                0 <= i < replies.len() && replies[i] == AddReplyView::Found(t.existing) && asked(
                    s,
                    replies.take(i),
                ) == Some(AddRequestView::FindBranch(t.name)),
            Err(_) => true,
        },
    decreases replies.len(),
{
    if replies.len() > 0 {
        let head = replies.drop_last();
        existing_means_found(s, head);
        if let Ok(t) = run(s, replies) {
            let u = run(s, head)->Ok_0;
            let late = t.stage == Stage::Remote || t.stage == Stage::Fetch || t.stage
                == Stage::Create || t.stage == Stage::Hooks || t.stage == Stage::Done;
            if late {
                if u.stage == Stage::Branch {
                    let n = replies.len() - 1;
                    assert(replies.take(n) =~= head);
                    assert(replies[n] == AddReplyView::Found(t.existing));
                } else {
                    assert(t.existing == u.existing && t.name == u.name);
                    let i = choose|i: int|
                        #![trigger head[i]]
                        0 <= i < head.len() && head[i] == AddReplyView::Found(u.existing) && asked(
                            s,
                            head.take(i),
                        ) == Some(AddRequestView::FindBranch(u.name));
                    assert(replies[i] == head[i]);
                    assert(replies.take(i) =~= head.take(i));
                }
            }
        }
    }
}

/// `--from` without a value has the base picked from what there is, unless asking
/// is not allowed; what is picked is the base. Nothing to pick from is a failure.
pub proof fn base_is_picked_without_a_value(
    s: AddingView,
    refs: Seq<Seq<char>>,
    picked: Seq<char>,
)
    requires
        s.stage == Stage::Target,
        s.from is Some && s.from->0.len() == 0,
        copy::holder(s.path, s.windows) is None,
    ensures
        s.non_interactive <==> followed(s, AddReplyView::Found(false)) is Err,
        !s.non_interactive ==> {
            let t = followed(s, AddReplyView::Found(false))->Ok_0;
            &&& wanted(t) == AddRequestView::ListRefs
            &&& refs.len() == 0 <==> followed(t, AddReplyView::Refs(refs)) is Err
            &&& refs.len() > 0 ==> followed(t, AddReplyView::Refs(refs)) == Ok::<
                AddingView,
                Seq<char>,
            >(t)
            &&& followed(t, AddReplyView::Answer(picked)) is Ok
            &&& wanted(followed(t, AddReplyView::Answer(picked))->Ok_0)
                == AddRequestView::FindBranch(s.name)
            &&& followed(t, AddReplyView::Answer(picked))->Ok_0.base == Some(picked)
        },
{
}

/// A failure of anything but a fetch ends it, with that message.
pub proof fn failures_end_it(s: AddingView, e: Seq<char>)
    ensures
        followed(s, AddReplyView::Failed(e)) == if s.stage == Stage::Fetch {
            Ok::<AddingView, Seq<char>>(AddingView { stage: Stage::Create, ..s })
        } else {
            Err(e)
        },
{
}

/// The branch and the base never change on the way from the look for the branch
/// to the end, and the path never changes once it is known.
pub proof fn plans_stay(s: AddingView, reply: AddReplyView)
    ensures
        match followed(s, reply) {
            Ok(t) => {
                &&& s.stage != Stage::Name ==> t.name == s.name
                &&& s.stage != Stage::Open ==> t.path == s.path
                &&& s.stage != Stage::Target && s.stage != Stage::Parent && s.stage
                    != Stage::MakeParent && s.stage != Stage::PickBase ==> t.base == s.base
                &&& s.stage != Stage::Branch ==> t.existing == s.existing
                &&& s.stage != Stage::Remote ==> t.remote == s.remote
                &&& (t.from, t.non_interactive, t.windows) == (s.from, s.non_interactive, s.windows)
            },
            Err(_) => true,
        },
{
}

/// How the backend is told: an existing branch is attached to and has no base; a
/// new one starts from the base.
pub proof fn branches_are_tied_as_found(
    name: Seq<char>,
    existing: bool,
    base: Option<Seq<char>>,
    s: AddingView,
)
    ensures
        match tie(name, existing, base) {
            AddBranchView::ExistingBranch(n) => existing && n == name,
            AddBranchView::NewBranch { name: n, base: b } => !existing && n == name && b == base,
        },
        ignores_from(s) <==> s.existing && s.base is Some,
{
}

} // verus!
