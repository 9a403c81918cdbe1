//! Paths: what is joined, and what stands above.

use crate::paths::prefix::{Class, Rules};
use crate::paths::{self, components, file_name, is_absolute, join, parent};
use crate::process::{ReplyView, StepView};
use crate::vcs::git;
use vstd::prelude::*;

verus! {

/// On Unix a path is absolute where it begins with a slash, and stands for itself;
/// any other is put behind what it is taken from, with one slash between them.
pub proof fn unix_paths_are_joined(from: Seq<char>, p: Seq<char>)
    ensures
        is_absolute(p, false) <==> p.len() > 0 && p[0] == '/',
        p.len() > 0 && p[0] == '/' ==> join(from, p, false) == p,
        !(p.len() > 0 && p[0] == '/') ==> join(from, p, false) == if from.len() == 0 || from.last()
            == '/' {
            from + p
        } else {
            from + seq!['/'] + p
        },
{
}

/// On Windows a path with a drive or another prefix stands for itself. One that
/// begins with a separator keeps the drive it is taken from. Any other is put behind
/// that, with one backslash between them unless there is a separator or only a drive.
pub proof fn windows_paths_are_joined(d: char, rest: Seq<char>, p: Seq<char>)
    requires
        'A' <= d <= 'Z' || 'a' <= d <= 'z',
    ensures
        ({
            let from = seq![d, ':'] + rest;
            let drive = p.len() >= 2 && ('A' <= p[0] <= 'Z' || 'a' <= p[0] <= 'z') && p[1] == ':';
            let sep = |c: char| c == '/' || c == '\\';
            let rooted = p.len() > 0 && sep(p[0]) && !(p.len() > 1 && sep(p[1]));
            &&& drive ==> join(from, p, true) == p
            &&& rooted ==> join(from, p, true) == seq![d, ':'] + p
            &&& !drive && !(p.len() > 0 && sep(p[0])) ==> join(from, p, true) == if rest.len() == 0
                || sep(rest.last()) {
                from + p
            } else {
                from + seq!['\\'] + p
            }
        }),
{
    let from = seq![d, ':'] + rest;
    assert(from[0] == d && from[1] == ':');
    assert(from.take(2) =~= seq![d, ':']);
    if rest.len() > 0 {
        assert(from.last() == rest.last());
    }
}

/// A name that can stand between slashes.
pub open spec fn is_name(n: Seq<char>) -> bool {
    &&& n.len() > 0
    &&& forall|i: int| 0 <= i < n.len() ==> #[trigger] n[i] != '/'
    &&& n != seq!['.']
    &&& n != seq!['.', '.']
}

/// The revision begins with the remote and a slash.
pub open spec fn is_branch_of(rev: Seq<char>, remote: Seq<char>) -> bool {
    rev.len() > remote.len() && rev.take(remote.len() as int) == remote && rev[remote.len() as int]
        == '/'
}

proof fn naming_is_exact(rev: Seq<char>, remote: Seq<char>)
    ensures
        git::names_remote(rev, remote) <==> is_branch_of(rev, remote),
{
    reveal_strlit("/");
    let p = remote + "/"@;
    let n = remote.len() as int;
    if p.is_prefix_of(rev) {
        assert(rev.subrange(0, n + 1) == p);
        assert(rev.take(n) =~= p.take(n));
        assert(p.take(n) =~= remote);
        assert(rev.subrange(0, n + 1)[n] == rev[n]);
    }
    if is_branch_of(rev, remote) {
        assert(rev.subrange(0, n + 1) =~= p) by {
            assert forall|i: int| 0 <= i < n implies rev[i] == remote[i] by {
                assert(rev.take(n)[i] == rev[i]);
            }
        }
    }
}

proof fn first_is_named(rev: Seq<char>, remotes: Seq<Seq<char>>)
    ensures
        match git::first_named(rev, remotes) {
            Some(r) => exists|i: int|
                0 <= i < remotes.len() && #[trigger] remotes[i] == r && is_branch_of(rev, r)
                    && forall|j: int| 0 <= j < i ==> !is_branch_of(rev, #[trigger] remotes[j]),
            None => forall|j: int|
                0 <= j < remotes.len() ==> !is_branch_of(rev, #[trigger] remotes[j]),
        },
    decreases remotes.len(),
{
    if remotes.len() > 0 {
        naming_is_exact(rev, remotes[0]);
        let t = remotes.drop_first();
        first_is_named(rev, t);
        if is_branch_of(rev, remotes[0]) {
            assert(remotes[0] == git::first_named(rev, remotes)->0);
        } else {
            assert forall|j: int| 0 < j < remotes.len() implies remotes[j] == t[j - 1] by {}
            if let Some(r) = git::first_named(rev, t) {
                let i = choose|i: int|
                    0 <= i < t.len() && #[trigger] t[i] == r && is_branch_of(rev, r) && forall|
                        j: int,
                    |
                        0 <= j < i ==> !is_branch_of(rev, #[trigger] t[j]);
                assert(remotes[i + 1] == r);
                assert forall|j: int| 0 <= j < i + 1 implies !is_branch_of(
                    rev,
                    #[trigger] remotes[j],
                ) by {
                    if j > 0 {
                        assert(remotes[j] == t[j - 1]);
                    }
                }
            } else {
                assert forall|j: int| 0 <= j < remotes.len() implies !is_branch_of(
                    rev,
                    #[trigger] remotes[j],
                ) by {
                    if j > 0 {
                        assert(remotes[j] == t[j - 1]);
                    }
                }
            }
        }
    }
}

/// The remote that a revision names for git: the first of those that `git` lists, one
/// on each line, that it begins with, before a slash. There is none where no remote
/// is named, or `git` failed.
pub proof fn git_revisions_name_a_remote(
    root: Seq<char>,
    rev: Seq<char>,
    reply: ReplyView,
    rest: Seq<ReplyView>,
)
    ensures
        match (git::remote_of(root, rev, seq![reply] + rest), reply) {
            (StepView::Done(Ok(Some(r))), ReplyView::Ran(Some(o))) => {
                let remotes = crate::process::filled_lines(o.stdout);
                o.success && exists|i: int|
                    0 <= i < remotes.len() && #[trigger] remotes[i] == r && is_branch_of(rev, r)
                        && forall|j: int| 0 <= j < i ==> !is_branch_of(rev, #[trigger] remotes[j])
            },
            (StepView::Done(Ok(None)), ReplyView::Ran(Some(o))) => {
                let remotes = crate::process::filled_lines(o.stdout);
                o.success ==> forall|j: int|
                    0 <= j < remotes.len() ==> !is_branch_of(rev, #[trigger] remotes[j])
            },
            (StepView::Done(Ok(None)), _) => true,
            _ => false,
        },
{
    assert((seq![reply] + rest)[0] == reply);
    if let ReplyView::Ran(Some(o)) = reply {
        first_is_named(rev, crate::process::filled_lines(o.stdout));
    }
}

/// The path that an absolute Unix path without needless slashes and dots stands in:
/// what precedes its last component, or the root.
pub proof fn unix_paths_stand_in_their_parent(up: Seq<char>, n: Seq<char>)
    requires
        up.len() > 0,
        up.last() != '/',
        !(up.last() == '.' && (up.len() == 1 || up[up.len() - 2] == '/')),
        is_name(n),
    ensures
        parent(up + seq!['/'] + n, false) == Some(up),
        file_name(up + seq!['/'] + n, false) == Some(n),
        parent(seq!['/'] + n, false) == Some(seq!['/']),
        file_name(seq!['/'] + n, false) == Some(n),
        parent(seq!['/'], false) is None,
        parent(seq![], false) is None,
        file_name(seq!['/'], false) is None,
{
    let root = seq!['/'];
    assert(paths::trim_tail(root, 1, Rules::Unix) == root);
    assert(crate::paths::joining::is_plain_name(n, false));
    let base = paths::base(up, false);
    assert(paths::trim_tail(up, base, Rules::Unix) == up);
    crate::paths::joining::joining_is_undone(up, n, false);
    crate::paths::joining::joining_is_undone(root, n, false);
    assert(join(up, n, false) == up + seq!['/'] + n);
    assert(join(root, n, false) == root + n);
    let none: Seq<char> = seq![];
    assert(root.skip(1) =~= none);
    reveal_with_fuel(paths::named, 2);
    assert(paths::pieces(none, Rules::Unix) =~= seq![none]);
    assert(seq![none].drop_last() =~= seq![]);
    assert(components(root, false).last().class == Class::Root);
}

} // verus!
