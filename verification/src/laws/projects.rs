//! Finding projects: which directories are worktrees, and of which repository.

use crate::discovery::{
    below, entered, git_store, grouped, identity, jj_store, label, marked, repo_root, walked,
    walked_below, DirEntryView, ListingView, LocatedView, MarkerView, PendingView, ProjectView,
};
use crate::order;
use crate::paths;
use crate::text;
use vstd::prelude::*;

verus! {

/// The walk goes into this entry: it is a directory, no link, and its name does not
/// begin with a dot.
pub open spec fn is_open(e: DirEntryView) -> bool {
    e.is_dir && !e.is_symlink && (e.name.len() == 0 || e.name[0] != '.')
}

/// A directory is a worktree where it holds a `.git` or a `.jj`.
pub proof fn worktrees_are_marked(l: ListingView, e: DirEntryView)
    ensures
        marked(l) <==> l.has_git || l.has_jj,
        entered(e) <==> is_open(e),
{
}

/// From a directory that is less than five deep, the walk goes into each open entry,
/// in order; from a deeper one into none. `at` says which entry each is.
pub proof fn open_entries_are_visited(
    dir: Seq<char>,
    depth: nat,
    entries: Seq<DirEntryView>,
    windows: bool,
) -> (at: Seq<int>)
    ensures
        at.len() == below(dir, depth, entries, windows).len(),
        forall|i: int|
            0 <= i < at.len() ==> 0 <= #[trigger] at[i] < entries.len() && depth < 5 && is_open(
                entries[at[i]],
            ) && below(dir, depth, entries, windows)[i] == (PendingView {
                path: paths::join(dir, entries[at[i]].name, windows),
                depth: depth + 1,
            }),
        forall|i: int, j: int| 0 <= i < j < at.len() ==> #[trigger] at[i] < #[trigger] at[j],
        forall|k: int|
            0 <= k < entries.len() && depth < 5 && is_open(#[trigger] entries[k]) ==> at.contains(k),
    decreases entries.len(),
{
    if entries.len() == 0 {
        Seq::empty()
    } else {
        let tail = entries.drop_first();
        let later = open_entries_are_visited(dir, depth, tail, windows);
        let moved = Seq::new(later.len(), |i: int| later[i] + 1);
        let here = is_open(entries[0]) && depth < 5;
        let at = if here {
            seq![0int] + moved
        } else {
            moved
        };
        let shift: int = if here {
            1
        } else {
            0
        };
        let b = below(dir, depth, entries, windows);
        let c = below(dir, depth, tail, windows);
        assert forall|i: int| 0 <= i < at.len() implies 0 <= #[trigger] at[i] < entries.len()
            && depth < 5 && is_open(entries[at[i]]) && b[i] == (PendingView {
            path: paths::join(dir, entries[at[i]].name, windows),
            depth: depth + 1,
        }) by {
            if i >= shift {
                assert(at[i] == later[i - shift] + 1);
                assert(entries[at[i]] == tail[later[i - shift]]);
                assert(b[i] == c[i - shift]);
            }
        }
        assert forall|i: int, j: int| 0 <= i < j < at.len() implies #[trigger] at[i]
            < #[trigger] at[j] by {
            assert(at[j] == later[j - shift] + 1);
            if i >= shift {
                assert(at[i] == later[i - shift] + 1);
            } else {
                assert(later[j - shift] >= 0);
            }
        }
        assert forall|k: int|
            0 <= k < entries.len() && depth < 5 && is_open(#[trigger] entries[k]) implies at.contains(
            k,
        ) by {
            if k == 0 {
                assert(at[0] == 0);
            } else {
                assert(entries[k] == tail[k - 1]);
                let i = choose|i: int| 0 <= i < later.len() && later[i] == k - 1;
                assert(at[i + shift] == k);
            }
        }
        at
    }
}

/// The directory `a` holds an open entry that leads to `b`.
pub open spec fn leads_to(
    fs: spec_fn(Seq<char>) -> ListingView,
    a: Seq<char>,
    b: Seq<char>,
    windows: bool,
) -> bool {
    exists|k: int|
        0 <= k < fs(a).entries.len() && is_open(#[trigger] fs(a).entries[k]) && b == paths::join(
            a,
            fs(a).entries[k].name,
            windows,
        )
}

/// `way` leads from `dir` down to a worktree, through directories that are none.
pub open spec fn is_way(
    fs: spec_fn(Seq<char>) -> ListingView,
    dir: Seq<char>,
    way: Seq<Seq<char>>,
    windows: bool,
) -> bool {
    &&& way.len() > 0
    &&& way[0] == dir
    &&& fs(way.last()).has_git || fs(way.last()).has_jj
    &&& forall|i: int|
        0 <= i < way.len() - 1 ==> !fs(#[trigger] way[i]).has_git && !fs(way[i]).has_jj && leads_to(
            fs,
            way[i],
            way[i + 1],
            windows,
        )
}

/// A walk finds exactly the worktrees that a way of at most five steps leads to,
/// through directories that are no worktrees, hidden or links.
pub proof fn walk_finds_what_can_be_reached(
    fs: spec_fn(Seq<char>) -> ListingView,
    dir: Seq<char>,
    p: Seq<char>,
    windows: bool,
)
    ensures
        walked(fs, dir, 0, windows).contains(p) <==> exists|way: Seq<Seq<char>>| #[trigger]
            is_way(fs, dir, way, windows) && way.last() == p && way.len() <= 6,
{
    if walked(fs, dir, 0, windows).contains(p) {
        let way = found_has_a_way(fs, dir, 0, p, windows);
    }
    if exists|way: Seq<Seq<char>>| #[trigger]
        is_way(fs, dir, way, windows) && way.last() == p && way.len() <= 6 {
        let way = choose|way: Seq<Seq<char>>| #[trigger]
            is_way(fs, dir, way, windows) && way.last() == p && way.len() <= 6;
        way_is_found(fs, dir, 0, way, windows);
    }
}

proof fn found_has_a_way(
    fs: spec_fn(Seq<char>) -> ListingView,
    dir: Seq<char>,
    depth: nat,
    p: Seq<char>,
    windows: bool,
) -> (way: Seq<Seq<char>>)
    requires
        walked(fs, dir, depth, windows).contains(p),
    ensures
        is_way(fs, dir, way, windows),
        way.last() == p,
        way.len() + depth <= 6,
    decreases 2 * (5 - depth) + 1, 0nat,
{
    if marked(fs(dir)) {
        let w = walked(fs, dir, depth, windows);
        assert(w.len() == 1 && w[0] == dir);
        seq![dir]
    } else {
        found_below_has_a_way(fs, dir, depth, 0, p, windows)
    }
}

proof fn found_below_has_a_way(
    fs: spec_fn(Seq<char>) -> ListingView,
    dir: Seq<char>,
    depth: nat,
    from: int,
    p: Seq<char>,
    windows: bool,
) -> (way: Seq<Seq<char>>)
    requires
        !marked(fs(dir)),
        depth <= 5,
        0 <= from <= fs(dir).entries.len(),
        walked_below(fs, dir, depth, fs(dir).entries.skip(from), windows).contains(p) || from == 0
            && walked_below(fs, dir, depth, fs(dir).entries, windows).contains(p),
    ensures
        is_way(fs, dir, way, windows),
        way.last() == p,
        way.len() + depth <= 6,
    decreases 2 * (5 - depth), fs(dir).entries.len() - from,
{
    let all = fs(dir).entries;
    let es = all.skip(from);
    assert(all.skip(0) =~= all);
    let w = walked_below(fs, dir, depth, es, windows);
    let k = choose|k: int| 0 <= k < w.len() && w[k] == p;
    if es.len() == 0 {
        assert(w.len() == 0);
    }
    assert(es[0] == all[from]);
    assert(es.drop_first() =~= all.skip(from + 1));
    let first = if entered(es[0]) && depth < 5 {
        walked(fs, paths::join(dir, es[0].name, windows), depth + 1, windows)
    } else {
        seq![]
    };
    let rest = walked_below(fs, dir, depth, es.drop_first(), windows);
    assert(w == first + rest);
    if k < first.len() {
        assert(first[k] == p);
        let sub = paths::join(dir, es[0].name, windows);
        let tail = found_has_a_way(fs, sub, depth + 1, p, windows);
        let way = seq![dir] + tail;
        assert(way.last() == tail.last());
        assert(is_open(fs(dir).entries[from]));
        assert(leads_to(fs, dir, sub, windows));
        assert forall|i: int| 0 <= i < way.len() - 1 implies !fs(#[trigger] way[i]).has_git && !fs(
            way[i],
        ).has_jj && leads_to(fs, way[i], way[i + 1], windows) by {
            if i > 0 {
                assert(way[i] == tail[i - 1] && way[i + 1] == tail[i]);
            } else {
                assert(way[1] == tail[0]);
            }
        }
        way
    } else {
        assert(rest[k - first.len()] == p);
        found_below_has_a_way(fs, dir, depth, from + 1, p, windows)
    }
}

proof fn way_is_found(
    fs: spec_fn(Seq<char>) -> ListingView,
    dir: Seq<char>,
    depth: nat,
    way: Seq<Seq<char>>,
    windows: bool,
)
    requires
        is_way(fs, dir, way, windows),
        way.len() + depth <= 6,
    ensures
        walked(fs, dir, depth, windows).contains(way.last()),
    decreases way.len(),
{
    if way.len() == 1 {
        assert(walked(fs, dir, depth, windows) == seq![dir]);
        assert(seq![dir][0] == dir);
    } else {
        assert(!fs(way[0]).has_git && leads_to(fs, way[0], way[0int + 1], windows));
        let k = choose|k: int|
            0 <= k < fs(dir).entries.len() && is_open(#[trigger] fs(dir).entries[k]) && way[1]
                == paths::join(dir, fs(dir).entries[k].name, windows);
        let tail = way.drop_first();
        assert forall|i: int| 0 <= i < tail.len() - 1 implies !fs(#[trigger] tail[i]).has_git && !fs(
            tail[i],
        ).has_jj && leads_to(fs, tail[i], tail[i + 1], windows) by {
            assert(tail[i] == way[i + 1] && tail[i + 1] == way[i + 1 + 1]);
        }
        assert(tail.last() == way.last());
        way_is_found(fs, way[1], depth + 1, tail, windows);
        entry_is_walked(fs, dir, depth, k, 0, way.last(), windows);
        assert(fs(dir).entries.skip(0) =~= fs(dir).entries);
    }
}

proof fn entry_is_walked(
    fs: spec_fn(Seq<char>) -> ListingView,
    dir: Seq<char>,
    depth: nat,
    k: int,
    from: int,
    p: Seq<char>,
    windows: bool,
)
    requires
        depth < 5,
        0 <= from <= k < fs(dir).entries.len(),
        is_open(fs(dir).entries[k]),
        walked(
            fs,
            paths::join(dir, fs(dir).entries[k].name, windows),
            depth + 1,
            windows,
        ).contains(p),
    ensures
        walked_below(fs, dir, depth, fs(dir).entries.skip(from), windows).contains(p),
    decreases k - from,
{
    let all = fs(dir).entries;
    let es = all.skip(from);
    assert(es[0] == all[from]);
    assert(es.drop_first() =~= all.skip(from + 1));
    let first = if entered(es[0]) && depth < 5 {
        walked(fs, paths::join(dir, es[0].name, windows), depth + 1, windows)
    } else {
        seq![]
    };
    let rest = walked_below(fs, dir, depth, es.drop_first(), windows);
    let w = walked_below(fs, dir, depth, es, windows);
    assert(w == first + rest);
    if from == k {
        let i = choose|i: int| 0 <= i < first.len() && first[i] == p;
        assert(w[i] == p);
    } else {
        entry_is_walked(fs, dir, depth, k, from + 1, p, windows);
        let i = choose|i: int| 0 <= i < rest.len() && rest[i] == p;
        assert(w[i + first.len()] == p);
    }
}

/// The store of a jj workspace is `.jj/repo` where that is a directory; a file
/// there points to it, from the root or from `.jj`. A blank pointer is none.
pub proof fn jj_stores_are_pointed_to(workspace: Seq<char>, contents: Seq<char>, windows: bool)
    ensures
        ({
            let repo = paths::join(paths::join(workspace, ".jj"@, windows), "repo"@, windows);
            let pointer = text::trim(contents);
            let up = paths::parent(repo, windows);
            &&& jj_store(workspace, MarkerView::Absent, windows) is None
            &&& jj_store(workspace, MarkerView::Dir, windows) == Some(repo)
            &&& jj_store(workspace, MarkerView::File(contents), windows) == if pointer.len() == 0 {
                None
            } else if paths::is_absolute(pointer, windows) {
                Some(pointer)
            } else if up is Some {
                Some(paths::join(up->0, pointer, windows))
            } else {
                None
            }
        }),
{
}

/// `up` is two directories above `p`, or `p` itself where there are not that many.
pub open spec fn is_two_up(up: Seq<char>, p: Seq<char>, windows: bool) -> bool {
    match paths::parent(p, windows) {
        Some(q) => match paths::parent(q, windows) {
            Some(r) => up == r,
            None => up == p,
        },
        None => up == p,
    }
}

/// The shared store of a git worktree is `.git` where that is a directory; a file
/// there points, on its first line and after `gitdir:` if that is there, to a
/// directory two below it, from the root or from the worktree.
pub proof fn git_stores_are_pointed_to(worktree: Seq<char>, contents: Seq<char>, windows: bool)
    ensures
        ({
            let lines = text::lines(contents);
            &&& git_store(worktree, MarkerView::Absent, windows) is None
            &&& git_store(worktree, MarkerView::Dir, windows) == Some(
                paths::join(worktree, ".git"@, windows),
            )
            &&& git_store(worktree, MarkerView::File(contents), windows) is None <==> {
                ||| lines.len() == 0
                ||| lines[0].len() == 0
                ||| "gitdir:"@.is_prefix_of(lines[0]) && text::trim(
                    lines[0].skip("gitdir:"@.len() as int),
                ).len() == 0
            }
            &&& git_store(worktree, MarkerView::File(contents), windows) is Some ==> is_two_up(
                git_store(worktree, MarkerView::File(contents), windows)->0,
                paths::join(
                    worktree,
                    if "gitdir:"@.is_prefix_of(lines[0]) {
                        text::trim(lines[0].skip("gitdir:"@.len() as int))
                    } else {
                        lines[0]
                    },
                    windows,
                ),
                windows,
            )
        }),
{
    reveal_strlit("gitdir:");
    let lines = text::lines(contents);
    if lines.len() > 0 && lines[0].len() == 0 {
        assert(!"gitdir:"@.is_prefix_of(lines[0]));
    }
}

/// The name of the last component.
pub open spec fn called(p: Option<Seq<char>>, name: Seq<char>, windows: bool) -> bool {
    p is Some && paths::file_name(p->0, windows) == Some(name)
}

/// The path above a path, if there is one.
pub open spec fn above(p: Option<Seq<char>>, windows: bool) -> Option<Seq<char>> {
    match p {
        Some(q) => paths::parent(q, windows),
        None => None,
    }
}

/// A store is that of the repository three directories above it where it is one of
/// `.git/worktrees`, two above where it is `.jj/repo`, and one above where it is
/// `.git`; any other stands for itself.
pub proof fn stores_belong_to_repositories(store: Seq<char>, windows: bool)
    ensures
        ({
            let one = paths::parent(store, windows);
            let two = above(one, windows);
            let three = above(two, windows);
            repo_root(store, windows) == if called(one, "worktrees"@, windows) && called(
                two,
                ".git"@,
                windows,
            ) && three is Some {
                three->0
            } else if called(Some(store), "repo"@, windows) && called(one, ".jj"@, windows)
                && two is Some {
                two->0
            } else if called(Some(store), ".git"@, windows) && one is Some {
                one->0
            } else {
                store
            }
        }),
{
}

/// A worktree is identified by the repository of its jj store, where it has a `.jj`
/// that leads to one, and else by that of its git store.
pub proof fn jj_comes_before_git(
    worktree: Seq<char>,
    has_jj: bool,
    jj: MarkerView,
    git: MarkerView,
    windows: bool,
)
    ensures
        identity(worktree, has_jj, jj, git, windows) == if has_jj && jj_store(
            worktree,
            jj,
            windows,
        ) is Some {
            Some(repo_root(jj_store(worktree, jj, windows)->0, windows))
        } else if git_store(worktree, git, windows) is Some {
            Some(repo_root(git_store(worktree, git, windows)->0, windows))
        } else {
            None
        },
{
}

/// A project is called by the components of its first worktree below the root,
/// without the last one, with slashes between them; a single one stays.
pub proof fn projects_are_called_by_their_place(root: Seq<char>, first: Seq<char>, windows: bool)
    ensures
        ({
            let r = paths::components(root, windows);
            let c = paths::components(first, windows);
            let t = paths::texts(first, windows);
            let below = if r.is_prefix_of(c) {
                t.skip(r.len() as int)
            } else {
                t
            };
            label(root, first, windows) == if below.len() > 1 {
                text::join(below.take(below.len() - 1), "/"@)
            } else if below.len() == 1 {
                below[0]
            } else {
                match paths::file_name(first, windows) {
                    Some(n) => n,
                    None => "(unknown)"@,
                }
            }
        }),
{
    let r = paths::components(root, windows);
    let c = paths::components(first, windows);
    let t = paths::texts(first, windows);
    let b = if r.is_prefix_of(c) {
        t.skip(r.len() as int)
    } else {
        t
    };
    if b.len() > 1 {
        assert(b.drop_last() =~= b.take(b.len() - 1));
    }
}

/// What a worktree is grouped by.
pub open spec fn group_key(w: LocatedView) -> Seq<char> {
    match w.identity {
        Some(k) => k,
        None => w.path,
    }
}

proof fn members_are(found: Seq<LocatedView>, k: Seq<char>, p: Seq<char>)
    ensures
        crate::discovery::members(found, k).contains(p) <==> exists|i: int|
            0 <= i < found.len() && (#[trigger] found[i]).path == p && group_key(found[i]) == k,
    decreases found.len(),
{
    if found.len() > 0 {
        let head = found.drop_last();
        members_are(head, k, p);
        let a = crate::discovery::members(head, k);
        let b = crate::discovery::members(found, k);
        let n = found.len() - 1;
        if b.contains(p) {
            let i = choose|i: int| 0 <= i < b.len() && b[i] == p;
            if i < a.len() {
                assert(a[i] == p);
                let j = choose|j: int|
                    0 <= j < head.len() && (#[trigger] head[j]).path == p && group_key(head[j])
                        == k;
                assert(found[j] == head[j]);
            } else {
                assert(found[n].path == p);
            }
        }
        if exists|i: int|
            0 <= i < found.len() && (#[trigger] found[i]).path == p && group_key(found[i]) == k {
            let i = choose|i: int|
                0 <= i < found.len() && (#[trigger] found[i]).path == p && group_key(found[i]) == k;
            if i < n {
                assert(head[i] == found[i]);
                let j = choose|j: int| 0 <= j < a.len() && a[j] == p;
                assert(b[j] == p);
            } else {
                assert(b[b.len() - 1] == p);
            }
        }
    }
}

/// Each project holds exactly the worktrees of one repository, none of which sorts
/// before one that stands in front of it, and is called after the first. There is
/// a project for each repository, and they are in the order of what they are
/// called.
pub proof fn projects_hold_their_worktrees(
    root: Seq<char>,
    found: Seq<LocatedView>,
    ks: Seq<Seq<char>>,
    ps: Seq<ProjectView>,
    windows: bool,
    j: int,
    p: Seq<char>,
)
    requires
        grouped(root, found, ks, ps, windows),
        0 <= j < ps.len(),
    ensures
        ps[j].worktrees.len() > 0,
        ps[j].worktrees.contains(p) <==> exists|i: int|
            0 <= i < found.len() && (#[trigger] found[i]).path == p && group_key(found[i]) == ks[j],
        ps[j].label == label(root, ps[j].worktrees[0], windows),
        forall|a: int, b: int|
            0 <= a < b < ps[j].worktrees.len() ==> !order::path_before(
                paths::components(#[trigger] ps[j].worktrees[b], windows),
                paths::components(#[trigger] ps[j].worktrees[a], windows),
            ),
        forall|i: int| 0 <= i < found.len() ==> ks.contains(group_key(#[trigger] found[i])),
        forall|a: int, b: int|
            0 <= a < b < ps.len() ==> !order::before(
                (#[trigger] ps[b]).label,
                (#[trigger] ps[a]).label,
            ),
{
    assert(crate::discovery::is_group(root, found, ks[j], ps[j], windows));
    members_are(found, ks[j], p);
    let m = crate::discovery::members(found, ks[j]);
    m.to_multiset_ensures();
    ps[j].worktrees.to_multiset_ensures();
    assert(m.contains(p) <==> m.to_multiset().count(p) > 0);
    assert(ps[j].worktrees.contains(p) <==> ps[j].worktrees.to_multiset().count(p) > 0);
    assert forall|i: int| 0 <= i < found.len() implies ks.contains(
        group_key(#[trigger] found[i]),
    ) by {
        assert(ks.contains(crate::discovery::key(found[i])));
    }
    assert forall|a: int, b: int| 0 <= a < b < ps.len() implies !order::before(
        (#[trigger] ps[b]).label,
        (#[trigger] ps[a]).label,
    ) by {
        order::texts_are_ordered(ps[a].label, ps[b].label);
    }
}

} // verus!
