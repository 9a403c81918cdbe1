//! Which repository a directory belongs to: the nearest directory at or above
//! it that holds a `.git` or a `.jj`.

use crate::paths;
use crate::paths::prefix::{prefix_stays, Rules};
use vstd::prelude::*;

verus! {

/// What manages a repository.
#[derive(Debug, Clone, Copy, PartialEq, Eq, Structural)]
pub enum Kind {
    Git,
    Jj,
    /// Both `.git` and `.jj` at the same root.
    Colocated,
}

/// A repository.
#[derive(Debug, Clone, PartialEq, Eq)]
pub struct Repo {
    /// The directory that holds `.git` or `.jj`.
    pub root: String,
    pub kind: Kind,
}

/// What a [`Repo`] stands for.
pub struct RepoView {
    pub root: Seq<char>,
    pub kind: Kind,
}

impl DeepView for Repo {
    type V = RepoView;

    open spec fn deep_view(&self) -> RepoView {
        RepoView { root: self.root@, kind: self.kind }
    }
}

/// The markers found in one directory.
#[derive(Debug, Clone, Copy, PartialEq, Eq, Structural)]
pub struct Markers {
    /// A directory `.jj`.
    pub jj: bool,
    /// A `.git`, be it a directory or a file.
    pub git: bool,
}

/// What the markers of a directory say of it.
pub open spec fn kind_of(m: Markers) -> Option<Kind> {
    match (m.jj, m.git) {
        (true, true) => Some(Kind::Colocated),
        (true, false) => Some(Kind::Jj),
        (false, true) => Some(Kind::Git),
        (false, false) => None,
    }
}

/// A path's parent is shorter than the path.
pub proof fn parent_is_shorter(p: Seq<char>, windows: bool)
    ensures
        paths::parent(p, windows) is Some ==> paths::parent(p, windows)->0.len() < p.len(),
{
    let r = paths::rules(p, windows);
    let n = paths::base(p, windows);
    prefix_stays(p);
    let b = paths::trim_tail(p, n, r);
    tail_is_no_longer(p, n, r);
    if b.len() > n {
        last_sep_in_range(b, n, r);
        tail_is_no_longer(b.take(paths::last_sep(b, n, r)), n, r);
    }
}

proof fn tail_is_no_longer(s: Seq<char>, n: int, r: Rules)
    ensures
        paths::trim_tail(s, n, r).len() <= s.len(),
    decreases s.len(),
{
    if s.len() > 0 {
        tail_is_no_longer(s.drop_last(), n, r);
    }
}

proof fn last_sep_in_range(s: Seq<char>, n: int, r: Rules)
    requires
        0 <= n < s.len(),
    ensures
        n <= paths::last_sep(s, n, r) < s.len(),
    decreases s.len(),
{
    reveal_with_fuel(paths::last_sep, 2);
    if n < s.len() - 1 {
        last_sep_in_range(s.drop_last(), n, r);
    }
}

/// `p`, the directory it stands in, and so on up.
pub open spec fn chain(p: Seq<char>, windows: bool) -> Seq<Seq<char>>
    decreases p.len() via chain_decreases
{
    match paths::parent(p, windows) {
        Some(q) => seq![p] + chain(q, windows),
        None => seq![p],
    }
}

#[via_fn]
proof fn chain_decreases(p: Seq<char>, windows: bool) {
    parent_is_shorter(p, windows);
}

/// The directories to look into, nearest first: `start` and those above it.
pub fn ancestors(start: &str, windows: bool) -> (r: Vec<String>)
    ensures
        r.deep_view() == chain(start@, windows),
        r@.len() > 0,
{
    let mut out: Vec<String> = Vec::new();
    let mut cur: String = start.to_string();
    proof {
        assert(out.deep_view() + chain(cur@, windows) =~= chain(start@, windows));
    }
    loop
        invariant
            out.deep_view() + chain(cur@, windows) == chain(start@, windows),
        decreases cur@.len(),
    {
        let up = paths::parent_of(cur.as_str(), windows);
        let ghost before = out.deep_view();
        let ghost here = cur@;
        out.push(cur);
        proof {
            assert(out.deep_view() =~= before.push(here));
            parent_is_shorter(here, windows);
        }
        match up {
            Some(q) => {
                proof {
                    assert(out.deep_view() + chain(q@, windows) =~= before + chain(here, windows));
                }
                cur = q;
            },
            None => {
                proof {
                    assert(out.deep_view() =~= before + chain(here, windows));
                }
                return out;
            },
        }
    }
}

/// The nearest of the marked directories, given the markers of each.
pub open spec fn nearest(dirs: Seq<Seq<char>>, markers: Seq<Markers>) -> Option<RepoView>
    decreases dirs.len(),
{
    if dirs.len() == 0 || markers.len() == 0 {
        None
    } else {
        match kind_of(markers[0]) {
            Some(kind) => Some(RepoView { root: dirs[0], kind }),
            None => nearest(dirs.drop_first(), markers.drop_first()),
        }
    }
}

/// The repository that `start` lies in. `markers` holds what was found in each
/// of [`ancestors`], in the same order; a directory beyond its end counts as
/// unmarked.
pub fn detect(start: &str, windows: bool, markers: &[Markers]) -> (r: Option<Repo>)
    ensures
        r.deep_view() == nearest(chain(start@, windows), markers@),
{
    let dirs = ancestors(start, windows);
    let mut i: usize = 0;
    proof {
        assert(dirs.deep_view().skip(0) =~= dirs.deep_view());
        assert(markers@.skip(0) =~= markers@);
    }
    while i < dirs.len() && i < markers.len()
        invariant
            i <= dirs.len(),
            i <= markers.len(),
            dirs.deep_view() == chain(start@, windows),
            nearest(chain(start@, windows), markers@) == nearest(
                dirs.deep_view().skip(i as int),
                markers@.skip(i as int),
            ),
        decreases dirs.len() - i,
    {
        let m = markers[i];
        proof {
            assert(dirs.deep_view().skip(i as int).drop_first() =~= dirs.deep_view().skip(i + 1));
            assert(markers@.skip(i as int).drop_first() =~= markers@.skip(i + 1));
        }
        let kind = match (m.jj, m.git) {
            (true, true) => Some(Kind::Colocated),
            (true, false) => Some(Kind::Jj),
            (false, true) => Some(Kind::Git),
            (false, false) => None,
        };
        if let Some(kind) = kind {
            return Some(Repo { root: dirs[i].clone(), kind });
        }
        i = i + 1;
    }
    None
}

/// The repository found is at `start` or above it, what manages it is what is
/// marked there, and nothing nearer is marked. With no repository, nothing at
/// or above `start` is marked.
pub proof fn detect_finds_the_nearest(
    start: Seq<char>,
    windows: bool,
    markers: Seq<Markers>,
)
    ensures
        match nearest(chain(start, windows), markers) {
            Some(repo) => exists|i: int|
                0 <= i < chain(start, windows).len() && i < markers.len() && repo.root == #[trigger] chain(
                    start,
                    windows,
                )[i] && kind_of(markers[i]) == Some(repo.kind) && forall|j: int|
                    0 <= j < i ==> kind_of(#[trigger] markers[j]) is None,
            None => forall|j: int|
                0 <= j < markers.len() && j < chain(start, windows).len() ==> kind_of(
                    #[trigger] markers[j],
                ) is None,
        },
{
    nearest_is_first(chain(start, windows), markers);
}

proof fn nearest_is_first(dirs: Seq<Seq<char>>, markers: Seq<Markers>)
    ensures
        match nearest(dirs, markers) {
            Some(repo) => exists|i: int|
                0 <= i < dirs.len() && i < markers.len() && repo.root == #[trigger] dirs[i]
                    && kind_of(markers[i]) == Some(repo.kind) && forall|j: int|
                    0 <= j < i ==> kind_of(#[trigger] markers[j]) is None,
            None => forall|j: int|
                0 <= j < markers.len() && j < dirs.len() ==> kind_of(#[trigger] markers[j]) is None,
        },
    decreases dirs.len(),
{
    if dirs.len() > 0 && markers.len() > 0 {
        if kind_of(markers[0]) is Some {
            assert(nearest(dirs, markers)->0.root == dirs[0]);
        } else {
            let d = dirs.drop_first();
            let m = markers.drop_first();
            nearest_is_first(d, m);
            assert forall|j: int| 0 < j < markers.len() implies markers[j] == m[j - 1] by {}
            if nearest(d, m) is Some {
                let repo = nearest(d, m)->0;
                let i = choose|i: int|
                    0 <= i < d.len() && i < m.len() && repo.root == #[trigger] d[i] && kind_of(m[i])
                        == Some(repo.kind) && forall|j: int|
                        0 <= j < i ==> kind_of(#[trigger] m[j]) is None;
                assert(repo.root == dirs[i + 1]);
                assert forall|j: int| 0 <= j < i + 1 implies kind_of(#[trigger] markers[j]) is None by {
                    if j > 0 {
                        assert(markers[j] == m[j - 1]);
                    }
                }
            } else {
                assert forall|j: int|
                    0 <= j < markers.len() && j < dirs.len() implies kind_of(
                    #[trigger] markers[j],
                ) is None by {
                    if j > 0 {
                        assert(markers[j] == m[j - 1]);
                    }
                }
            }
        }
    }
}

} // verus!
