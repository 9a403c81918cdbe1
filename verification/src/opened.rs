//! A repository with the backends that work on it.

use crate::process;
use crate::vcs::{self, Backend, Kind, OpenBackend, Repo, VcsChoice, Worktree, WorktreeView};
use vstd::prelude::*;

verus! {

/// A repository that was opened: by one backend, or by jj and git where it is
/// both.
pub struct OpenedRepo {
    pub repo: Repo,
    pub backends: Vec<OpenBackend>,
}

/// The kinds of the backends.
pub open spec fn kinds_of(backends: Seq<OpenBackend>) -> Seq<Kind> {
    backends.map_values(|b: OpenBackend| b.kind())
}

impl OpenedRepo {
    /// There is a backend, each is for this repository, no two are of one kind,
    /// and none is for both kinds at once.
    pub open spec fn valid(&self) -> bool {
        &&& self.backends@.len() > 0
        &&& forall|i: int|
            0 <= i < self.backends@.len() ==> (#[trigger] self.backends@[i]).at() == self.repo.root@
                && self.backends@[i].kind() != Kind::Colocated
        &&& kinds_of(self.backends@).no_duplicates()
    }

    /// Opens a repository with the backends that the caller's choice calls for.
    pub fn open(repo: Repo, choice: VcsChoice, windows: bool) -> (r: Result<OpenedRepo, String>)
        ensures
            match r {
                Ok(o) => o.valid() && o.repo == repo && vcs::kinds(repo.kind, choice) == Some(
                    kinds_of(o.backends@),
                ) && forall|i: int|
                    0 <= i < o.backends@.len() ==> (#[trigger] o.backends@[i]).windows() == windows,
                Err(e) => vcs::kinds(repo.kind, choice) is None && e@ == vcs::refusal(repo.kind),
            },
    {
        let kinds = match vcs::select_kinds(repo.kind, choice) {
            Ok(k) => k,
            Err(e) => return Err(e),
        };
        proof {
            vcs::picked_kinds_are_single(repo.kind, choice);
            assert forall|i: int| 0 <= i < kinds@.len() implies kinds@[i] != Kind::Colocated by {
                assert(kinds@.contains(kinds@[i]));
            }
        }
        let mut backends: Vec<OpenBackend> = Vec::new();
        let mut i: usize = 0;
        while i < kinds.len()
            invariant
                i <= kinds@.len(),
                backends@.len() == i,
                forall|j: int| 0 <= j < kinds@.len() ==> kinds@[j] != Kind::Colocated,
                forall|j: int|
                    0 <= j < i ==> (#[trigger] backends@[j]).at() == repo.root@
                        && backends@[j].kind() == kinds@[j] && backends@[j].windows() == windows,
            decreases kinds@.len() - i,
        {
            backends.push(vcs::open_backend(&repo, kinds[i], windows));
            i = i + 1;
        }
        proof {
            assert(kinds_of(backends@) =~= kinds@);
        }
        Ok(OpenedRepo { repo, backends })
    }

    /// The backend for what works on one worktree: the first.
    pub fn primary(&self) -> (r: &OpenBackend)
        requires
            self.valid(),
        ensures
            *r == self.backends@[0],
    {
        &self.backends[0]
    }

    /// Whether there is more than one backend.
    pub fn is_multi(&self) -> (r: bool)
        ensures
            r == (self.backends@.len() > 1),
    {
        self.backends.len() > 1
    }

    /// The backend of this kind.
    pub fn backend_for(&self, kind: Kind) -> (r: Option<&OpenBackend>)
        requires
            self.valid(),
        ensures
            match r {
                Some(b) => b.kind() == kind && self.backends@.contains(*b),
                None => !kinds_of(self.backends@).contains(kind),
            },
    {
        let mut i: usize = 0;
        while i < self.backends.len()
            invariant
                i <= self.backends@.len(),
                forall|j: int| 0 <= j < i ==> (#[trigger] self.backends@[j]).kind() != kind,
            decreases self.backends@.len() - i,
        {
            let b = &self.backends[i];
            let k = kind_of_backend(b);
            if k == kind {
                proof {
                    assert(self.backends@[i as int] == *b);
                }
                return Some(b);
            }
            i = i + 1;
        }
        None
    }
}

/// The kind of a backend.
pub fn kind_of_backend(b: &OpenBackend) -> (r: Kind)
    ensures
        r == b.kind(),
{
    match b {
        OpenBackend::Git(_) => Kind::Git,
        OpenBackend::Jj(_) => Kind::Jj,
    }
}

/// The rows of all backends, one after the other, unless one failed.
pub open spec fn union(lists: Seq<Result<Seq<WorktreeView>, Seq<char>>>) -> Result<
    Seq<WorktreeView>,
    Seq<char>,
>
    decreases lists.len(),
{
    if lists.len() == 0 {
        Ok(seq![])
    } else {
        match (union(lists.drop_last()), lists.last()) {
            (Err(e), _) => Err(e),
            (Ok(_), Err(e)) => Err(e),
            (Ok(a), Ok(b)) => Ok(a + b),
        }
    }
}

/// What the backends listed, as contracts see it.
pub open spec fn lists_view(lists: Seq<Result<Vec<Worktree>, String>>) -> Seq<
    Result<Seq<WorktreeView>, Seq<char>>,
> {
    lists.map_values(|r: Result<Vec<Worktree>, String>| process::result_view(r))
}

/// The rows of all backends, or the first failure.
pub fn list_all(lists: &Vec<Result<Vec<Worktree>, String>>) -> (r: Result<Vec<Worktree>, String>)
    ensures
        process::result_view(r) == union(lists_view(lists@)),
{
    let ghost all = lists_view(lists@);
    let mut out: Vec<Worktree> = Vec::new();
    let mut i: usize = 0;
    proof {
        assert(out.deep_view() =~= seq![]);
    }
    while i < lists.len()
        invariant
            i <= lists@.len(),
            all == lists_view(lists@),
            union(all.take(i as int)) == Ok::<Seq<WorktreeView>, Seq<char>>(out.deep_view()),
        decreases lists@.len() - i,
    {
        proof {
            assert(all.take(i + 1).drop_last() =~= all.take(i as int));
            assert(all.take(i + 1).last() == process::result_view(lists@[i as int]));
        }
        match &lists[i] {
            Err(e) => {
                proof {
                    assert(union(all.take(i + 1)) == Err::<Seq<WorktreeView>, Seq<char>>(e@));
                    failure_stays(all, i + 1);
                }
                return Err(e.clone());
            },
            Ok(rows) => {
                let ghost before = out.deep_view();
                let mut k: usize = 0;
                while k < rows.len()
                    invariant
                        k <= rows@.len(),
                        out.deep_view() == before + rows.deep_view().take(k as int),
                    decreases rows@.len() - k,
                {
                    let ghost now = out.deep_view();
                    out.push(rows[k].clone());
                    proof {
                        assert(out.deep_view() =~= now.push(rows@[k as int].deep_view()));
                        assert(out.deep_view() =~= before + rows.deep_view().take(k + 1));
                    }
                    k = k + 1;
                }
                proof {
                    assert(rows.deep_view().take(k as int) =~= rows.deep_view());
                }
            },
        }
        i = i + 1;
    }
    proof {
        assert(all.take(i as int) =~= all);
    }
    Ok(out)
}

proof fn failure_stays(lists: Seq<Result<Seq<WorktreeView>, Seq<char>>>, n: int)
    requires
        0 <= n <= lists.len(),
        union(lists.take(n)) is Err,
    ensures
        union(lists) == union(lists.take(n)),
    decreases lists.len() - n,
{
    if n < lists.len() {
        assert(lists.take(n + 1).drop_last() =~= lists.take(n));
        failure_stays(lists, n + 1);
    } else {
        assert(lists.take(n) =~= lists);
    }
}

/// The rows of a list come from the backend of this kind.
pub open spec fn tagged(list: Result<Seq<WorktreeView>, Seq<char>>, kind: Kind) -> bool {
    match list {
        Ok(rows) => forall|j: int| 0 <= j < rows.len() ==> (#[trigger] rows[j]).vcs == kind,
        Err(_) => true,
    }
}

/// Every row of the joined list has its backend among those that listed, where
/// each backend tags its own rows.
pub proof fn every_row_has_its_backend(
    kinds: Seq<Kind>,
    lists: Seq<Result<Seq<WorktreeView>, Seq<char>>>,
)
    requires
        kinds.len() == lists.len(),
        forall|i: int| 0 <= i < lists.len() ==> tagged(#[trigger] lists[i], kinds[i]),
    ensures
        match union(lists) {
            Ok(rows) => forall|j: int|
                0 <= j < rows.len() ==> kinds.contains((#[trigger] rows[j]).vcs),
            Err(_) => true,
        },
    decreases lists.len(),
{
    if lists.len() > 0 {
        let ks = kinds.drop_last();
        let ls = lists.drop_last();
        assert forall|i: int| 0 <= i < ls.len() implies tagged(#[trigger] ls[i], ks[i]) by {
            assert(ls[i] == lists[i]);
        }
        every_row_has_its_backend(ks, ls);
        if let Ok(rows) = union(lists) {
            let a = union(ls)->Ok_0;
            let b = lists.last()->Ok_0;
            assert(tagged(lists[lists.len() - 1], kinds[kinds.len() - 1]));
            assert forall|j: int| 0 <= j < rows.len() implies kinds.contains(
                (#[trigger] rows[j]).vcs,
            ) by {
                if j < a.len() {
                    assert(ks.contains(a[j].vcs));
                    let k = choose|k: int| 0 <= k < ks.len() && ks[k] == a[j].vcs;
                    assert(kinds[k] == rows[j].vcs);
                } else {
                    assert(b[j - a.len()].vcs == kinds.last());
                    assert(kinds[kinds.len() - 1] == rows[j].vcs);
                }
            }
        }
    }
}

} // verus!
