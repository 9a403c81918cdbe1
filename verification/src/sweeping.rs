//! A sweep, step by step: [`Sweeping::request`] says what is to be done next
//! outside, and [`Sweeping::reply`] takes what came of it.
//!
//! What is known of the remote is brought up to date before anything is judged,
//! and nothing is removed before it is confirmed.

use crate::pr_cache::PrIndex;
use crate::removal;
use crate::sweep::{self, Judged};
use crate::vcs::Worktree;
use vstd::prelude::*;

verus! {

/// How far it has come.
#[derive(Debug, Clone, Copy, PartialEq, Eq, Structural)]
pub enum Stage {
    /// The remote is to be fetched.
    Fetch,
    /// The pull requests are to be loaded, from GitHub and not from the cache.
    Load,
    /// The reference for upstream is to be found.
    Probe,
    /// The content of each worktree is to be compared to upstream.
    Land,
    /// The user is to be asked.
    Confirm,
    /// The user would have to be asked, and must not be.
    Refused,
    /// The worktrees are to be removed.
    Remove,
    /// All is done.
    Done,
}

/// A sweep under way.
#[derive(Debug, PartialEq, Eq)]
pub struct Sweeping {
    pub stage: Stage,
    pub yes: bool,
    pub force: bool,
    pub non_interactive: bool,
    /// All worktrees.
    pub rows: Vec<Worktree>,
    /// Their pull requests.
    pub prs: PrIndex,
    /// Of each worktree so far, whether its content is upstream.
    pub landed: Vec<bool>,
    /// The judgement of each, once they are judged.
    pub judged: Vec<Judged>,
    /// Which judgements call for a removal.
    pub todo: Vec<usize>,
    /// Of each removal so far, whether it went well.
    pub results: Vec<bool>,
}

/// What is to be done next.
#[derive(Debug, Clone, Copy, PartialEq, Eq, Structural)]
pub enum SweepRequest {
    Fetch,
    LoadPrs,
    FindUpstream,
    /// Find out whether the content of this row is upstream.
    CheckLanded(usize),
    /// Ask whether this many worktrees are to be removed.
    Confirm(usize),
    /// Give up: the user would have to be asked, and must not be.
    Refuse,
    /// Remove this row.
    Remove(usize),
    Nothing,
}

/// What came of a request.
#[derive(Debug, PartialEq, Eq)]
pub enum SweepReply {
    /// The remote was fetched, or could not be.
    Fetched(bool),
    /// The pull requests.
    Prs(PrIndex),
    /// Whether there is a reference for upstream.
    Upstream(bool),
    /// Whether the content is upstream.
    Landed(bool),
    /// What the user answered.
    Answer(bool),
    /// Whether the removal went well.
    Removed(bool),
}

impl Sweeping {
    /// What holds at every stage: the judgements are about the rows, those that
    /// call for a removal do so, and no more was removed than that.
    pub open spec fn valid(&self) -> bool {
        &&& self.stage == Stage::Land ==> self.landed@.len() < self.rows@.len()
        &&& removal::about_rows(self.judged@, self.rows@.len())
        &&& self.todo@.map_values(|i: usize| i as int) == removal::swept(self.judged@)
        &&& forall|k: int|
            0 <= k < self.todo@.len() ==> (#[trigger] self.todo@[k]) < self.judged@.len()
                && self.judged@[self.todo@[k] as int].verdict is Sweep
        &&& self.stage == Stage::Remove ==> self.results@.len() < self.todo@.len()
        &&& self.stage != Stage::Remove && self.stage != Stage::Done ==> self.results@.len() == 0
        &&& self.stage == Stage::Fetch || self.stage == Stage::Load || self.stage == Stage::Probe
            || self.stage == Stage::Land ==> self.judged@.len() == 0
    }

    /// Begins with all worktrees. The remote is fetched first, unless `no_fetch`.
    pub fn begin(
        rows: Vec<Worktree>,
        yes: bool,
        force: bool,
        non_interactive: bool,
        no_fetch: bool,
    ) -> (r: Sweeping)
        ensures
            r.valid(),
            r.stage == if rows@.len() == 0 {
                Stage::Done
            } else if no_fetch {
                Stage::Load
            } else {
                Stage::Fetch
            },
            r.rows == rows,
            (r.yes, r.force, r.non_interactive) == (yes, force, non_interactive),
            r.landed@.len() == 0,
            r.judged@.len() == 0,
            r.results@.len() == 0,
    {
        let stage = if rows.len() == 0 {
            Stage::Done
        } else if no_fetch {
            Stage::Load
        } else {
            Stage::Fetch
        };
        let r = Sweeping {
            stage,
            yes,
            force,
            non_interactive,
            rows,
            prs: PrIndex::new(),
            landed: Vec::new(),
            judged: Vec::new(),
            todo: Vec::new(),
            results: Vec::new(),
        };
        proof {
            assert(r.todo@.map_values(|i: usize| i as int) =~= removal::swept(r.judged@));
        }
        r
    }

    /// What is to be done next.
    pub fn request(&self) -> (r: SweepRequest)
        requires
            self.valid(),
        ensures
            r == match self.stage {
                Stage::Fetch => SweepRequest::Fetch,
                Stage::Load => SweepRequest::LoadPrs,
                Stage::Probe => SweepRequest::FindUpstream,
                Stage::Land => SweepRequest::CheckLanded(self.landed@.len() as usize),
                Stage::Confirm => SweepRequest::Confirm(self.todo@.len() as usize),
                Stage::Refused => SweepRequest::Refuse,
                Stage::Remove => SweepRequest::Remove(
                    self.judged@[self.todo@[self.results@.len() as int] as int].row,
                ),
                Stage::Done => SweepRequest::Nothing,
            },
    {
        match self.stage {
            Stage::Fetch => SweepRequest::Fetch,
            Stage::Load => SweepRequest::LoadPrs,
            Stage::Probe => SweepRequest::FindUpstream,
            Stage::Land => SweepRequest::CheckLanded(self.landed.len()),
            Stage::Confirm => SweepRequest::Confirm(self.todo.len()),
            Stage::Refused => SweepRequest::Refuse,
            Stage::Remove => {
                let k: usize = self.todo[self.results.len()];
                SweepRequest::Remove(self.judged[k].row)
            },
            Stage::Done => SweepRequest::Nothing,
        }
    }
}

/// All but the stage and what is named is as it was.
pub open spec fn only_moved(s: Sweeping, t: Sweeping, stage: Stage) -> bool {
    t == (Sweeping { stage, ..s })
}

/// `t` is `s` with every row judged, by what has landed and by its pull request.
/// Where nothing is to be swept it is done; else it is confirmed, or to be
/// confirmed, or refused where the user must not be asked.
pub open spec fn is_judged(s: Sweeping, landed: Seq<bool>, t: Sweeping) -> bool {
    let rows = s.rows.deep_view();
    &&& t.rows == s.rows
    &&& t.prs == s.prs
    &&& (t.yes, t.force, t.non_interactive) == (s.yes, s.force, s.non_interactive)
    &&& t.landed@ == landed
    &&& t.results == s.results
    &&& t.judged@.len() == rows.len()
    &&& forall|i: int|
        0 <= i < t.judged@.len() ==> (#[trigger] t.judged@[i]).row == i && sweep::judged(
            t.judged@[i],
            rows,
            s.prs@,
            landed,
            s.force,
        )
    &&& t.todo@.map_values(|i: usize| i as int) == removal::swept(t.judged@)
    &&& t.stage == if t.todo@.len() == 0 {
        Stage::Done
    } else if s.yes {
        Stage::Remove
    } else if s.non_interactive {
        Stage::Refused
    } else {
        Stage::Confirm
    }
}

/// `t` follows on a reply. A fetch that fails is no reason to stop: what is known
/// then counts. Where there is no reference for upstream, nothing has landed. A
/// reply to something else changes nothing.
pub open spec fn follows(s: Sweeping, reply: SweepReply, t: Sweeping) -> bool {
    match (s.stage, reply) {
        (Stage::Fetch, SweepReply::Fetched(_)) => only_moved(s, t, Stage::Load),
        (Stage::Load, SweepReply::Prs(prs)) => t == (Sweeping { stage: Stage::Probe, prs, ..s }),
        (Stage::Probe, SweepReply::Upstream(there)) => if there && s.rows@.len() > s.landed@.len() {
            only_moved(s, t, Stage::Land)
        } else {
            is_judged(s, s.landed@, t)
        },
        (Stage::Land, SweepReply::Landed(b)) => if s.landed@.len() + 1 < s.rows@.len() {
            &&& t.stage == Stage::Land
            &&& t.landed@ == s.landed@.push(b)
            &&& t.rows == s.rows && t.prs == s.prs && t.judged == s.judged && t.todo == s.todo
                && t.results == s.results
            &&& (t.yes, t.force, t.non_interactive) == (s.yes, s.force, s.non_interactive)
        } else {
            is_judged(s, s.landed@.push(b), t)
        },
        (Stage::Confirm, SweepReply::Answer(yes)) => only_moved(
            s,
            t,
            if yes && s.results@.len() < s.todo@.len() {
                Stage::Remove
            } else {
                Stage::Done
            },
        ),
        (Stage::Remove, SweepReply::Removed(b)) => {
            &&& t.results@ == s.results@.push(b)
            &&& t.stage == if t.results@.len() < s.todo@.len() {
                Stage::Remove
            } else {
                Stage::Done
            }
            &&& t.rows == s.rows && t.prs == s.prs && t.judged == s.judged && t.todo == s.todo
                && t.landed == s.landed
            &&& (t.yes, t.force, t.non_interactive) == (s.yes, s.force, s.non_interactive)
        },
        _ => t == s,
    }
}

impl Sweeping {
    /// Judges every row.
    fn judge(self) -> (r: Sweeping)
        requires
            self.results@.len() == 0,
        ensures
            is_judged(self, self.landed@, r),
            r.valid(),
    {
        let mut s = self;
        s.judged = sweep::plan(&s.rows, &s.prs, s.landed.as_slice(), s.force);
        s.todo = removal::candidates(&s.judged);
        s.stage = if s.todo.len() == 0 {
            Stage::Done
        } else {
            match removal::confirmation(s.yes, s.non_interactive) {
                Ok(true) => Stage::Confirm,
                Ok(false) => Stage::Remove,
                Err(_) => Stage::Refused,
            }
        };
        s
    }

    /// Takes what came of the request.
    pub fn reply(self, reply: SweepReply) -> (r: Sweeping)
        requires
            self.valid(),
        ensures
            follows(self, reply, r),
            r.valid(),
    {
        let mut s = self;
        match (s.stage, reply) {
            (Stage::Fetch, SweepReply::Fetched(_)) => {
                s.stage = Stage::Load;
                s
            },
            (Stage::Load, SweepReply::Prs(prs)) => {
                s.prs = prs;
                s.stage = Stage::Probe;
                s
            },
            (Stage::Probe, SweepReply::Upstream(there)) => {
                if there && s.rows.len() > s.landed.len() {
                    s.stage = Stage::Land;
                    s
                } else {
                    s.judge()
                }
            },
            (Stage::Land, SweepReply::Landed(b)) => {
                s.landed.push(b);
                if s.landed.len() < s.rows.len() {
                    s
                } else {
                    s.judge()
                }
            },
            (Stage::Confirm, SweepReply::Answer(yes)) => {
                s.stage = if yes && s.results.len() < s.todo.len() {
                    Stage::Remove
                } else {
                    Stage::Done
                };
                s
            },
            (Stage::Remove, SweepReply::Removed(b)) => {
                s.results.push(b);
                if s.results.len() >= s.todo.len() {
                    s.stage = Stage::Done;
                }
                s
            },
            _ => s,
        }
    }
}

/// Whatever is asked to be removed was judged so: it is not the main worktree,
/// its pull request is not open, and without force nothing blocks it.
pub proof fn only_finished_worktrees_are_removed(s: Sweeping, landed: Seq<bool>, t: Sweeping, k: int)
    requires
        is_judged(s, landed, t),
        t.valid(),
        0 <= k < t.todo@.len(),
    ensures
        ({
            let j = t.judged@[t.todo@[k] as int];
            let w = s.rows.deep_view()[j.row as int];
            let up = j.row < landed.len() && landed[j.row as int];
            &&& !w.is_main
            &&& j.pr is Some ==> j.pr.deep_view()->0.state != "OPEN"@
            &&& sweep::why(j.pr.deep_view(), up) is Some
            &&& sweep::blocked(w, up, s.force).len() == 0
        }),
{
    let i = t.todo@[k] as int;
    assert(t.judged@[i].verdict is Sweep);
    assert(sweep::judged(t.judged@[i], s.rows.deep_view(), s.prs@, landed, s.force));
}

/// What is known of the remote is brought up to date before anything is judged:
/// a sweep that is to fetch does so before it loads pull requests, and every
/// stage after that comes later.
pub proof fn fetch_comes_first(s: Sweeping, reply: SweepReply, t: Sweeping)
    requires
        follows(s, reply, t),
        s.stage == Stage::Fetch,
    ensures
        if reply is Fetched {
            t.stage == Stage::Load
        } else {
            t == s
        },
{
}

/// Nothing is removed unconfirmed: a removal begins only where it was confirmed
/// beforehand, or where the user said yes.
pub proof fn removals_are_confirmed(s: Sweeping, reply: SweepReply, t: Sweeping)
    requires
        follows(s, reply, t),
        s.stage != Stage::Remove,
        t.stage == Stage::Remove,
    ensures
        s.yes || s.stage == Stage::Confirm && reply == SweepReply::Answer(true),
{
}

/// A sweep that is refused stays so: no reply leads to a removal.
pub proof fn refusal_is_final(s: Sweeping, reply: SweepReply, t: Sweeping)
    requires
        follows(s, reply, t),
        s.stage == Stage::Refused,
    ensures
        t == s,
{
}

} // verus!
