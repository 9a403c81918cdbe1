//! What is done with every backend of a repository: pruning and fetching. The
//! failure of one does not keep the others from their turn.

use crate::process;
use crate::strings;
use crate::text;
use crate::vcs::{self, Kind};
use vstd::prelude::*;
use vstd::string::*;

verus! {

/// What is done with every backend.
#[derive(Debug, Clone, Copy, PartialEq, Eq, Structural)]
pub enum Job {
    Prune,
    Fetch,
}

/// The word for it.
pub open spec fn word(job: Job) -> Seq<char> {
    match job {
        Job::Prune => "prune"@,
        Job::Fetch => "fetch"@,
    }
}

/// What the user is told where there is nothing to tell.
pub open spec fn quiet(job: Job) -> Seq<char> {
    match job {
        Job::Prune => "nothing to prune"@,
        Job::Fetch => "fetched (nothing changed)"@,
    }
}

/// What came of it with one backend.
#[derive(Debug, PartialEq, Eq)]
pub struct Turn {
    pub kind: Kind,
    pub result: Result<String, String>,
}

/// What a [`Turn`] stands for.
pub struct TurnView {
    pub kind: Kind,
    pub result: Result<Seq<char>, Seq<char>>,
}

impl DeepView for Turn {
    type V = TurnView;

    open spec fn deep_view(&self) -> TurnView {
        TurnView { kind: self.kind, result: process::result_view(self.result) }
    }
}

/// A line for the user, on standard error where it tells of a failure.
#[derive(Debug, PartialEq, Eq)]
pub struct Line {
    pub error: bool,
    pub text: String,
}

/// What a [`Line`] stands for.
pub struct LineView {
    pub error: bool,
    pub text: Seq<char>,
}

impl DeepView for Line {
    type V = LineView;

    open spec fn deep_view(&self) -> LineView {
        LineView { error: self.error, text: self.text@ }
    }
}

/// The backend of a line.
pub open spec fn tag(kind: Kind) -> Seq<char> {
    "["@ + vcs::short(kind) + "] "@
}

/// What is told of one backend's turn: what it had to show, marked with the
/// backend where there are several; or its failure.
pub open spec fn told(job: Job, t: TurnView, multi: bool) -> Seq<LineView> {
    match t.result {
        Ok(out) => if text::trim(out).len() == 0 {
            seq![]
        } else if multi {
            seq![LineView { error: false, text: tag(t.kind) + text::trim(out) }]
        } else {
            seq![LineView { error: false, text: text::trim(out) }]
        },
        Err(e) => seq![
            LineView { error: true, text: tag(t.kind) + word(job) + " failed: "@ + e },
        ],
    }
}

/// What is told of all turns.
pub open spec fn told_all(job: Job, turns: Seq<TurnView>, multi: bool) -> Seq<LineView>
    decreases turns.len(),
{
    if turns.len() == 0 {
        seq![]
    } else {
        told_all(job, turns.drop_last(), multi) + told(job, turns.last(), multi)
    }
}

/// Some turn went well.
pub open spec fn any_good(turns: Seq<TurnView>) -> bool {
    exists|i: int| 0 <= i < turns.len() && (#[trigger] turns[i]).result is Ok
}

/// Some turn failed.
pub open spec fn any_bad(turns: Seq<TurnView>) -> bool {
    exists|i: int| 0 <= i < turns.len() && (#[trigger] turns[i]).result is Err
}

/// What the user is told: what there is to tell of each turn, or else that there
/// is nothing.
pub open spec fn report_lines(job: Job, turns: Seq<TurnView>, multi: bool) -> Seq<LineView> {
    let lines = told_all(job, turns, multi);
    if lines.len() == 0 {
        seq![LineView { error: false, text: quiet(job) }]
    } else {
        lines
    }
}

/// The line that tells of one backend's turn, if there is one.
fn line_of(job: Job, t: &Turn, multi: bool) -> (r: Option<Line>)
    ensures
        match r {
            Some(l) => told(job, t.deep_view(), multi) == seq![l.deep_view()],
            None => told(job, t.deep_view(), multi).len() == 0,
        },
{
    match &t.result {
        Ok(out) => {
            let trimmed = strings::trim(out.as_str());
            if trimmed.unicode_len() == 0 {
                return None;
            }
            if !multi {
                return Some(Line { error: false, text: trimmed.to_string() });
            }
            let mut s = "[".to_string();
            s.append(vcs::kind_short(t.kind));
            s.append("] ");
            s.append(trimmed);
            Some(Line { error: false, text: s })
        },
        Err(e) => {
            let mut s = "[".to_string();
            s.append(vcs::kind_short(t.kind));
            s.append("] ");
            s.append(
                match job {
                    Job::Prune => "prune",
                    Job::Fetch => "fetch",
                },
            );
            s.append(" failed: ");
            s.append(e.as_str());
            Some(Line { error: true, text: s })
        },
    }
}

/// Tells the user what came of it, and whether it counts as a failure: it does
/// where it failed with every backend.
pub fn report(job: Job, turns: &Vec<Turn>, multi: bool) -> (r: (Vec<Line>, Result<(), String>))
    ensures
        r.0.deep_view() == report_lines(job, turns.deep_view(), multi),
        match r.1 {
            Ok(_) => any_good(turns.deep_view()) || !any_bad(turns.deep_view()),
            Err(e) => !any_good(turns.deep_view()) && any_bad(turns.deep_view()) && e@ == word(job)
                + " failed on every backend"@,
        },
{
    let ghost all = turns.deep_view();
    let mut lines: Vec<Line> = Vec::new();
    let mut good = false;
    let mut bad = false;
    let mut i: usize = 0;
    proof {
        assert(lines.deep_view() =~= told_all(job, all.take(0), multi));
    }
    while i < turns.len()
        invariant
            i <= turns@.len(),
            all == turns.deep_view(),
            lines.deep_view() == told_all(job, all.take(i as int), multi),
            good == any_good(all.take(i as int)),
            bad == any_bad(all.take(i as int)),
        decreases turns@.len() - i,
    {
        let t = &turns[i];
        let ghost before = lines.deep_view();
        let ghost next = all.take(i + 1);
        let ghost head = all.take(i as int);
        proof {
            assert(next.drop_last() =~= head);
            assert(next.last() == t.deep_view());
            assert(next[i as int] == t.deep_view());
            assert forall|j: int| 0 <= j < i implies next[j] == head[j] by {}
            if good {
                let k = choose|k: int| 0 <= k < head.len() && (#[trigger] head[k]).result is Ok;
                assert(next[k].result is Ok);
            }
            if bad {
                let k = choose|k: int| 0 <= k < head.len() && (#[trigger] head[k]).result is Err;
                assert(next[k].result is Err);
            }
            if any_good(next) && !good {
                let k = choose|k: int| 0 <= k < next.len() && (#[trigger] next[k]).result is Ok;
                if k < i {
                    assert(head[k].result is Ok);
                }
            }
            if any_bad(next) && !bad {
                let k = choose|k: int| 0 <= k < next.len() && (#[trigger] next[k]).result is Err;
                if k < i {
                    assert(head[k].result is Err);
                }
            }
        }
        match &t.result {
            Ok(_) => {
                good = true;
            },
            Err(_) => {
                bad = true;
            },
        }
        match line_of(job, t, multi) {
            Some(l) => {
                lines.push(l);
                proof {
                    assert(lines.deep_view() =~= before + seq![l.deep_view()]);
                }
            },
            None => {
                proof {
                    assert(before + told(job, t.deep_view(), multi) =~= before);
                }
            },
        }
        i = i + 1;
    }
    proof {
        assert(all.take(i as int) =~= all);
        assert(lines.deep_view().len() == lines@.len());
    }
    if lines.len() == 0 {
        let text = match job {
            Job::Prune => "nothing to prune",
            Job::Fetch => "fetched (nothing changed)",
        };
        lines.push(Line { error: false, text: text.to_string() });
        proof {
            assert(lines.deep_view() =~= seq![LineView { error: false, text: quiet(job) }]);
        }
    }
    if bad && !good {
        let mut e = match job {
            Job::Prune => "prune",
            Job::Fetch => "fetch",
        }.to_string();
        e.append(" failed on every backend");
        return (lines, Err(e));
    }
    (lines, Ok(()))
}

/// Whatever failed is told: a turn that failed has a line on standard error, and
/// what is told where there is nothing to tell is never told beside it.
pub proof fn failures_are_told(job: Job, turns: Seq<TurnView>, multi: bool, i: int)
    requires
        0 <= i < turns.len(),
        turns[i].result is Err,
    ensures
        report_lines(job, turns, multi).contains(
            (LineView {
                error: true,
                text: tag(turns[i].kind) + word(job) + " failed: "@ + turns[i].result->Err_0,
            }),
        ),
        report_lines(job, turns, multi) == told_all(job, turns, multi),
    decreases turns.len(),
{
    let line = LineView {
        error: true,
        text: tag(turns[i].kind) + word(job) + " failed: "@ + turns[i].result->Err_0,
    };
    let head = told_all(job, turns.drop_last(), multi);
    let all = told_all(job, turns, multi);
    if i == turns.len() - 1 {
        assert(all.last() == line);
    } else {
        failures_are_told(job, turns.drop_last(), multi, i);
        let k = choose|k: int| 0 <= k < head.len() && head[k] == line;
        assert(all[k] == line);
    }
}

} // verus!
