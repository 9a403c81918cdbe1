//! Whether a worktree's change is already upstream, told by its content.
//!
//! Names do not always settle it: a branch may be pushed under another name, or
//! never, and a detached worktree has none. `git cherry` compares patches, so it
//! finds a change that was squashed or picked. It also serves jj, whose store is
//! a git store at the workspace's root.
//!
//! Whatever goes wrong counts as not landed.

use crate::process::{self, ActionView, Reply, ReplyView, Step, StepView};
use crate::strings;
use crate::text;
use vstd::prelude::*;
use vstd::string::*;

verus! {

/// The references tried for upstream, in order: what the remote calls its
/// default branch, the usual names for it there, and then the local ones.
pub open spec fn candidates() -> Seq<Seq<char>> {
    seq![
        "refs/remotes/origin/HEAD"@,
        "refs/remotes/origin/main"@,
        "refs/remotes/origin/master"@,
        "refs/heads/main"@,
        "refs/heads/master"@,
    ]
}

/// A reference for upstream, and the repository it was found in.
#[derive(Debug, Clone, PartialEq, Eq)]
pub struct Probe {
    pub root: String,
    pub trunk: String,
}

/// What a [`Probe`] stands for.
pub struct ProbeView {
    pub root: Seq<char>,
    pub trunk: Seq<char>,
}

impl DeepView for Probe {
    type V = ProbeView;

    open spec fn deep_view(&self) -> ProbeView {
        ProbeView { root: self.root@, trunk: self.trunk@ }
    }
}

/// Asks whether a revision resolves.
pub open spec fn verify_command(root: Seq<char>, rev: Seq<char>) -> ActionView {
    process::ask("git"@, seq!["rev-parse"@, "--quiet"@, "--verify"@, rev], root)
}

/// Resolving a revision.
pub open spec fn resolving(root: Seq<char>, rev: Seq<char>, replies: Seq<ReplyView>) -> StepView<
    Option<Seq<char>>,
> {
    process::asking_line(
        "git"@,
        seq!["rev-parse"@, "--quiet"@, "--verify"@, rev],
        root,
        replies,
    )
}

/// Finding the first of `revs` that resolves.
pub open spec fn discovering(
    root: Seq<char>,
    revs: Seq<Seq<char>>,
    replies: Seq<ReplyView>,
) -> StepView<Option<ProbeView>>
    decreases revs.len(),
{
    if revs.len() == 0 {
        StepView::Done(Ok(None))
    } else if replies.len() == 0 {
        StepView::Do(verify_command(root, revs[0]))
    } else if process::answer(replies[0]) is Some {
        StepView::Done(Ok(Some(ProbeView { root, trunk: revs[0] })))
    } else {
        discovering(root, revs.drop_first(), replies.drop_first())
    }
}

/// What to strip from a reference to have it as a user would type it.
pub open spec fn short_ref(full: Seq<char>) -> Seq<char> {
    if "refs/remotes/"@.is_prefix_of(full) {
        full.skip("refs/remotes/"@.len() as int)
    } else if "refs/heads/"@.is_prefix_of(full) {
        full.skip("refs/heads/"@.len() as int)
    } else if "refs/"@.is_prefix_of(full) {
        full.skip("refs/"@.len() as int)
    } else {
        full
    }
}

/// A line of `git cherry` that says that the patch is upstream: a dash, a space
/// and more.
pub open spec fn is_upstream_line(line: Seq<char>) -> bool {
    line.len() >= 2 && line[0] == '-' && line[1] == ' '
}

/// Every line of `git cherry` that is not blank says that its patch is upstream.
pub open spec fn upstream(stdout: Seq<char>) -> bool {
    forall|i: int|
        #![trigger text::lines(stdout)[i]]
        0 <= i < text::lines(stdout).len() && text::trim(text::lines(stdout)[i]).len() > 0
            ==> is_upstream_line(text::trim(text::lines(stdout)[i]))
}

/// Finding out whether a commit has landed.
pub open spec fn landing(probe: ProbeView, commit: Seq<char>, replies: Seq<ReplyView>) -> StepView<
    bool,
> {
    if replies.len() == 0 {
        StepView::Do(process::ask("git"@, seq!["cherry"@, probe.trunk, commit], probe.root))
    } else {
        StepView::Done(
            Ok(
                process::succeeded(replies[0]) && upstream(process::output(replies[0])->0.stdout),
            ),
        )
    }
}

/// Resolves a revision; `None` where it does not resolve.
pub fn rev_parse(root: &str, rev: &str, replies: &[Reply]) -> (r: Step<Option<String>>)
    ensures
        r.deep_view() == resolving(root@, rev@, replies.deep_view()),
{
    let args = ["rev-parse", "--quiet", "--verify", rev];
    proof {
        assert(args.deep_view() =~= seq!["rev-parse"@, "--quiet"@, "--verify"@, rev@]);
    }
    process::ask_line("git", &args, root, replies)
}

impl Probe {
    /// Finds the reference for upstream, once for all worktrees. `None` where
    /// none of the candidates resolves; then nothing counts as landed.
    pub fn discover(root: &str, replies: &[Reply]) -> (r: Step<Option<Probe>>)
        ensures
            r.deep_view() == discovering(root@, candidates(), replies.deep_view()),
    {
        let revs = [
            "refs/remotes/origin/HEAD",
            "refs/remotes/origin/main",
            "refs/remotes/origin/master",
            "refs/heads/main",
            "refs/heads/master",
        ];
        let ghost all = candidates();
        let ghost rs = replies.deep_view();
        let mut i: usize = 0;
        proof {
            assert(all.skip(0) =~= all);
            assert(rs.skip(0) =~= rs);
        }
        while i < 5
            invariant
                i <= 5,
                i <= replies@.len(),
                all == candidates(),
                rs == replies.deep_view(),
                forall|j: int| 0 <= j < 5 ==> (#[trigger] revs@[j])@ == all[j],
                discovering(root@, all, rs) == discovering(
                    root@,
                    all.skip(i as int),
                    rs.skip(i as int),
                ),
            decreases 5 - i,
        {
            let rev: &str = revs[i];
            proof {
                assert(all.skip(i as int)[0] == rev@);
                assert(all.skip(i as int).drop_first() =~= all.skip(i + 1));
            }
            if i == replies.len() {
                return match rev_parse(root, rev, &[]) {
                    Step::Do(a) => Step::Do(a),
                    Step::Done(_) => Step::Done(Ok(None)),
                };
            }
            proof {
                assert(rs.skip(i as int)[0] == replies@[i as int].deep_view());
                assert(rs.skip(i as int).drop_first() =~= rs.skip(i + 1));
            }
            if process::answer_of(&replies[i]).is_some() {
                return Step::Done(
                    Ok(Some(Probe { root: root.to_string(), trunk: rev.to_string() })),
                );
            }
            i = i + 1;
        }
        proof {
            assert(all.skip(i as int) =~= seq![]);
        }
        Step::Done(Ok(None))
    }

    /// The reference for upstream as a user would type it.
    pub fn trunk(&self) -> (r: &str)
        ensures
            r@ == short_ref(self.trunk@),
    {
        if let Some(rest) = strings::strip_prefix(self.trunk.as_str(), "refs/remotes/") {
            return rest;
        }
        if let Some(rest) = strings::strip_prefix(self.trunk.as_str(), "refs/heads/") {
            return rest;
        }
        if let Some(rest) = strings::strip_prefix(self.trunk.as_str(), "refs/") {
            return rest;
        }
        self.trunk.as_str()
    }

    /// Whether all that `commit` adds to upstream is upstream already.
    pub fn landed(&self, commit: &str, replies: &[Reply]) -> (r: Step<bool>)
        ensures
            r.deep_view() == landing(self.deep_view(), commit@, replies.deep_view()),
    {
        if replies.len() == 0 {
            let args = ["cherry", self.trunk.as_str(), commit];
            proof {
                assert(args.deep_view() =~= seq!["cherry"@, self.trunk@, commit@]);
            }
            return Step::Do(process::asking("git", &args, self.root.as_str()));
        }
        match process::output_of(&replies[0]) {
            Some(o) => Step::Done(Ok(o.success && all_upstream(o.stdout.as_str()))),
            None => Step::Done(Ok(false)),
        }
    }
}

/// Whether every line that `git cherry` printed says that its patch is upstream.
/// Nothing at all means that the commit itself is.
pub fn all_upstream(stdout: &str) -> (r: bool)
    ensures
        r == upstream(stdout@),
{
    let lines = strings::lines(stdout);
    let ghost all = lines.deep_view();
    let mut i: usize = 0;
    while i < lines.len()
        invariant
            i <= lines@.len(),
            all == lines.deep_view(),
            all == text::lines(stdout@),
            forall|j: int|
                #![trigger all[j]]
                0 <= j < i && text::trim(all[j]).len() > 0 ==> is_upstream_line(
                    text::trim(all[j]),
                ),
        decreases lines@.len() - i,
    {
        let line = strings::trim(lines[i].as_str());
        proof {
            assert(all[i as int] == lines@[i as int]@);
        }
        let n: usize = line.unicode_len();
        if n > 0 && !(n >= 2 && line.get_char(0) == '-' && line.get_char(1) == ' ') {
            proof {
                assert(!is_upstream_line(text::trim(text::lines(stdout@)[i as int])));
            }
            return false;
        }
        i = i + 1;
    }
    true
}

/// A commit counts as landed only where `git cherry` ran, succeeded and marked
/// every patch as upstream.
pub proof fn landed_only_on_evidence(probe: ProbeView, commit: Seq<char>, reply: ReplyView)
    ensures
        landing(probe, commit, seq![reply]) == StepView::Done(Ok::<bool, Seq<char>>(true)) ==> {
            &&& process::output(reply) is Some
            &&& process::output(reply)->0.success
            &&& upstream(process::output(reply)->0.stdout)
        },
{
}

/// A probe compares against one of the candidates, and no candidate before it
/// resolved.
pub proof fn probe_takes_the_first_candidate(root: Seq<char>, replies: Seq<ReplyView>)
    ensures
        match discovering(root, candidates(), replies) {
            StepView::Done(Ok(Some(p))) => p.root == root && exists|i: int|
                0 <= i < candidates().len() && i < replies.len() && p.trunk
                    == #[trigger] candidates()[i] && process::answer(replies[i]) is Some
                    && forall|j: int|
                    0 <= j < i ==> process::answer(#[trigger] replies[j]) is None,
            StepView::Done(Ok(None)) => forall|j: int|
                0 <= j < candidates().len() ==> j < replies.len() && process::answer(
                    #[trigger] replies[j],
                ) is None,
            StepView::Done(Err(_)) => false,
            StepView::Do(a) => replies.len() < candidates().len() && a == verify_command(
                root,
                candidates()[replies.len() as int],
            ),
        },
{
    first_resolved(root, candidates(), replies);
}

proof fn first_resolved(root: Seq<char>, revs: Seq<Seq<char>>, replies: Seq<ReplyView>)
    ensures
        match discovering(root, revs, replies) {
            StepView::Done(Ok(Some(p))) => p.root == root && exists|i: int|
                0 <= i < revs.len() && i < replies.len() && p.trunk == #[trigger] revs[i]
                    && process::answer(replies[i]) is Some && forall|j: int|
                    0 <= j < i ==> process::answer(#[trigger] replies[j]) is None,
            StepView::Done(Ok(None)) => forall|j: int|
                0 <= j < revs.len() ==> j < replies.len() && process::answer(
                    #[trigger] replies[j],
                ) is None,
            StepView::Done(Err(_)) => false,
            StepView::Do(a) => replies.len() < revs.len() && a == verify_command(
                root,
                revs[replies.len() as int],
            ),
        },
    decreases revs.len(),
{
    if revs.len() > 0 && replies.len() > 0 {
        if process::answer(replies[0]) is Some {
            assert(discovering(root, revs, replies)->Done_0->Ok_0->0.trunk == revs[0]);
        } else {
            let r = revs.drop_first();
            let s = replies.drop_first();
            first_resolved(root, r, s);
            assert forall|j: int| 0 < j < replies.len() implies replies[j] == s[j - 1] by {}
            match discovering(root, r, s) {
                StepView::Done(Ok(Some(p))) => {
                    let i = choose|i: int|
                        0 <= i < r.len() && i < s.len() && p.trunk == #[trigger] r[i]
                            && process::answer(s[i]) is Some && forall|j: int|
                            0 <= j < i ==> process::answer(#[trigger] s[j]) is None;
                    assert(p.trunk == revs[i + 1]);
                    assert forall|j: int| 0 <= j < i + 1 implies process::answer(
                        #[trigger] replies[j],
                    ) is None by {
                        if j > 0 {
                            assert(replies[j] == s[j - 1]);
                        }
                    }
                },
                StepView::Done(Ok(None)) => {
                    assert forall|j: int| 0 <= j < revs.len() implies j < replies.len()
                        && process::answer(#[trigger] replies[j]) is None by {
                        if j > 0 {
                            assert(s[j - 1] == replies[j]);
                        }
                    }
                },
                _ => {},
            }
        }
    }
}

} // verus!
