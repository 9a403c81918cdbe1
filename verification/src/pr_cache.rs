//! Pull requests by branch: a cache that is refreshed through `gh`, and the
//! lookup of the pull request that belongs to a worktree.
//!
//! GitHub only. For any other host, and where `gh` cannot be used, there are
//! simply no pull requests.

use crate::paths;
use crate::process::{self, Action, ActionView, Reply, ReplyView, Step, StepView};
use crate::strings;
use crate::text;
use crate::user_dirs;
use crate::vcs::{Worktree, WorktreeView};
use vstd::prelude::*;
use vstd::string::*;

verus! {

/// One pull request.
#[derive(Debug, PartialEq, Eq)]
pub struct PrInfo {
    pub number: u64,
    /// `OPEN`, `MERGED` or `CLOSED`, as `gh` has it.
    pub state: String,
    /// The branch that it wants merged.
    pub head_ref_name: String,
}

/// What a [`PrInfo`] stands for.
#[verifier::ext_equal]
pub struct PrInfoView {
    pub number: u64,
    pub state: Seq<char>,
    pub head_ref_name: Seq<char>,
}

impl DeepView for PrInfo {
    type V = PrInfoView;

    open spec fn deep_view(&self) -> PrInfoView {
        PrInfoView {
            number: self.number,
            state: self.state@,
            head_ref_name: self.head_ref_name@,
        }
    }
}

impl Clone for PrInfo {
    fn clone(&self) -> (r: PrInfo)
        ensures
            r.deep_view() == self.deep_view(),
    {
        PrInfo {
            number: self.number,
            state: self.state.clone(),
            head_ref_name: self.head_ref_name.clone(),
        }
    }
}

/// What is kept on disk between runs.
#[derive(Debug, PartialEq, Eq)]
pub struct CacheFile {
    /// When it was fetched, in seconds since the Unix epoch.
    pub fetched_at: u64,
    pub prs: Vec<PrInfo>,
}

/// What a [`CacheFile`] stands for.
pub struct CacheFileView {
    pub fetched_at: u64,
    pub prs: Seq<PrInfoView>,
}

impl DeepView for CacheFile {
    type V = CacheFileView;

    open spec fn deep_view(&self) -> CacheFileView {
        CacheFileView { fetched_at: self.fetched_at, prs: self.prs.deep_view() }
    }
}

/// How a state ranks: open before merged before closed before anything else.
pub open spec fn rank(state: Seq<char>) -> nat {
    if state == "OPEN"@ {
        0
    } else if state == "MERGED"@ {
        1
    } else if state == "CLOSED"@ {
        2
    } else {
        3
    }
}

/// How a state ranks.
pub fn state_rank(state: &str) -> (r: u8)
    ensures
        r == rank(state@),
{
    if strings::same(state, "OPEN") {
        0
    } else if strings::same(state, "MERGED") {
        1
    } else if strings::same(state, "CLOSED") {
        2
    } else {
        3
    }
}

/// The pull request that stands for a branch: the best-ranked of those that
/// want it merged, and of equally ranked ones the first.
pub open spec fn best(prs: Seq<PrInfoView>, branch: Seq<char>) -> Option<PrInfoView>
    decreases prs.len(),
{
    if prs.len() == 0 {
        None
    } else {
        let before = best(prs.drop_last(), branch);
        let pr = prs.last();
        if pr.head_ref_name != branch {
            before
        } else if before is Some && rank(before->0.state) <= rank(pr.state) {
            before
        } else {
            Some(pr)
        }
    }
}

/// The pull requests by branch.
pub open spec fn by_branch(prs: Seq<PrInfoView>) -> Map<Seq<char>, PrInfoView> {
    Map::new(|b: Seq<char>| best(prs, b) is Some, |b: Seq<char>| best(prs, b)->0)
}

/// The first entry for a branch.
pub open spec fn entry(prs: Seq<PrInfoView>, branch: Seq<char>) -> Option<PrInfoView>
    decreases prs.len(),
{
    if prs.len() == 0 {
        None
    } else if prs[0].head_ref_name == branch {
        Some(prs[0])
    } else {
        entry(prs.drop_first(), branch)
    }
}

/// No branch has two entries.
pub open spec fn distinct(prs: Seq<PrInfoView>) -> bool {
    forall|i: int, j: int|
        0 <= i < j < prs.len() ==> (#[trigger] prs[i]).head_ref_name != (
        #[trigger] prs[j]).head_ref_name
}

/// Pull requests by branch, at most one for each.
#[derive(Debug, PartialEq, Eq)]
pub struct PrIndex {
    entries: Vec<PrInfo>,
}

impl View for PrIndex {
    type V = Map<Seq<char>, PrInfoView>;

    closed spec fn view(&self) -> Map<Seq<char>, PrInfoView> {
        let e = self.entries.deep_view();
        Map::new(|b: Seq<char>| entry(e, b) is Some, |b: Seq<char>| entry(e, b)->0)
    }
}

/// Where the first entry for a branch stands, if anywhere.
proof fn entry_position(prs: Seq<PrInfoView>, branch: Seq<char>)
    ensures
        match entry(prs, branch) {
            Some(pr) => pr.head_ref_name == branch && exists|i: int|
                0 <= i < prs.len() && #[trigger] prs[i] == pr && forall|j: int|
                    0 <= j < i ==> (#[trigger] prs[j]).head_ref_name != branch,
            None => forall|i: int|
                0 <= i < prs.len() ==> (#[trigger] prs[i]).head_ref_name != branch,
        },
    decreases prs.len(),
{
    if prs.len() > 0 {
        if prs[0].head_ref_name == branch {
            assert(prs[0] == entry(prs, branch)->0);
        } else {
            let tail = prs.drop_first();
            entry_position(tail, branch);
            if entry(tail, branch) is Some {
                let pr = entry(tail, branch)->0;
                let i = choose|i: int|
                    0 <= i < tail.len() && #[trigger] tail[i] == pr && forall|j: int|
                        0 <= j < i ==> (#[trigger] tail[j]).head_ref_name != branch;
                assert(prs[i + 1] == pr);
                assert forall|j: int| 0 <= j < i + 1 implies (#[trigger] prs[j]).head_ref_name
                    != branch by {
                    if j > 0 {
                        assert(prs[j] == tail[j - 1]);
                    }
                }
            } else {
                assert forall|j: int| 0 <= j < prs.len() implies (#[trigger] prs[j]).head_ref_name
                    != branch by {
                    if j > 0 {
                        assert(prs[j] == tail[j - 1]);
                    }
                }
            }
        }
    }
}

/// An entry without an earlier one for its branch is the one found.
proof fn entry_at(prs: Seq<PrInfoView>, i: int)
    requires
        0 <= i < prs.len(),
        forall|j: int| 0 <= j < i ==> (#[trigger] prs[j]).head_ref_name != prs[i].head_ref_name,
    ensures
        entry(prs, prs[i].head_ref_name) == Some(prs[i]),
    decreases prs.len(),
{
    if i > 0 {
        let tail = prs.drop_first();
        assert(prs[0].head_ref_name != prs[i].head_ref_name);
        assert forall|j: int| 0 <= j < i - 1 implies (#[trigger] tail[j]).head_ref_name
            != tail[i - 1].head_ref_name by {
            assert(tail[j] == prs[j + 1]);
        }
        entry_at(tail, i - 1);
    }
}

/// Where the entry for a branch stands.
fn find_entry(entries: &Vec<PrInfo>, branch: &str) -> (r: Option<usize>)
    ensures
        match r {
            Some(i) => i < entries@.len() && entries@[i as int].head_ref_name@ == branch@ && entry(
                entries.deep_view(),
                branch@,
            ) == Some(entries@[i as int].deep_view()) && forall|j: int|
                0 <= j < i ==> (#[trigger] entries@[j]).head_ref_name@ != branch@,
            None => entry(entries.deep_view(), branch@) is None && forall|j: int|
                0 <= j < entries@.len() ==> (#[trigger] entries@[j]).head_ref_name@ != branch@,
        },
{
    let ghost e = entries.deep_view();
    let mut i: usize = 0;
    proof {
        assert(e.skip(0) =~= e);
    }
    while i < entries.len()
        invariant
            i <= entries@.len(),
            e == entries.deep_view(),
            entry(e, branch@) == entry(e.skip(i as int), branch@),
            forall|j: int| 0 <= j < i ==> (#[trigger] entries@[j]).head_ref_name@ != branch@,
        decreases entries@.len() - i,
    {
        proof {
            assert(e.skip(i as int)[0] == entries@[i as int].deep_view());
            assert(e.skip(i as int).drop_first() =~= e.skip(i + 1));
        }
        if strings::same(entries[i].head_ref_name.as_str(), branch) {
            return Some(i);
        }
        i = i + 1;
    }
    None
}

impl PrIndex {
    /// Each branch has at most one entry.
    #[verifier::type_invariant]
    spec fn one_each(&self) -> bool {
        distinct(self.entries.deep_view())
    }

    /// No pull requests.
    pub fn new() -> (r: PrIndex)
        ensures
            r@ == Map::<Seq<char>, PrInfoView>::empty(),
    {
        let r = PrIndex { entries: Vec::new() };
        proof {
            assert(r@ =~= Map::<Seq<char>, PrInfoView>::empty());
        }
        r
    }

    /// The pull request for a branch.
    pub fn get(&self, branch: &str) -> (r: Option<&PrInfo>)
        ensures
            r.deep_view() == if self@.dom().contains(branch@) {
                Some(self@[branch@])
            } else {
                None
            },
    {
        match find_entry(&self.entries, branch) {
            Some(i) => Some(&self.entries[i]),
            None => None,
        }
    }
}

/// Picks one pull request for each branch.
pub fn index_by_branch(prs: Vec<PrInfo>) -> (r: PrIndex)
    ensures
        r@ == by_branch(prs.deep_view()),
{
    let mut entries: Vec<PrInfo> = Vec::new();
    let ghost all = prs.deep_view();
    let mut i: usize = 0;
    while i < prs.len()
        invariant
            i <= prs@.len(),
            all == prs.deep_view(),
            distinct(entries.deep_view()),
            forall|b: Seq<char>| #[trigger]
                entry(entries.deep_view(), b) == best(all.take(i as int), b),
        decreases prs@.len() - i,
    {
        let pr = prs[i].clone();
        let ghost e = entries.deep_view();
        let ghost v = pr.deep_view();
        proof {
            assert(all.take(i + 1).drop_last() =~= all.take(i as int));
            assert(all.take(i + 1).last() == v);
        }
        match find_entry(&entries, pr.head_ref_name.as_str()) {
            None => {
                proof {
                    assert forall|j: int| 0 <= j < e.len() implies (#[trigger] e[j]).head_ref_name
                        != v.head_ref_name by {
                        assert(e[j].head_ref_name == entries@[j].head_ref_name@);
                    }
                }
                entries.push(pr);
                proof {
                    let f = entries.deep_view();
                    assert(f =~= e.push(v));
                    assert forall|b: Seq<char>| true implies #[trigger] entry(f, b) == if b
                        == v.head_ref_name {
                        Some(v)
                    } else {
                        entry(e, b)
                    } by {
                        entry_pushed(e, v, b);
                    }
                }
            },
            Some(k) => {
                let old_rank: u8 = state_rank(entries[k].state.as_str());
                if state_rank(pr.state.as_str()) < old_rank {
                    proof {
                        assert forall|j: int| 0 <= j < k implies (#[trigger] e[j]).head_ref_name
                            != v.head_ref_name by {
                            assert(e[j].head_ref_name == entries@[j].head_ref_name@);
                        }
                    }
                    entries.set(k, pr);
                    proof {
                        let f = entries.deep_view();
                        assert(f =~= e.update(k as int, v));
                        assert forall|b: Seq<char>| true implies #[trigger] entry(f, b) == if b
                            == v.head_ref_name {
                            Some(v)
                        } else {
                            entry(e, b)
                        } by {
                            entry_updated(e, k as int, v, b);
                        }
                        assert forall|a: int, b: int| 0 <= a < b < f.len() implies (
                        #[trigger] f[a]).head_ref_name != (#[trigger] f[b]).head_ref_name by {
                            assert(e[a].head_ref_name != e[b].head_ref_name);
                        }
                    }
                }
            },
        }
        i = i + 1;
    }
    let index = PrIndex { entries };
    proof {
        assert(all.take(i as int) =~= all);
        assert(index@ =~= by_branch(all));
    }
    index
}

proof fn entry_pushed(e: Seq<PrInfoView>, v: PrInfoView, b: Seq<char>)
    requires
        entry(e, v.head_ref_name) is None,
    ensures
        entry(e.push(v), b) == if b == v.head_ref_name {
            Some(v)
        } else {
            entry(e, b)
        },
    decreases e.len(),
{
    let f = e.push(v);
    if e.len() == 0 {
        assert(f[0] == v);
        assert(entry(f.drop_first(), b) is None);
    } else {
        assert(f.drop_first() =~= e.drop_first().push(v));
        entry_pushed(e.drop_first(), v, b);
    }
}

proof fn entry_updated(e: Seq<PrInfoView>, k: int, v: PrInfoView, b: Seq<char>)
    requires
        0 <= k < e.len(),
        e[k].head_ref_name == v.head_ref_name,
        forall|j: int| 0 <= j < k ==> (#[trigger] e[j]).head_ref_name != v.head_ref_name,
    ensures
        entry(e.update(k, v), b) == if b == v.head_ref_name {
            Some(v)
        } else {
            entry(e, b)
        },
    decreases e.len(),
{
    let f = e.update(k, v);
    if k == 0 {
        assert(f.drop_first() =~= e.drop_first());
    } else {
        let tail = e.drop_first();
        assert(f.drop_first() =~= tail.update(k - 1, v));
        assert(e[0].head_ref_name != v.head_ref_name);
        assert forall|j: int| 0 <= j < k - 1 implies (#[trigger] tail[j]).head_ref_name
            != v.head_ref_name by {
            assert(tail[j] == e[j + 1]);
        }
        entry_updated(tail, k - 1, v, b);
    }
}

/// The pull request that stands for a branch is one of those that want it
/// merged, none of them ranks better, and none of those before it ranks as well.
/// A branch that some pull request wants merged has one.
pub proof fn best_is_best_ranked(prs: Seq<PrInfoView>, branch: Seq<char>)
    ensures
        match best(prs, branch) {
            Some(pr) => {
                &&& pr.head_ref_name == branch
                &&& forall|i: int|
                    0 <= i < prs.len() && (#[trigger] prs[i]).head_ref_name == branch ==> rank(
                        pr.state,
                    ) <= rank(prs[i].state)
                &&& exists|k: int|
                    0 <= k < prs.len() && #[trigger] prs[k] == pr && forall|i: int|
                        0 <= i < k && (#[trigger] prs[i]).head_ref_name == branch ==> rank(pr.state)
                            < rank(prs[i].state)
            },
            None => forall|i: int|
                0 <= i < prs.len() ==> (#[trigger] prs[i]).head_ref_name != branch,
        },
    decreases prs.len(),
{
    if prs.len() > 0 {
        let head = prs.drop_last();
        best_is_best_ranked(head, branch);
        assert forall|i: int| 0 <= i < head.len() implies prs[i] == head[i] by {}
        assert(prs[prs.len() - 1] == prs.last());
        if best(prs, branch) is Some {
            let pr = best(prs, branch)->0;
            if best(head, branch) == Some(pr) {
                let k = choose|k: int|
                    0 <= k < head.len() && #[trigger] head[k] == pr && forall|i: int|
                        0 <= i < k && (#[trigger] head[i]).head_ref_name == branch ==> rank(pr.state)
                            < rank(head[i].state);
                assert(prs[k] == pr);
                assert forall|i: int|
                    0 <= i < k && (#[trigger] prs[i]).head_ref_name == branch implies rank(pr.state)
                    < rank(prs[i].state) by {
                    assert(prs[i] == head[i]);
                }
            } else {
                let n = prs.len() - 1;
                assert(prs[n] == pr);
                assert forall|i: int|
                    0 <= i < n && (#[trigger] prs[i]).head_ref_name == branch implies rank(pr.state)
                    < rank(prs[i].state) by {
                    assert(prs[i] == head[i]);
                }
            }
        }
    }
}

/// `s` with its slashes flattened to dashes.
pub open spec fn flat(s: Seq<char>) -> Seq<char> {
    s.map_values(
        |c: char|
            if c == '/' {
                '-'
            } else {
                c
            },
    )
}

/// Whether two names are the same once slashes are flattened to dashes.
fn same_flat(a: &str, b: &str) -> (r: bool)
    ensures
        r == (flat(a@) == flat(b@)),
{
    let x = strings::chars(a);
    let y = strings::chars(b);
    if x.len() != y.len() {
        proof {
            assert(flat(a@).len() != flat(b@).len());
        }
        return false;
    }
    let mut i: usize = 0;
    while i < x.len()
        invariant
            i <= x@.len(),
            x@ == a@,
            y@ == b@,
            x@.len() == y@.len(),
            forall|j: int| 0 <= j < i ==> #[trigger] flat(a@)[j] == flat(b@)[j],
        decreases x@.len() - i,
    {
        let c = if x[i] == '/' {
            '-'
        } else {
            x[i]
        };
        let d = if y[i] == '/' {
            '-'
        } else {
            y[i]
        };
        if c != d {
            proof {
                assert(flat(a@)[i as int] != flat(b@)[i as int]);
            }
            return false;
        }
        i = i + 1;
    }
    proof {
        assert(flat(a@) =~= flat(b@));
    }
    true
}

/// The pull request could be the worktree's: its branch is the worktree's
/// branch or name, but for slashes and dashes.
pub open spec fn matches_flat(w: WorktreeView, pr: PrInfoView) -> bool {
    ||| w.branch is Some && flat(w.branch->0) == flat(pr.head_ref_name)
    ||| flat(w.name) == flat(pr.head_ref_name)
}

/// `a` is to be preferred to `b`: better ranked, or as well ranked and older.
pub open spec fn preferred(a: PrInfoView, b: PrInfoView) -> bool {
    ||| rank(a.state) < rank(b.state)
    ||| rank(a.state) == rank(b.state) && a.number < b.number
}

/// `pr` is what the search without regard to slashes and dashes gives: none
/// only where none matches, else a match to which no other is preferred.
pub open spec fn found_flat(
    w: WorktreeView,
    prs: Map<Seq<char>, PrInfoView>,
    pr: Option<PrInfoView>,
) -> bool {
    match pr {
        Some(p) => {
            &&& prs.dom().contains(p.head_ref_name)
            &&& prs[p.head_ref_name] == p
            &&& matches_flat(w, p)
            &&& forall|b: Seq<char>| #[trigger]
                prs.dom().contains(b) && matches_flat(w, prs[b]) ==> !preferred(prs[b], p)
        },
        None => forall|b: Seq<char>| #[trigger]
            prs.dom().contains(b) ==> !matches_flat(w, prs[b]),
    }
}

/// `pr` is the worktree's: the one for its branch, else the one for its name,
/// else what is found without regard to slashes and dashes.
pub open spec fn found_for(
    w: WorktreeView,
    prs: Map<Seq<char>, PrInfoView>,
    pr: Option<PrInfoView>,
) -> bool {
    if w.branch is Some && prs.dom().contains(w.branch->0) {
        pr == Some(prs[w.branch->0])
    } else if prs.dom().contains(w.name) {
        pr == Some(prs[w.name])
    } else {
        found_flat(w, prs, pr)
    }
}

/// Whether a pull request could be the worktree's.
fn could_be(w: &Worktree, pr: &PrInfo) -> (r: bool)
    ensures
        r == matches_flat(w.deep_view(), pr.deep_view()),
{
    let by_branch = match &w.branch {
        Some(b) => same_flat(b.as_str(), pr.head_ref_name.as_str()),
        None => false,
    };
    by_branch || same_flat(w.name.as_str(), pr.head_ref_name.as_str())
}

/// Whether `a` is to be preferred to `b`.
fn prefer(a: &PrInfo, b: &PrInfo) -> (r: bool)
    ensures
        r == preferred(a.deep_view(), b.deep_view()),
{
    let x: u8 = state_rank(a.state.as_str());
    let y: u8 = state_rank(b.state.as_str());
    x < y || (x == y && a.number < b.number)
}

/// Looks for a worktree's pull request without regard to slashes and dashes.
pub fn lookup_normalized<'a>(w: &Worktree, prs: &'a PrIndex) -> (r: Option<&'a PrInfo>)
    ensures
        found_flat(w.deep_view(), prs@, r.deep_view()),
{
    let ghost e = prs.entries.deep_view();
    let ghost v = w.deep_view();
    let mut best_at: Option<usize> = None;
    let mut i: usize = 0;
    while i < prs.entries.len()
        invariant
            i <= prs.entries@.len(),
            e == prs.entries.deep_view(),
            v == w.deep_view(),
            match best_at {
                Some(k) => k < i && matches_flat(v, e[k as int]) && forall|j: int|
                    0 <= j < i && matches_flat(v, #[trigger] e[j]) ==> !preferred(
                        e[j],
                        e[k as int],
                    ),
                None => forall|j: int| 0 <= j < i ==> !matches_flat(v, #[trigger] e[j]),
            },
        decreases prs.entries@.len() - i,
    {
        let pr = &prs.entries[i];
        proof {
            assert(e[i as int] == pr.deep_view());
        }
        if could_be(w, pr) {
            best_at = match best_at {
                None => Some(i),
                Some(k) => {
                    if prefer(pr, &prs.entries[k]) {
                        Some(i)
                    } else {
                        Some(k)
                    }
                },
            };
        }
        i = i + 1;
    }
    proof {
        use_type_invariant(prs);
        assert forall|b: Seq<char>| #[trigger] prs@.dom().contains(b) implies exists|j: int|
            0 <= j < e.len() && #[trigger] e[j] == prs@[b] by {
            entry_position(e, b);
        }
    }
    match best_at {
        Some(k) => {
            proof {
                entry_at(e, k as int);
            }
            Some(&prs.entries[k])
        },
        None => None,
    }
}

/// Looks for a worktree's pull request.
pub fn lookup_for_worktree<'a>(w: &Worktree, prs: &'a PrIndex) -> (r: Option<&'a PrInfo>)
    ensures
        found_for(w.deep_view(), prs@, r.deep_view()),
{
    if let Some(branch) = &w.branch {
        if let Some(pr) = prs.get(branch.as_str()) {
            return Some(pr);
        }
    }
    if let Some(pr) = prs.get(w.name.as_str()) {
        return Some(pr);
    }
    lookup_normalized(w, prs)
}

/// The page of a pull request.
pub open spec fn page(owner: Seq<char>, repo: Seq<char>, number: nat) -> Seq<char> {
    "https://github.com/"@ + owner + "/"@ + repo + "/pull/"@ + text::decimal(number)
}

/// The URL of a pull request's page. Only `github.com` is ever asked for pull
/// requests, so the host makes no difference.
pub fn pr_url(host: Option<&str>, owner: &str, repo: &str, number: u64) -> (r: String)
    ensures
        r@ == page(owner@, repo@, number as nat),
{
    let mut s = "https://github.com/".to_string();
    s.append(owner);
    s.append("/");
    s.append(repo);
    s.append("/pull/");
    s.append(strings::decimal(number).as_str());
    s
}

/// `text` as a terminal hyperlink to `url`: the escape sequence that opens the
/// link, the text, and the sequence that closes it.
pub open spec fn hyperlink(url: Seq<char>, text: Seq<char>) -> Seq<char> {
    "\x1b]8;;"@ + url + "\x1b\\"@ + text + "\x1b]8;;\x1b\\"@
}

/// Makes `text` a terminal hyperlink to `url`.
pub fn osc8_hyperlink(url: &str, text: &str) -> (r: String)
    ensures
        r@ == hyperlink(url@, text@),
{
    let mut s = "\x1b]8;;".to_string();
    s.append(url);
    s.append("\x1b\\");
    s.append(text);
    s.append("\x1b]8;;\x1b\\");
    s
}

/// What was fetched at `fetched_at` is out of date at `now`.
pub open spec fn out_of_date(now: nat, fetched_at: nat, ttl_hours: nat) -> bool {
    now > fetched_at + ttl_hours * 3600
}

/// Whether the cache is too old.
pub fn is_stale(now: u64, fetched_at: u64, ttl_hours: u64) -> (r: bool)
    requires
        ttl_hours * 3600 <= u64::MAX,
    ensures
        r == out_of_date(now as nat, fetched_at as nat, ttl_hours as nat),
{
    now.saturating_sub(fetched_at) > ttl_hours * 3600
}

/// Asks `gh` for the pull requests.
pub open spec fn gh_command(owner: Seq<char>, repo: Seq<char>, dir: Seq<char>) -> ActionView {
    process::ask(
        "gh"@,
        seq![
            "pr"@,
            "list"@,
            "--repo"@,
            owner + "/"@ + repo,
            "--state"@,
            "all"@,
            "--limit"@,
            "200"@,
            "--json"@,
            "number,state,headRefName"@,
            "--jq"@,
            "map({number, state, head_ref_name: .headRefName})"@,
        ],
        dir,
    )
}

/// Asks `gh` for the pull requests. The repository is named, so that `gh` does
/// not look for a `.git` that a workspace does not have.
fn ask_gh(owner: &str, repo: &str, dir: &str) -> (r: Action)
    ensures
        r.deep_view() == gh_command(owner@, repo@, dir@),
{
    let mut slug = owner.to_string();
    slug.append("/");
    slug.append(repo);
    let args = [
        "pr",
        "list",
        "--repo",
        slug.as_str(),
        "--state",
        "all",
        "--limit",
        "200",
        "--json",
        "number,state,headRefName",
        "--jq",
        "map({number, state, head_ref_name: .headRefName})",
    ];
    proof {
        assert(args.deep_view() =~= seq![
            "pr"@,
            "list"@,
            "--repo"@,
            owner@ + "/"@ + repo@,
            "--state"@,
            "all"@,
            "--limit"@,
            "200"@,
            "--json"@,
            "number,state,headRefName"@,
            "--jq"@,
            "map({number, state, head_ref_name: .headRefName})"@,
        ]);
    }
    process::asking("gh", &args, dir)
}

/// Asking `gh` for the pull requests: what it printed, or how it failed.
pub open spec fn fetching(
    owner: Seq<char>,
    repo: Seq<char>,
    dir: Seq<char>,
    replies: Seq<ReplyView>,
) -> StepView<Seq<char>> {
    if replies.len() == 0 {
        StepView::Do(gh_command(owner, repo, dir))
    } else {
        match process::output(replies[0]) {
            None => StepView::Done(
                Err("failed to spawn `gh` (install GitHub CLI to enable PR display)"@),
            ),
            Some(o) => if o.success {
                StepView::Done(Ok(o.stdout))
            } else {
                StepView::Done(Err("gh pr list failed: "@ + text::trim(o.stderr)))
            },
        }
    }
}

/// Asks `gh` for the pull requests, as JSON.
pub fn fetch_via_gh(owner: &str, repo: &str, dir: &str, replies: &[Reply]) -> (r: Step<String>)
    ensures
        r.deep_view() == fetching(owner@, repo@, dir@, replies.deep_view()),
{
    if replies.len() == 0 {
        return Step::Do(ask_gh(owner, repo, dir));
    }
    match process::output_of(&replies[0]) {
        None => Step::Done(
            Err("failed to spawn `gh` (install GitHub CLI to enable PR display)".to_string()),
        ),
        Some(o) => {
            if o.success {
                return Step::Done(Ok(o.stdout.clone()));
            }
            let mut e = "gh pr list failed: ".to_string();
            e.append(strings::trim(o.stderr.as_str()));
            Step::Done(Err(e))
        },
    }
}

/// Where the cache of a repository lies below the cache directory.
pub open spec fn cache_file(
    base: Seq<char>,
    owner: Seq<char>,
    repo: Seq<char>,
    windows: bool,
) -> Seq<char> {
    paths::join(
        paths::join(paths::join(base, "renri"@, windows), owner + "__"@ + repo, windows),
        "pr-cache.json"@,
        windows,
    )
}

/// Where the cache of a repository lies below the cache directory.
pub fn cache_path_in(base: &str, owner: &str, repo: &str, windows: bool) -> (r: String)
    ensures
        r@ == cache_file(base@, owner@, repo@, windows),
{
    let mut name = owner.to_string();
    name.append("__");
    name.append(repo);
    let dir = paths::joined(base, "renri", windows);
    let dir = paths::joined(dir.as_str(), name.as_str(), windows);
    paths::joined(dir.as_str(), "pr-cache.json", windows)
}

/// Where the cache of a repository lies; none where the user has no cache
/// directory.
pub fn cache_path(owner: &str, repo: &str, windows: bool) -> (r: Option<String>)
    ensures
        r is Some ==> exists|base: Seq<char>| r->0@ == #[trigger] cache_file(base, owner@, repo@, windows),
{
    let dir = user_dirs::cache();
    let base: Option<&str> = match &dir {
        Some(d) => Some(d.as_str()),
        None => None,
    };
    cache_path_for(base, owner, repo, windows)
}

/// Where the cache of a repository lies, given the user's cache directory; none
/// without one, and only then.
pub fn cache_path_for(
    base: Option<&str>,
    owner: &str,
    repo: &str,
    windows: bool,
) -> (r: Option<String>)
    ensures
        r.deep_view() == match base {
            Some(b) => Some(cache_file(b@, owner@, repo@, windows)),
            None => None,
        },
{
    match base {
        Some(b) => Some(cache_path_in(b, owner, repo, windows)),
        None => None,
    }
}

/// What to do about the pull requests of a repository.
#[derive(Debug, PartialEq, Eq)]
pub enum Load {
    /// Ask for them first; see [`fetch_via_gh`].
    Fetch,
    /// They are known. What is to be saved comes with them, if anything.
    Ready(PrIndex, Option<CacheFile>),
}

/// The cache is to be refreshed: by force, because there is none, or because it
/// is out of date.
pub open spec fn needs_refresh(
    cached: Option<CacheFileView>,
    now: nat,
    ttl_hours: nat,
    force: bool,
) -> bool {
    match cached {
        Some(c) => force || out_of_date(now, c.fetched_at as nat, ttl_hours),
        None => true,
    }
}

/// What loading comes to for a repository. For a host other than `github.com`,
/// and without a place for the cache, there are no pull requests. `fetched` is `None` until they were asked for, and
/// then what came of that, `Some(None)` where it failed.
pub open spec fn loaded(
    r: Load,
    host: Option<Seq<char>>,
    has_cache: bool,
    cached: Option<CacheFileView>,
    now: u64,
    ttl_hours: u64,
    force: bool,
    fetched: Option<Option<Seq<PrInfoView>>>,
) -> bool {
    let here = host == Some("github.com"@) && has_cache;
    let refresh = needs_refresh(cached, now as nat, ttl_hours as nat, force);
    match r {
        Load::Fetch => here && refresh && fetched is None,
        Load::Ready(index, save) => if !here {
            index@ == Map::<Seq<char>, PrInfoView>::empty() && save is None
        } else if refresh && fetched is Some && fetched->0 is Some {
            index@ == by_branch(fetched->0->0) && save.deep_view() == Some(
                (CacheFileView { fetched_at: now, prs: fetched->0->0 }),
            )
        } else {
            &&& !(refresh && fetched is None)
            &&& save is None
            &&& index@ == match cached {
                Some(c) => by_branch(c.prs),
                None => Map::<Seq<char>, PrInfoView>::empty(),
            }
        },
    }
}

/// Loads the pull requests of a repository, by branch: from the cache, unless
/// that is to be refreshed and they can be fetched.
///
/// `cached` is what the cache holds, if it can be read, and `has_cache` says
/// whether there is a place for one.
pub fn load_or_refresh(
    host: Option<&str>,
    has_cache: bool,
    cached: Option<CacheFile>,
    now: u64,
    ttl_hours: u64,
    force: bool,
    fetched: Option<Option<Vec<PrInfo>>>,
) -> (r: Load)
    requires
        ttl_hours * 3600 <= u64::MAX,
    ensures
        loaded(
            r,
            host.deep_view(),
            has_cache,
            cached.deep_view(),
            now,
            ttl_hours,
            force,
            fetched.deep_view(),
        ),
{
    if !has_cache || !strings::same_option(host, Some("github.com")) {
        return Load::Ready(PrIndex::new(), None);
    }
    let refresh = match &cached {
        Some(c) => force || is_stale(now, c.fetched_at, ttl_hours),
        None => true,
    };
    if refresh {
        match fetched {
            None => return Load::Fetch,
            Some(Some(prs)) => {
                let copy = copy_all(&prs);
                return Load::Ready(
                    index_by_branch(prs),
                    Some(CacheFile { fetched_at: now, prs: copy }),
                );
            },
            Some(None) => {},
        }
    }
    match cached {
        Some(c) => Load::Ready(index_by_branch(c.prs), None),
        None => Load::Ready(PrIndex::new(), None),
    }
}

/// Copies of all of them.
fn copy_all(prs: &Vec<PrInfo>) -> (r: Vec<PrInfo>)
    ensures
        r.deep_view() == prs.deep_view(),
{
    let mut out: Vec<PrInfo> = Vec::new();
    let mut i: usize = 0;
    while i < prs.len()
        invariant
            i <= prs@.len(),
            out.deep_view() == prs.deep_view().take(i as int),
        decreases prs@.len() - i,
    {
        let ghost before = out.deep_view();
        out.push(prs[i].clone());
        proof {
            assert(out.deep_view() =~= before.push(prs@[i as int].deep_view()));
            assert(out.deep_view() =~= prs.deep_view().take(i + 1));
        }
        i = i + 1;
    }
    proof {
        assert(out.deep_view() =~= prs.deep_view());
    }
    out
}

/// An exact match is never shadowed: the pull request for the worktree's branch
/// is taken where there is one, and else the one for its name.
pub proof fn exact_match_wins(
    w: WorktreeView,
    prs: Map<Seq<char>, PrInfoView>,
    pr: Option<PrInfoView>,
)
    requires
        found_for(w, prs, pr),
    ensures
        w.branch is Some && prs.dom().contains(w.branch->0) ==> pr == Some(prs[w.branch->0]),
        !(w.branch is Some && prs.dom().contains(w.branch->0)) && prs.dom().contains(w.name)
            ==> pr == Some(prs[w.name]),
{
}

/// What is found for a worktree does not depend on the order in which the pull
/// requests are gone through: where two answers are right, they are of one rank
/// and have one number.
pub proof fn lookup_is_settled(
    w: WorktreeView,
    prs: Map<Seq<char>, PrInfoView>,
    a: Option<PrInfoView>,
    b: Option<PrInfoView>,
)
    requires
        found_for(w, prs, a),
        found_for(w, prs, b),
    ensures
        a is Some == b is Some,
        a is Some ==> rank(a->0.state) == rank(b->0.state) && a->0.number == b->0.number,
{
    if a is Some {
        assert(prs.dom().contains(a->0.head_ref_name) || found_for(w, prs, Some(a->0)));
    }
    if b is Some {
        assert(prs.dom().contains(b->0.head_ref_name) || found_for(w, prs, Some(b->0)));
    }
}

/// What was fetched and saved is what is loaded from then on, until it is out of
/// date or a refresh is forced.
pub proof fn saved_pull_requests_are_loaded(
    first: PrIndex,
    saved: CacheFile,
    host: Option<Seq<char>>,
    cached: Option<CacheFileView>,
    now: u64,
    later: u64,
    ttl_hours: u64,
    force: bool,
    fetched: Option<Option<Seq<PrInfoView>>>,
    r: Load,
)
    requires
        loaded(
            Load::Ready(first, Some(saved)),
            host,
            true,
            cached,
            now,
            ttl_hours,
            force,
            fetched,
        ),
        !out_of_date(later as nat, now as nat, ttl_hours as nat),
        loaded(r, host, true, Some(saved.deep_view()), later, ttl_hours, false, None),
    ensures
        match r {
            Load::Ready(index, save) => index@ == first@ && save is None,
            Load::Fetch => false,
        },
{
}

} // verus!
