//! Which worktree the user means: by name, or by asking.

use crate::strings;
use crate::text;
use crate::vcs::{Worktree, WorktreeView};
use vstd::prelude::*;
use vstd::string::*;

verus! {

/// Why no worktree could be picked.
#[derive(Debug, PartialEq, Eq)]
pub enum PickError {
    /// There are none.
    Empty,
    /// None was named, and asking is not allowed.
    NotInteractive,
    /// None matches what was named.
    NoMatch(String),
    /// Several match; their names come with it.
    Ambiguous(String, Vec<String>),
}

/// What a [`PickError`] stands for.
pub enum PickErrorView {
    Empty,
    NotInteractive,
    NoMatch(Seq<char>),
    Ambiguous(Seq<char>, Seq<Seq<char>>),
}

impl DeepView for PickError {
    type V = PickErrorView;

    open spec fn deep_view(&self) -> PickErrorView {
        match self {
            PickError::Empty => PickErrorView::Empty,
            PickError::NotInteractive => PickErrorView::NotInteractive,
            PickError::NoMatch(q) => PickErrorView::NoMatch(q@),
            PickError::Ambiguous(q, names) => PickErrorView::Ambiguous(q@, names.deep_view()),
        }
    }
}

/// The message for the user.
pub open spec fn complaint(e: PickErrorView) -> Seq<char> {
    match e {
        PickErrorView::Empty => "no worktrees to pick from"@,
        PickErrorView::NotInteractive => "--non-interactive set and no worktree was named"@,
        PickErrorView::NoMatch(q) => "no worktree matches `"@ + q + "`"@,
        PickErrorView::Ambiguous(q, names) => "`"@ + q + "` is ambiguous ("@ + text::decimal(
            names.len(),
        ) + " matches: "@ + text::join(names, ", "@) + "); be more specific"@,
    }
}

impl PickError {
    /// The message for the user.
    pub fn message(&self) -> (r: String)
        ensures
            r@ == complaint(self.deep_view()),
    {
        match self {
            PickError::Empty => "no worktrees to pick from".to_string(),
            PickError::NotInteractive =>
                "--non-interactive set and no worktree was named".to_string(),
            PickError::NoMatch(q) => {
                let mut s = "no worktree matches `".to_string();
                s.append(q.as_str());
                s.append("`");
                s
            },
            PickError::Ambiguous(q, names) => {
                let mut s = "`".to_string();
                s.append(q.as_str());
                s.append("` is ambiguous (");
                s.append(strings::decimal(names.len() as u64).as_str());
                s.append(" matches: ");
                s.append(strings::join(names, ", ").as_str());
                s.append("); be more specific");
                s
            },
        }
    }
}

/// The lower-case form of a text, by Unicode's rules.
pub uninterp spec fn lowercase(s: Seq<char>) -> Seq<char>;

/// `str::to_lowercase` of std: the lower-case form of a text, which depends on
/// the text alone.
#[verifier::external_body]
fn to_lower(s: &str) -> (r: String)
    ensures
        r@ == lowercase(s@),
{
    s.to_lowercase()
}

/// The names that a worktree is found by in lower case: its name and its
/// branch.
#[derive(Debug, PartialEq, Eq)]
pub struct Lowered {
    pub name: String,
    pub branch: Option<String>,
}

/// What a [`Lowered`] stands for.
pub struct LoweredView {
    pub name: Seq<char>,
    pub branch: Option<Seq<char>>,
}

impl DeepView for Lowered {
    type V = LoweredView;

    open spec fn deep_view(&self) -> LoweredView {
        LoweredView { name: self.name@, branch: self.branch.deep_view() }
    }
}

/// The names of a worktree in lower case.
pub open spec fn lowered(w: WorktreeView) -> LoweredView {
    LoweredView {
        name: lowercase(w.name),
        branch: match w.branch {
            Some(b) => Some(lowercase(b)),
            None => None,
        },
    }
}

/// `q` stands in the name or in the branch.
pub open spec fn is_hit(low: LoweredView, q: Seq<char>) -> bool {
    ||| text::contains(low.name, q)
    ||| low.branch is Some && text::contains(low.branch->0, q)
}

/// The rows in which `q` stands.
pub open spec fn hits(lows: Seq<LoweredView>, q: Seq<char>) -> Seq<int>
    decreases lows.len(),
{
    if lows.len() == 0 {
        seq![]
    } else if is_hit(lows.last(), q) {
        hits(lows.drop_last(), q).push(lows.len() - 1)
    } else {
        hits(lows.drop_last(), q)
    }
}

/// The first row with this name.
pub open spec fn first_named(rows: Seq<WorktreeView>, q: Seq<char>) -> Option<int>
    decreases rows.len(),
{
    if rows.len() == 0 {
        None
    } else if first_named(rows.drop_last(), q) is Some {
        first_named(rows.drop_last(), q)
    } else if rows.last().name == q {
        Some(rows.len() - 1)
    } else {
        None
    }
}

/// The first row with this branch.
pub open spec fn first_on(rows: Seq<WorktreeView>, q: Seq<char>) -> Option<int>
    decreases rows.len(),
{
    if rows.len() == 0 {
        None
    } else if first_on(rows.drop_last(), q) is Some {
        first_on(rows.drop_last(), q)
    } else if rows.last().branch == Some(q) {
        Some(rows.len() - 1)
    } else {
        None
    }
}

/// The row that `q` means: the first with that name, else the first with that
/// branch, else the only one in which it stands, case aside.
pub open spec fn meant(
    rows: Seq<WorktreeView>,
    lows: Seq<LoweredView>,
    q: Seq<char>,
    low_q: Seq<char>,
) -> Result<int, PickErrorView> {
    let h = hits(lows, low_q);
    if first_named(rows, q) is Some {
        Ok(first_named(rows, q)->0)
    } else if first_on(rows, q) is Some {
        Ok(first_on(rows, q)->0)
    } else if h.len() == 0 {
        Err(PickErrorView::NoMatch(q))
    } else if h.len() == 1 {
        Ok(h[0])
    } else {
        Err(PickErrorView::Ambiguous(q, Seq::new(h.len(), |i: int| rows[h[i]].name)))
    }
}

/// `r` is what `m` says, as a row of `worktrees`.
pub open spec fn is_meant(
    r: Result<&Worktree, PickError>,
    worktrees: Seq<Worktree>,
    m: Result<int, PickErrorView>,
) -> bool {
    match (r, m) {
        (Ok(w), Ok(i)) => 0 <= i < worktrees.len() && w == worktrees[i],
        (Err(e), Err(f)) => e.deep_view() == f,
        _ => false,
    }
}

/// The row that `query` means, given the names in lower case.
pub fn resolve_lowered<'a>(
    worktrees: &'a Vec<Worktree>,
    lows: &Vec<Lowered>,
    query: &str,
    low_query: &str,
) -> (r: Result<&'a Worktree, PickError>)
    requires
        lows@.len() == worktrees@.len(),
    ensures
        is_meant(
            r,
            worktrees@,
            meant(worktrees.deep_view(), lows.deep_view(), query@, low_query@),
        ),
{
    let ghost rows = worktrees.deep_view();
    let ghost all = lows.deep_view();
    let mut named: Option<usize> = None;
    let mut on: Option<usize> = None;
    let mut found: Vec<usize> = Vec::new();
    let mut i: usize = 0;
    while i < worktrees.len()
        invariant
            i <= worktrees@.len(),
            lows@.len() == worktrees@.len(),
            rows == worktrees.deep_view(),
            all == lows.deep_view(),
            match (named, first_named(rows.take(i as int), query@)) {
                (Some(k), Some(j)) => k == j && k < i,
                (None, None) => true,
                _ => false,
            },
            match (on, first_on(rows.take(i as int), query@)) {
                (Some(k), Some(j)) => k == j && k < i,
                (None, None) => true,
                _ => false,
            },
            found@.len() == hits(all.take(i as int), low_query@).len(),
            forall|k: int|
                0 <= k < found@.len() ==> (#[trigger] found@[k]) < i && found@[k] == hits(
                    all.take(i as int),
                    low_query@,
                )[k],
        decreases worktrees@.len() - i,
    {
        let w = &worktrees[i];
        let low = &lows[i];
        proof {
            assert(rows.take(i + 1).drop_last() =~= rows.take(i as int));
            assert(rows.take(i + 1).last() == w.deep_view());
            assert(all.take(i + 1).drop_last() =~= all.take(i as int));
            assert(all.take(i + 1).last() == low.deep_view());
        }
        if named.is_none() && strings::same(w.name.as_str(), query) {
            named = Some(i);
        }
        if on.is_none() {
            if let Some(b) = &w.branch {
                if strings::same(b.as_str(), query) {
                    on = Some(i);
                }
            }
        }
        let by_branch = match &low.branch {
            Some(b) => strings::contains(b.as_str(), low_query),
            None => false,
        };
        if by_branch || strings::contains(low.name.as_str(), low_query) {
            found.push(i);
        }
        i = i + 1;
    }
    proof {
        assert(rows.take(i as int) =~= rows);
        assert(all.take(i as int) =~= all);
    }
    if let Some(k) = named {
        return Ok(&worktrees[k]);
    }
    if let Some(k) = on {
        return Ok(&worktrees[k]);
    }
    if found.len() == 0 {
        return Err(PickError::NoMatch(query.to_string()));
    }
    if found.len() == 1 {
        return Ok(&worktrees[found[0]]);
    }
    let mut names: Vec<String> = Vec::new();
    let mut k: usize = 0;
    let ghost h = hits(all, low_query@);
    while k < found.len()
        invariant
            k <= found@.len(),
            names@.len() == k,
            rows == worktrees.deep_view(),
            found@.len() == h.len(),
            forall|j: int|
                0 <= j < found@.len() ==> (#[trigger] found@[j]) < worktrees@.len() && found@[j]
                    == h[j],
            forall|j: int| 0 <= j < k ==> (#[trigger] names@[j])@ == rows[h[j]].name,
        decreases found@.len() - k,
    {
        names.push(worktrees[found[k]].name.clone());
        k = k + 1;
    }
    proof {
        assert(names.deep_view() =~= Seq::new(h.len(), |i: int| rows[h[i]].name));
    }
    Err(PickError::Ambiguous(query.to_string(), names))
}

/// The row that `query` means.
pub fn resolve_by_query<'a>(worktrees: &'a Vec<Worktree>, query: &str) -> (r: Result<
    &'a Worktree,
    PickError,
>)
    ensures
        is_meant(
            r,
            worktrees@,
            meant(
                worktrees.deep_view(),
                worktrees.deep_view().map_values(|w: WorktreeView| lowered(w)),
                query@,
                lowercase(query@),
            ),
        ),
{
    let mut lows: Vec<Lowered> = Vec::new();
    let ghost goal = worktrees.deep_view().map_values(|w: WorktreeView| lowered(w));
    let mut i: usize = 0;
    while i < worktrees.len()
        invariant
            i <= worktrees@.len(),
            lows@.len() == i,
            goal == worktrees.deep_view().map_values(|w: WorktreeView| lowered(w)),
            forall|j: int| 0 <= j < i ==> (#[trigger] lows@[j]).deep_view() == goal[j],
        decreases worktrees@.len() - i,
    {
        let w = &worktrees[i];
        let branch = match &w.branch {
            Some(b) => Some(to_lower(b.as_str())),
            None => None,
        };
        lows.push(Lowered { name: to_lower(w.name.as_str()), branch });
        i = i + 1;
    }
    proof {
        assert(lows.deep_view() =~= goal);
    }
    let low_query = to_lower(query);
    resolve_lowered(worktrees, &lows, query, low_query.as_str())
}

/// What picking comes to.
pub enum Choice<'a> {
    /// This worktree.
    Row(&'a Worktree),
    /// The user is to be asked, with one item for each worktree.
    Ask { prompt: String, items: Vec<String> },
}

/// A worktree as an item to pick: its name, whether it is the main one, and
/// where it is.
pub open spec fn item(w: WorktreeView) -> Seq<char> {
    w.name + (if w.is_main {
        " (main)"@
    } else {
        ""@
    }) + "  "@ + w.path
}

/// A worktree as an item to pick.
fn item_for(w: &Worktree) -> (r: String)
    ensures
        r@ == item(w.deep_view()),
{
    let mut s = w.name.clone();
    s.append(if w.is_main {
        " (main)"
    } else {
        ""
    });
    s.append("  ");
    s.append(w.path.as_str());
    s
}

/// Picks a worktree: by `query` where there is one, else by asking, unless that
/// is not allowed.
pub fn resolve<'a>(
    worktrees: &'a Vec<Worktree>,
    query: Option<&str>,
    non_interactive: bool,
    prompt: &str,
) -> (r: Result<Choice<'a>, PickError>)
    ensures
        if worktrees@.len() == 0 {
            r is Err && r->Err_0.deep_view() == PickErrorView::Empty
        } else if query is Some {
            let m = meant(
                worktrees.deep_view(),
                worktrees.deep_view().map_values(|w: WorktreeView| lowered(w)),
                query->0@,
                lowercase(query->0@),
            );
            match r {
                Ok(Choice::Row(w)) => is_meant(Ok(w), worktrees@, m),
                Ok(_) => false,
                Err(e) => is_meant(Err(e), worktrees@, m),
            }
        } else if non_interactive {
            r is Err && r->Err_0.deep_view() == PickErrorView::NotInteractive
        } else {
            match r {
                Ok(Choice::Ask { prompt: p, items }) => p@ == prompt@ && items.deep_view()
                    == worktrees.deep_view().map_values(|w: WorktreeView| item(w)),
                _ => false,
            }
        },
{
    if worktrees.len() == 0 {
        return Err(PickError::Empty);
    }
    if let Some(q) = query {
        return match resolve_by_query(worktrees, q) {
            Ok(w) => Ok(Choice::Row(w)),
            Err(e) => Err(e),
        };
    }
    if non_interactive {
        return Err(PickError::NotInteractive);
    }
    let mut items: Vec<String> = Vec::new();
    let ghost goal = worktrees.deep_view().map_values(|w: WorktreeView| item(w));
    let mut i: usize = 0;
    while i < worktrees.len()
        invariant
            i <= worktrees@.len(),
            items@.len() == i,
            goal == worktrees.deep_view().map_values(|w: WorktreeView| item(w)),
            forall|j: int| 0 <= j < i ==> (#[trigger] items@[j])@ == goal[j],
        decreases worktrees@.len() - i,
    {
        items.push(item_for(&worktrees[i]));
        i = i + 1;
    }
    proof {
        assert(items.deep_view() =~= goal);
    }
    Ok(Choice::Ask { prompt: prompt.to_string(), items })
}

/// A worktree whose name is exactly what was asked for is picked, and the first
/// such one, whatever else matches.
pub proof fn exact_name_is_picked(
    rows: Seq<WorktreeView>,
    lows: Seq<LoweredView>,
    q: Seq<char>,
    low_q: Seq<char>,
    i: int,
)
    requires
        0 <= i < rows.len(),
        rows[i].name == q,
        forall|j: int| 0 <= j < i ==> (#[trigger] rows[j]).name != q,
    ensures
        meant(rows, lows, q, low_q) == Ok::<int, PickErrorView>(i),
{
    first_named_is_first(rows, q);
}

/// Where no worktree has the name, but one has exactly that branch, the first
/// such one is picked, whatever else matches.
pub proof fn exact_branch_is_picked(
    rows: Seq<WorktreeView>,
    lows: Seq<LoweredView>,
    q: Seq<char>,
    low_q: Seq<char>,
    i: int,
)
    requires
        0 <= i < rows.len(),
        rows[i].branch == Some(q),
        forall|j: int| 0 <= j < i ==> (#[trigger] rows[j]).branch != Some(q),
        forall|j: int| 0 <= j < rows.len() ==> (#[trigger] rows[j]).name != q,
    ensures
        meant(rows, lows, q, low_q) == Ok::<int, PickErrorView>(i),
{
    first_named_is_first(rows, q);
    first_on_is_first(rows, q);
}

pub proof fn first_named_is_first(rows: Seq<WorktreeView>, q: Seq<char>)
    ensures
        match first_named(rows, q) {
            Some(i) => 0 <= i < rows.len() && rows[i].name == q && forall|j: int|
                0 <= j < i ==> (#[trigger] rows[j]).name != q,
            None => forall|j: int| 0 <= j < rows.len() ==> (#[trigger] rows[j]).name != q,
        },
    decreases rows.len(),
{
    if rows.len() > 0 {
        let head = rows.drop_last();
        first_named_is_first(head, q);
        assert forall|j: int| 0 <= j < head.len() implies rows[j] == head[j] by {}
    }
}

pub proof fn first_on_is_first(rows: Seq<WorktreeView>, q: Seq<char>)
    ensures
        match first_on(rows, q) {
            Some(i) => 0 <= i < rows.len() && rows[i].branch == Some(q) && forall|j: int|
                0 <= j < i ==> (#[trigger] rows[j]).branch != Some(q),
            None => forall|j: int| 0 <= j < rows.len() ==> (#[trigger] rows[j]).branch != Some(q),
        },
    decreases rows.len(),
{
    if rows.len() > 0 {
        let head = rows.drop_last();
        first_on_is_first(head, q);
        assert forall|j: int| 0 <= j < head.len() implies rows[j] == head[j] by {}
    }
}

} // verus!
