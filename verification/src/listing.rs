//! The table of worktrees.

use crate::layout::{VcsContext, VcsContextView};
use crate::pr_cache::{self, PrIndex, PrInfo, PrInfoView};
use crate::strings;
use crate::style;
use crate::text;
use crate::vcs::{self, Kind, Worktree, WorktreeView};
use vstd::prelude::*;
use vstd::string::*;

verus! {

/// The greater of the two.
pub open spec fn max(a: nat, b: nat) -> nat {
    if a < b {
        b
    } else {
        a
    }
}

/// The width of the longest name, and at least that of the heading.
pub open spec fn name_width(rows: Seq<WorktreeView>) -> nat
    decreases rows.len(),
{
    if rows.len() == 0 {
        4
    } else {
        max(name_width(rows.drop_last()), rows.last().name.len())
    }
}

/// A pull request as it is shown: a hash and its number.
pub open spec fn pr_tag(pr: PrInfoView) -> Seq<char> {
    "#"@ + text::decimal(pr.number as nat)
}

/// The width of the longest pull request, and at least that of the heading.
pub open spec fn pr_width(prs: Seq<Option<PrInfoView>>) -> nat
    decreases prs.len(),
{
    if prs.len() == 0 {
        2
    } else {
        max(
            pr_width(prs.drop_last()),
            match prs.last() {
                Some(pr) => pr_tag(pr).len(),
                None => 0,
            },
        )
    }
}

/// The mark of a row: stale, main, or neither.
pub open spec fn marker(w: WorktreeView) -> Seq<char> {
    if w.is_stale {
        style::yellow("\u{26a0}"@)
    } else if w.is_main {
        style::green("\u{2605}"@)
    } else {
        " "@
    }
}

/// The name of a row, in the colour of its role.
pub open spec fn styled_name(w: WorktreeView) -> Seq<char> {
    if w.is_main {
        style::bold(style::green(w.name))
    } else if w.is_stale {
        style::yellow(w.name)
    } else {
        w.name
    }
}

/// The state of the working copy: not known, in conflict, changed or clean.
pub open spec fn status(w: WorktreeView) -> Seq<char> {
    if w.is_stale {
        style::dimmed("\u{22ef}"@)
    } else if w.conflict {
        style::bold(style::red("\u{203c}"@))
    } else if w.dirty {
        style::yellow("\u{25cf}"@)
    } else {
        style::green("\u{2713}"@)
    }
}

/// The description of a row.
pub open spec fn description(w: WorktreeView) -> Seq<char> {
    if w.is_stale {
        style::italic(style::yellow("(stale \u{2014} directory missing)"@))
    } else if w.desc is None || w.desc->0.len() == 0 {
        style::italic(style::dimmed("(no description)"@))
    } else {
        w.desc->0
    }
}

/// The backend of a row, in a column of three characters.
pub open spec fn vcs_cell(kind: Kind, show_vcs: bool) -> Seq<char> {
    if show_vcs {
        "  "@ + style::dimmed(text::pad_end(vcs::short(kind), 3))
    } else {
        ""@
    }
}

/// A pull request in the colour of its state.
pub open spec fn coloured_pr(pr: Option<PrInfoView>) -> Seq<char> {
    match pr {
        Some(p) => if p.state == "OPEN"@ {
            style::green(pr_tag(p))
        } else if p.state == "MERGED"@ {
            style::dimmed(pr_tag(p))
        } else if p.state == "CLOSED"@ {
            style::dimmed(style::red(pr_tag(p)))
        } else {
            pr_tag(p)
        },
        None => style::dimmed("\u{2014}"@),
    }
}

/// The pull request of a row, as a link where the repository is known.
pub open spec fn pr_cell(pr: Option<PrInfoView>, repo: Option<VcsContextView>) -> Seq<char> {
    if pr is Some && repo is Some && repo->0.owner.len() > 0 && repo->0.repo.len() > 0 {
        pr_cache::hyperlink(
            pr_cache::page(repo->0.owner, repo->0.repo, pr->0.number as nat),
            coloured_pr(pr),
        )
    } else {
        coloured_pr(pr)
    }
}

/// What fills up `used` characters to `width`.
pub open spec fn filler(width: nat, used: nat) -> Seq<char> {
    text::spaces(if used < width {
        (width - used) as nat
    } else {
        0
    })
}

/// What is shown of a table: whether it has columns for the pull requests and for
/// the backend, how wide its columns are, and the repository for links.
pub struct Shape {
    pub show_pr: bool,
    pub show_vcs: bool,
    pub name_width: nat,
    pub pr_width: nat,
    pub repo: Option<VcsContextView>,
}

/// The heading of the table.
pub open spec fn heading(show_pr: bool, show_vcs: bool, name_width: nat, pr_width: nat) -> Seq<
    char,
> {
    let vcs = if show_vcs {
        "  "@ + style::dimmed("VCS"@)
    } else {
        ""@
    };
    let start = "  "@ + style::dimmed(text::pad_end("NAME"@, name_width)) + vcs + "  "@
        + style::dimmed("ST"@) + "  "@;
    let end = style::dimmed("DESCRIPTION"@);
    if show_pr {
        start + style::dimmed(text::pad_end("PR"@, pr_width)) + "  "@ + end
    } else {
        start + end
    }
}

/// One line of the table.
pub open spec fn line(s: Shape, w: WorktreeView, pr: Option<PrInfoView>) -> Seq<char> {
    let start = marker(w) + " "@ + styled_name(w) + filler(s.name_width, w.name.len()) + vcs_cell(
        w.vcs,
        s.show_vcs,
    ) + "  "@ + status(w) + "   "@;
    if s.show_pr {
        start + pr_cell(pr, s.repo) + filler(
            s.pr_width,
            match pr {
                Some(p) => pr_tag(p).len(),
                None => 1,
            },
        ) + "  "@ + description(w)
    } else {
        start + description(w)
    }
}

/// The shape of the table of these rows.
pub open spec fn shape(
    rows: Seq<WorktreeView>,
    prs: Seq<Option<PrInfoView>>,
    show_pr: bool,
    show_vcs: bool,
    repo: Option<VcsContextView>,
) -> Shape {
    Shape {
        show_pr,
        show_vcs,
        name_width: name_width(rows),
        pr_width: if show_pr {
            pr_width(prs)
        } else {
            0
        },
        repo,
    }
}

/// The table: a heading and a line for each row, or nothing where there are no
/// rows.
pub open spec fn table_lines(
    rows: Seq<WorktreeView>,
    prs: Seq<Option<PrInfoView>>,
    show_pr: bool,
    show_vcs: bool,
    repo: Option<VcsContextView>,
) -> Seq<Seq<char>> {
    let s = shape(rows, prs, show_pr, show_vcs, repo);
    if rows.len() == 0 {
        seq![]
    } else {
        seq![heading(show_pr, show_vcs, s.name_width, s.pr_width)] + Seq::new(rows.len(), |i: int| line(s, rows[i], prs[i]))
    }
}

/// A pull request as it is shown.
pub(crate) fn tag(pr: &PrInfo) -> (r: String)
    ensures
        r@ == pr_tag(pr.deep_view()),
{
    let mut s = "#".to_string();
    s.append(strings::decimal(pr.number).as_str());
    s
}

/// The mark of a row.
fn marker_of(w: &Worktree) -> (r: String)
    ensures
        r@ == marker(w.deep_view()),
{
    if w.is_stale {
        style::paint_yellow("\u{26a0}")
    } else if w.is_main {
        style::paint_green("\u{2605}")
    } else {
        " ".to_string()
    }
}

/// The name of a row, in the colour of its role.
pub(crate) fn name_of(w: &Worktree) -> (r: String)
    ensures
        r@ == styled_name(w.deep_view()),
{
    if w.is_main {
        style::embolden(style::paint_green(w.name.as_str()).as_str())
    } else if w.is_stale {
        style::paint_yellow(w.name.as_str())
    } else {
        w.name.clone()
    }
}

/// The state of the working copy.
fn status_of(w: &Worktree) -> (r: String)
    ensures
        r@ == status(w.deep_view()),
{
    if w.is_stale {
        style::dim("\u{22ef}")
    } else if w.conflict {
        style::embolden(style::paint_red("\u{203c}").as_str())
    } else if w.dirty {
        style::paint_yellow("\u{25cf}")
    } else {
        style::paint_green("\u{2713}")
    }
}

/// The description of a row.
fn description_of(w: &Worktree) -> (r: String)
    ensures
        r@ == description(w.deep_view()),
{
    if w.is_stale {
        return style::italicize(
            style::paint_yellow("(stale \u{2014} directory missing)").as_str(),
        );
    }
    match &w.desc {
        Some(d) => {
            if d.as_str().unicode_len() > 0 {
                d.clone()
            } else {
                style::italicize(style::dim("(no description)").as_str())
            }
        },
        None => style::italicize(style::dim("(no description)").as_str()),
    }
}

/// The backend of a row.
fn vcs_cell_of(kind: Kind, show_vcs: bool) -> (r: String)
    ensures
        r@ == vcs_cell(kind, show_vcs),
{
    if show_vcs {
        let mut s = "  ".to_string();
        s.append(style::dim(strings::pad_end(vcs::kind_short(kind), 3).as_str()).as_str());
        s
    } else {
        "".to_string()
    }
}

/// A pull request in the colour of its state.
fn coloured_pr_of(pr: &Option<PrInfo>) -> (r: String)
    ensures
        r@ == coloured_pr(pr.deep_view()),
{
    match pr {
        Some(p) => {
            let t = tag(p);
            if strings::same(p.state.as_str(), "OPEN") {
                style::paint_green(t.as_str())
            } else if strings::same(p.state.as_str(), "MERGED") {
                style::dim(t.as_str())
            } else if strings::same(p.state.as_str(), "CLOSED") {
                style::dim(style::paint_red(t.as_str()).as_str())
            } else {
                t
            }
        },
        None => style::dim("\u{2014}"),
    }
}

/// The pull request of a row, as a link where the repository is known.
fn pr_cell_of(pr: &Option<PrInfo>, repo: Option<&VcsContext>) -> (r: String)
    ensures
        r@ == pr_cell(pr.deep_view(), repo.deep_view()),
{
    let cell = coloured_pr_of(pr);
    if let (Some(p), Some(ctx)) = (pr, repo) {
        if ctx.owner.as_str().unicode_len() > 0 && ctx.repo.as_str().unicode_len() > 0 {
            let url = pr_cache::pr_url(None, ctx.owner.as_str(), ctx.repo.as_str(), p.number);
            return pr_cache::osc8_hyperlink(url.as_str(), cell.as_str());
        }
    }
    cell
}

/// What fills up `used` characters to `width`.
fn filler_of(width: usize, used: usize) -> (r: String)
    ensures
        r@ == filler(width as nat, used as nat),
{
    strings::spaces(if used < width {
        width - used
    } else {
        0
    })
}

/// The heading of the table.
fn heading_of(show_pr: bool, show_vcs: bool, name_w: usize, pr_w: usize) -> (r: String)
    ensures
        r@ == heading(show_pr, show_vcs, name_w as nat, pr_w as nat),
{
    let vcs = if show_vcs {
        let mut s = "  ".to_string();
        s.append(style::dim("VCS").as_str());
        s
    } else {
        "".to_string()
    };
    let mut s = "  ".to_string();
    s.append(style::dim(strings::pad_end("NAME", name_w).as_str()).as_str());
    s.append(vcs.as_str());
    s.append("  ");
    s.append(style::dim("ST").as_str());
    s.append("  ");
    if show_pr {
        s.append(style::dim(strings::pad_end("PR", pr_w).as_str()).as_str());
        s.append("  ");
    }
    s.append(style::dim("DESCRIPTION").as_str());
    s
}

/// One line of the table.
fn line_of(
    w: &Worktree,
    pr: &Option<PrInfo>,
    show_pr: bool,
    show_vcs: bool,
    name_w: usize,
    pr_w: usize,
    repo: Option<&VcsContext>,
) -> (r: String)
    ensures
        r@ == line(
            Shape {
                show_pr,
                show_vcs,
                name_width: name_w as nat,
                pr_width: pr_w as nat,
                repo: repo.deep_view(),
            },
            w.deep_view(),
            pr.deep_view(),
        ),
{
    let mut s = marker_of(w);
    s.append(" ");
    s.append(name_of(w).as_str());
    s.append(filler_of(name_w, w.name.as_str().unicode_len()).as_str());
    s.append(vcs_cell_of(w.vcs, show_vcs).as_str());
    s.append("  ");
    s.append(status_of(w).as_str());
    s.append("   ");
    if show_pr {
        let used: usize = match pr {
            Some(p) => tag(p).as_str().unicode_len(),
            None => 1,
        };
        s.append(pr_cell_of(pr, repo).as_str());
        s.append(filler_of(pr_w, used).as_str());
        s.append("  ");
    }
    s.append(description_of(w).as_str());
    s
}

/// The table of worktrees with their pull requests.
pub fn table_of(
    worktrees: &Vec<Worktree>,
    prs: &Vec<Option<PrInfo>>,
    show_pr: bool,
    show_vcs: bool,
    repo: Option<&VcsContext>,
) -> (r: Vec<String>)
    requires
        prs@.len() == worktrees@.len(),
    ensures
        r.deep_view() == table_lines(
            worktrees.deep_view(),
            prs.deep_view(),
            show_pr,
            show_vcs,
            repo.deep_view(),
        ),
{
    let ghost rows = worktrees.deep_view();
    let ghost found = prs.deep_view();
    let mut out: Vec<String> = Vec::new();
    if worktrees.len() == 0 {
        proof {
            assert(out.deep_view() =~= seq![]);
        }
        return out;
    }
    let mut name_w: usize = 4;
    let mut pr_w: usize = 2;
    let mut i: usize = 0;
    while i < worktrees.len()
        invariant
            i <= worktrees@.len(),
            prs@.len() == worktrees@.len(),
            rows == worktrees.deep_view(),
            found == prs.deep_view(),
            name_w == name_width(rows.take(i as int)),
            pr_w == pr_width(found.take(i as int)),
        decreases worktrees@.len() - i,
    {
        let n: usize = worktrees[i].name.as_str().unicode_len();
        let m: usize = match &prs[i] {
            Some(p) => tag(p).as_str().unicode_len(),
            None => 0,
        };
        proof {
            assert(rows.take(i + 1).drop_last() =~= rows.take(i as int));
            assert(rows.take(i + 1).last() == worktrees@[i as int].deep_view());
            assert(found.take(i + 1).drop_last() =~= found.take(i as int));
            assert(found.take(i + 1).last() == prs@[i as int].deep_view());
        }
        if name_w < n {
            name_w = n;
        }
        if pr_w < m {
            pr_w = m;
        }
        i = i + 1;
    }
    if !show_pr {
        pr_w = 0;
    }
    let ghost s = shape(rows, found, show_pr, show_vcs, repo.deep_view());
    proof {
        assert(rows.take(i as int) =~= rows);
        assert(found.take(i as int) =~= found);
    }
    out.push(heading_of(show_pr, show_vcs, name_w, pr_w));
    let mut k: usize = 0;
    while k < worktrees.len()
        invariant
            k <= worktrees@.len(),
            prs@.len() == worktrees@.len(),
            rows == worktrees.deep_view(),
            found == prs.deep_view(),
            s == (Shape {
                show_pr,
                show_vcs,
                name_width: name_w as nat,
                pr_width: pr_w as nat,
                repo: repo.deep_view(),
            }),
            out@.len() == k + 1,
            out@[0]@ == heading(show_pr, show_vcs, name_w as nat, pr_w as nat),
            forall|j: int| 0 <= j < k ==> (#[trigger] out@[j + 1])@ == line(s, rows[j], found[j]),
        decreases worktrees@.len() - k,
    {
        let ghost before = out@;
        out.push(line_of(&worktrees[k], &prs[k], show_pr, show_vcs, name_w, pr_w, repo));
        proof {
            assert forall|j: int| 0 <= j < k + 1 implies (#[trigger] out@[j + 1])@ == line(
                s,
                rows[j],
                found[j],
            ) by {
                if j < k {
                    assert(out@[j + 1] == before[j + 1]);
                }
            }
        }
        k = k + 1;
    }
    proof {
        let goal = table_lines(rows, found, show_pr, show_vcs, repo.deep_view());
        assert forall|j: int| 0 <= j < goal.len() implies out.deep_view()[j] == goal[j] by {
            if j > 0 {
                assert(out@[(j - 1) + 1]@ == line(s, rows[j - 1], found[j - 1]));
            }
        }
        assert(out.deep_view() =~= goal);
    }
    out
}

/// The pull request of each worktree, where they are asked for.
pub open spec fn found_all(
    rows: Seq<WorktreeView>,
    index: Map<Seq<char>, PrInfoView>,
    show_pr: bool,
    prs: Seq<Option<PrInfoView>>,
) -> bool {
    &&& prs.len() == rows.len()
    &&& forall|i: int|
        0 <= i < rows.len() ==> if show_pr {
            pr_cache::found_for(rows[i], index, #[trigger] prs[i])
        } else {
            prs[i] is None
        }
}

/// The table of worktrees. The column for pull requests is filled from the
/// index.
pub fn table(
    worktrees: &Vec<Worktree>,
    index: &PrIndex,
    show_pr: bool,
    show_vcs: bool,
    repo: Option<&VcsContext>,
) -> (r: Vec<String>)
    ensures
        exists|prs: Seq<Option<PrInfoView>>|
            found_all(worktrees.deep_view(), index@, show_pr, prs) && r.deep_view()
                == #[trigger] table_lines(
                worktrees.deep_view(),
                prs,
                show_pr,
                show_vcs,
                repo.deep_view(),
            ),
{
    let ghost rows = worktrees.deep_view();
    let mut prs: Vec<Option<PrInfo>> = Vec::new();
    let mut i: usize = 0;
    while i < worktrees.len()
        invariant
            i <= worktrees@.len(),
            rows == worktrees.deep_view(),
            prs@.len() == i,
            forall|j: int|
                0 <= j < i ==> if show_pr {
                    pr_cache::found_for(rows[j], index@, (#[trigger] prs@[j]).deep_view())
                } else {
                    prs@[j] is None
                },
        decreases worktrees@.len() - i,
    {
        let w = &worktrees[i];
        proof {
            assert(rows[i as int] == w.deep_view());
        }
        let pr = if show_pr {
            match pr_cache::lookup_for_worktree(w, index) {
                Some(p) => Some(p.clone()),
                None => None,
            }
        } else {
            None
        };
        prs.push(pr);
        i = i + 1;
    }
    proof {
        assert forall|j: int| 0 <= j < rows.len() implies if show_pr {
            pr_cache::found_for(rows[j], index@, #[trigger] prs.deep_view()[j])
        } else {
            prs.deep_view()[j] is None
        } by {
            assert(prs.deep_view()[j] == prs@[j].deep_view());
        }
        assert(found_all(rows, index@, show_pr, prs.deep_view()));
    }
    table_of(worktrees, &prs, show_pr, show_vcs, repo)
}

/// The table has a heading and one line for each worktree, and none without
/// worktrees.
pub proof fn one_line_for_each_row(
    rows: Seq<WorktreeView>,
    prs: Seq<Option<PrInfoView>>,
    show_pr: bool,
    show_vcs: bool,
    repo: Option<VcsContextView>,
)
    ensures
        table_lines(rows, prs, show_pr, show_vcs, repo).len() == if rows.len() == 0 {
            0
        } else {
            rows.len() + 1
        },
{
}

/// No name is wider than its column, so that the columns after it line up: the
/// name and its filler together are as wide as the column.
pub proof fn names_fill_their_column(rows: Seq<WorktreeView>, i: int)
    requires
        0 <= i < rows.len(),
    ensures
        rows[i].name.len() + filler(name_width(rows), rows[i].name.len()).len() == name_width(rows),
    decreases rows.len(),
{
    if i < rows.len() - 1 {
        names_fill_their_column(rows.drop_last(), i);
    }
}

} // verus!
