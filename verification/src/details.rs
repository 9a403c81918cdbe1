//! All that is known of one worktree, for the user to check before it is
//! removed.

use crate::listing;
use crate::path_display;
use crate::pr_cache::{PrInfo, PrInfoView};
use crate::strings;
use crate::style;
use crate::text;
use crate::vcs::{self, Worktree, WorktreeView};
use vstd::prelude::*;
use vstd::string::*;

verus! {

/// A label: dimmed, and right-aligned in nine characters.
pub open spec fn label(s: Seq<char>) -> Seq<char> {
    "  "@ + style::dimmed(text::pad_start(s, 9)) + ":"@
}

/// A line with a label.
pub open spec fn labelled(name: Seq<char>, rest: Seq<char>) -> Seq<char> {
    label(name) + " "@ + rest
}

/// What is checked out, and its description.
pub open spec fn head(w: WorktreeView) -> Seq<char> {
    match (w.head, w.desc) {
        (Some(h), Some(d)) => h + " "@ + style::dimmed(d),
        (Some(h), None) => h,
        (None, _) => style::dimmed("(unknown)"@),
    }
}

/// `word`, where the condition holds.
pub open spec fn flag(holds: bool, word: Seq<char>) -> Seq<Seq<char>> {
    if holds {
        seq![word]
    } else {
        seq![]
    }
}

/// What is special about the worktree.
pub open spec fn special(w: WorktreeView) -> Seq<Seq<char>> {
    flag(w.is_main, style::green("main"@)) + flag(w.is_stale, style::yellow("stale"@)) + flag(
        w.dirty,
        style::yellow("dirty"@),
    ) + flag(w.conflict, style::bold(style::red("conflict"@))) + flag(
        w.is_locked,
        style::yellow("locked"@),
    ) + flag(w.is_bare, style::dimmed("bare"@))
}

/// What is special about the worktree, or that it is clean.
pub open spec fn flags(w: WorktreeView) -> Seq<char> {
    if special(w).len() == 0 {
        style::green("clean"@)
    } else {
        text::join(special(w), " "@)
    }
}

/// The state of a pull request, in its colour.
pub open spec fn state(s: Seq<char>) -> Seq<char> {
    if s == "OPEN"@ {
        style::green(s)
    } else if s == "MERGED"@ {
        style::magenta(s)
    } else if s == "CLOSED"@ {
        style::red(s)
    } else {
        s
    }
}

/// The pull request, its state and its page.
pub open spec fn pull_request(pr: Option<PrInfoView>, url: Option<Seq<char>>) -> Seq<char> {
    match pr {
        Some(p) => listing::pr_tag(p) + " ("@ + state(p.state) + ")"@ + match url {
            Some(u) => "  "@ + style::dimmed(u),
            None => ""@,
        },
        None => style::dimmed("(none)"@),
    }
}

/// The lines that tell of a worktree.
pub open spec fn lines(
    w: WorktreeView,
    pr: Option<PrInfoView>,
    url: Option<Seq<char>>,
    windows: bool,
) -> Seq<Seq<char>> {
    seq![
        labelled("name"@, listing::styled_name(w)),
        labelled(
            "branch"@,
            match w.branch {
                Some(b) => b,
                None => style::dimmed("(detached / no bookmark)"@),
            },
        ),
        labelled("path"@, path_display::shown(w.path, windows)),
        labelled("vcs"@, vcs::short(w.vcs)),
        labelled("head"@, head(w)),
        labelled("status"@, flags(w)),
        labelled("pr"@, pull_request(pr, url)),
    ]
}

/// A line with a label.
fn line_of(name: &str, rest: &str) -> (r: String)
    ensures
        r@ == labelled(name@, rest@),
{
    let mut s = "  ".to_string();
    s.append(style::dim(strings::pad_start(name, 9).as_str()).as_str());
    s.append(":");
    s.append(" ");
    s.append(rest);
    s
}

/// What is checked out, and its description.
fn head_of(w: &Worktree) -> (r: String)
    ensures
        r@ == head(w.deep_view()),
{
    match (&w.head, &w.desc) {
        (Some(h), Some(d)) => {
            let mut s = h.clone();
            s.append(" ");
            s.append(style::dim(d.as_str()).as_str());
            s
        },
        (Some(h), None) => h.clone(),
        (None, _) => style::dim("(unknown)"),
    }
}

/// Adds `word` where the condition holds.
fn push_if(words: &mut Vec<String>, holds: bool, word: String)
    ensures
        final(words).deep_view() == old(words).deep_view() + flag(holds, word@),
{
    let ghost before = words.deep_view();
    let ghost w = word@;
    if holds {
        words.push(word);
    }
    proof {
        assert(words.deep_view() =~= before + flag(holds, w));
    }
}

/// What is special about the worktree, or that it is clean.
fn flags_of(w: &Worktree) -> (r: String)
    ensures
        r@ == flags(w.deep_view()),
{
    let mut words: Vec<String> = Vec::new();
    proof {
        assert(words.deep_view() + flag(w.is_main, style::green("main"@)) =~= flag(
            w.is_main,
            style::green("main"@),
        ));
    }
    push_if(&mut words, w.is_main, style::paint_green("main"));
    push_if(&mut words, w.is_stale, style::paint_yellow("stale"));
    push_if(&mut words, w.dirty, style::paint_yellow("dirty"));
    push_if(
        &mut words,
        w.conflict,
        style::embolden(style::paint_red("conflict").as_str()),
    );
    push_if(&mut words, w.is_locked, style::paint_yellow("locked"));
    push_if(&mut words, w.is_bare, style::dim("bare"));
    proof {
        assert(words.deep_view() == special(w.deep_view()));
        assert(words.deep_view().len() == words@.len());
    }
    if words.len() == 0 {
        return style::paint_green("clean");
    }
    strings::join(&words, " ")
}

/// The pull request, its state and its page.
fn pull_request_of(pr: Option<&PrInfo>, url: Option<&str>) -> (r: String)
    ensures
        r@ == pull_request(pr.deep_view(), url.deep_view()),
{
    let p = match pr {
        Some(p) => p,
        None => return style::dim("(none)"),
    };
    let state = if strings::same(p.state.as_str(), "OPEN") {
        style::paint_green(p.state.as_str())
    } else if strings::same(p.state.as_str(), "MERGED") {
        style::paint_magenta(p.state.as_str())
    } else if strings::same(p.state.as_str(), "CLOSED") {
        style::paint_red(p.state.as_str())
    } else {
        p.state.clone()
    };
    let end = match url {
        Some(u) => {
            let mut s = "  ".to_string();
            s.append(style::dim(u).as_str());
            s
        },
        None => "".to_string(),
    };
    let mut s = listing::tag(p);
    s.append(" (");
    s.append(state.as_str());
    s.append(")");
    s.append(end.as_str());
    s
}

/// The lines that tell of a worktree, its pull request and the page of that.
pub fn worktree_details(
    w: &Worktree,
    pr: Option<&PrInfo>,
    pr_url: Option<&str>,
    windows: bool,
) -> (r: Vec<String>)
    ensures
        r.deep_view() == lines(w.deep_view(), pr.deep_view(), pr_url.deep_view(), windows),
{
    let branch = match &w.branch {
        Some(b) => b.clone(),
        None => style::dim("(detached / no bookmark)"),
    };
    let r = vec![
        line_of("name", listing::name_of(w).as_str()),
        line_of("branch", branch.as_str()),
        line_of("path", path_display::display_path(w.path.as_str(), windows).as_str()),
        line_of("vcs", vcs::kind_short(w.vcs)),
        line_of("head", head_of(w).as_str()),
        line_of("status", flags_of(w).as_str()),
        line_of("pr", pull_request_of(pr, pr_url).as_str()),
    ];
    proof {
        assert(r.deep_view() =~= lines(
            w.deep_view(),
            pr.deep_view(),
            pr_url.deep_view(),
            windows,
        ));
    }
    r
}

} // verus!
