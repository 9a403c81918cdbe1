//! What is looked for, and where: the repository, its upstream, what a template names.

use crate::landed::{candidates, discovering, ProbeView};
use crate::paths;
use crate::process::{ActionView, InvocationView, ReplyView, StepView};
use crate::render::{self, FieldView, Piece, TableView};
use crate::text;
use crate::updater::{self, ReleaseView};
use crate::vcs::detect::{chain, nearest, Kind, Markers, RepoView};
use vstd::prelude::*;

verus! {

/// `git` answered the question whether the reference is there.
pub open spec fn is_there(reply: ReplyView) -> bool {
    match reply {
        ReplyView::Ran(Some(o)) => o.success && text::trim(o.stdout).len() > 0,
        _ => false,
    }
}

/// The references that can stand for upstream: those of the remote before those of
/// the repository, its default branch before `main`, and `main` before `master`.
pub proof fn remote_references_come_first()
    ensures
        candidates() == seq![
            "refs/remotes/origin/HEAD"@,
            "refs/remotes/origin/main"@,
            "refs/remotes/origin/master"@,
            "refs/heads/main"@,
            "refs/heads/master"@,
        ],
{
}

/// Upstream is looked for one reference after another, and is the first that is
/// there; there is none only after all of them were looked for.
pub proof fn upstream_is_the_first_that_is_there(
    root: Seq<char>,
    revs: Seq<Seq<char>>,
    rev: Seq<char>,
    reply: ReplyView,
    rest: Seq<ReplyView>,
)
    ensures
        discovering(root, seq![], rest) == StepView::Done(
            Ok::<Option<ProbeView>, Seq<char>>(None),
        ),
        discovering(root, seq![rev] + revs, seq![]) == StepView::<Option<ProbeView>>::Do(
            ActionView::Run(
                InvocationView {
                    program: "git"@,
                    args: seq!["rev-parse"@, "--quiet"@, "--verify"@, rev],
                    dir: root,
                    capture: true,
                },
            ),
        ),
        discovering(root, seq![rev] + revs, seq![reply] + rest) == if is_there(reply) {
            StepView::Done(
                Ok::<Option<ProbeView>, Seq<char>>(Some((ProbeView { root, trunk: rev }))),
            )
        } else {
            discovering(root, revs, rest)
        },
{
    let all = seq![rev] + revs;
    let told = seq![reply] + rest;
    assert(all[0] == rev && all.drop_first() =~= revs);
    assert(told[0] == reply && told.drop_first() =~= rest);
}

/// A directory with the marks of a repository is its root, whatever stands above it;
/// one without them is passed over for the directory that it stands in.
pub proof fn repositories_are_looked_for_upwards(
    start: Seq<char>,
    windows: bool,
    m: Markers,
    rest: Seq<Markers>,
)
    ensures
        nearest(chain(start, windows), seq![]) is None,
        m.jj && m.git ==> nearest(chain(start, windows), seq![m] + rest) == Some(
            (RepoView { root: start, kind: Kind::Colocated }),
        ),
        m.jj && !m.git ==> nearest(chain(start, windows), seq![m] + rest) == Some(
            (RepoView { root: start, kind: Kind::Jj }),
        ),
        !m.jj && m.git ==> nearest(chain(start, windows), seq![m] + rest) == Some(
            (RepoView { root: start, kind: Kind::Git }),
        ),
        !m.jj && !m.git ==> nearest(chain(start, windows), seq![m] + rest) == match paths::parent(
            start,
            windows,
        ) {
            Some(up) => nearest(chain(up, windows), rest),
            None => None,
        },
{
    let told = seq![m] + rest;
    assert(told[0] == m && told.drop_first() =~= rest);
    let dirs = chain(start, windows);
    match paths::parent(start, windows) {
        Some(up) => {
            assert(dirs.drop_first() =~= chain(up, windows));
        },
        None => {
            assert(dirs.drop_first() =~= seq![]);
        },
    }
}

/// A template's text stands for itself, and what it refers to for its value, with
/// dashes in place of slashes where that is asked for; each is followed by what the
/// rest of the template stands for.
pub proof fn templates_say_what_they_name(
    p: Piece,
    ps: Seq<Piece>,
    scope: Seq<TableView>,
)
    requires
        render::all_have_meaning(seq![p] + ps, scope),
    ensures
        render::plain(render::template(seq![p] + ps), scope) == match render::plain(
            render::template(ps),
            scope,
        ) {
            Some(rest) => Some(
                (match p {
                    Piece::Text(t) => t,
                    Piece::Refer(t, f) => render::value(scope, t, f)->0,
                    Piece::Dashed(t, f) => text::replace_char(
                        render::value(scope, t, f)->0,
                        '/',
                        "-"@,
                    ),
                }) + rest,
            ),
            None => None,
        },
{
    let all = seq![p] + ps;
    assert(all[0] == p && all.drop_first() =~= ps);
    assert forall|i: int| 0 <= i < ps.len() implies render::has_meaning(#[trigger] ps[i], scope) by {
        assert(all[i + 1] == ps[i]);
    }
    render::pieces_are_rendered(all, scope);
    render::pieces_are_rendered(ps, scope);
}

/// What a name stands for: the table that was added last under it counts, and in it
/// the field that was added last.
pub proof fn later_values_count(
    scope: Seq<TableView>,
    name: Seq<char>,
    fields: Seq<FieldView>,
    field: FieldView,
    t: Seq<char>,
    f: Seq<char>,
)
    ensures
        ({
            let with = scope.push((TableView { name, fields: fields.push(field) }));
            let without = scope.push((TableView { name, fields }));
            &&& t != name ==> render::value(with, t, f) == render::value(scope, t, f)
            &&& field.name == f ==> render::value(with, name, f) == field.value
            &&& field.name != f ==> render::value(with, name, f) == render::value(without, name, f)
            &&& render::value(scope.push((TableView { name, fields: seq![] })), name, f) is None
        }),
        render::value(seq![], t, f) is None,
{
    let more = fields.push(field);
    let with = scope.push((TableView { name, fields: more }));
    let without = scope.push((TableView { name, fields }));
    assert(with.drop_last() =~= scope);
    assert(without.drop_last() =~= scope);
    assert(more.drop_last() =~= fields);
}

/// The note on a new release names its version without a leading `v`, the version in
/// use, and where the release is described if that is known.
pub proof fn releases_are_announced(
    bin: Seq<char>,
    version: Seq<char>,
    number: Seq<char>,
    latest: ReleaseView,
)
    requires
        number.len() == 0 || number[0] != 'v',
        latest.tag_name == number || latest.tag_name == seq!['v'] + number,
    ensures
        ({
            let line = "\u{2699} "@ + bin + " "@ + number + " available (current "@ + version
                + ") \u{2014} run `"@ + bin + " self-update` to upgrade"@;
            updater::banner(bin, version, latest) == if latest.html_url.len() == 0 {
                line
            } else {
                line + "\n  release notes: "@ + latest.html_url
            }
        }),
{
    reveal_with_fuel(updater::without_v, 2);
    if latest.tag_name == seq!['v'] + number {
        assert(latest.tag_name[0] == 'v');
        assert(latest.tag_name.drop_first() =~= number);
    }
    assert(updater::without_v(latest.tag_name) == number);
}

} // verus!
