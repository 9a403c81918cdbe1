//! Templates, with the values they may refer to.
//!
//! A template can run programs and ask for the environment, so rendering is in
//! general something for the outside: the library hands out the template and its
//! scope, and takes the result as an argument. Only where a template is made up
//! of pieces with a plain meaning is it rendered here.

use crate::process;
use crate::strings;
use crate::text;
use vstd::prelude::*;
use vstd::string::*;

verus! {

/// A value that templates may refer to, by its name within a table.
#[derive(Debug, PartialEq, Eq)]
pub struct Field {
    pub name: String,
    pub value: Option<String>,
}

/// What a [`Field`] stands for.
pub struct FieldView {
    pub name: Seq<char>,
    pub value: Option<Seq<char>>,
}

impl DeepView for Field {
    type V = FieldView;

    open spec fn deep_view(&self) -> FieldView {
        FieldView { name: self.name@, value: self.value.deep_view() }
    }
}

/// Values under a common name.
#[derive(Debug, PartialEq, Eq)]
pub struct Table {
    pub name: String,
    pub fields: Vec<Field>,
}

/// What a [`Table`] stands for.
pub struct TableView {
    pub name: Seq<char>,
    pub fields: Seq<FieldView>,
}

impl DeepView for Table {
    type V = TableView;

    open spec fn deep_view(&self) -> TableView {
        TableView { name: self.name@, fields: self.fields.deep_view() }
    }
}

/// The value of the last field with this name.
pub open spec fn field_value(fields: Seq<FieldView>, f: Seq<char>) -> Option<Seq<char>>
    decreases fields.len(),
{
    if fields.len() == 0 {
        None
    } else if fields.last().name == f {
        fields.last().value
    } else {
        field_value(fields.drop_last(), f)
    }
}

/// The value that `t.f` refers to: a field of the last table with that name.
pub open spec fn value(scope: Seq<TableView>, t: Seq<char>, f: Seq<char>) -> Option<Seq<char>>
    decreases scope.len(),
{
    if scope.len() == 0 {
        None
    } else if scope.last().name == t {
        field_value(scope.last().fields, f)
    } else {
        value(scope.drop_last(), t, f)
    }
}

/// A piece of a template whose meaning is plain.
pub enum Piece {
    /// Text without braces, which stands for itself.
    Text(Seq<char>),
    /// A reference to a field of a table.
    Refer(Seq<char>, Seq<char>),
    /// A reference to a field of a table, with each slash replaced by a dash.
    Dashed(Seq<char>, Seq<char>),
}

/// How a piece is written in a template.
pub open spec fn written(p: Piece) -> Seq<char> {
    match p {
        Piece::Text(t) => t,
        Piece::Refer(t, f) => "{{ "@ + t + "."@ + f + " }}"@,
        Piece::Dashed(t, f) => "{{ "@ + t + "."@ + f + " | replace(from='/', to='-') }}"@,
    }
}

/// The tables and fields that the library offers to templates.
pub open spec fn offered(t: Seq<char>, f: Seq<char>) -> bool {
    ||| t == "vcs"@ && (f == "owner"@ || f == "repo"@ || f == "host"@ || f == "branch"@)
    ||| t == "worktree"@ && f == "path"@
    ||| t == "repo"@ && f == "root"@
}

/// The piece has a meaning in this scope: text has no braces, and what is
/// referred to is there.
pub open spec fn has_meaning(p: Piece, scope: Seq<TableView>) -> bool {
    match p {
        Piece::Text(t) => !t.contains('{') && !t.contains('}'),
        Piece::Refer(t, f) => offered(t, f) && value(scope, t, f) is Some,
        Piece::Dashed(t, f) => offered(t, f) && value(scope, t, f) is Some,
    }
}

/// What a piece means in a scope.
pub open spec fn meaning(p: Piece, scope: Seq<TableView>) -> Seq<char> {
    match p {
        Piece::Text(t) => t,
        Piece::Refer(t, f) => value(scope, t, f)->0,
        Piece::Dashed(t, f) => text::replace_char(value(scope, t, f)->0, '/', "-"@),
    }
}

/// The field whose name, with its table and a dot before it, `s` begins with.
pub open spec fn name_at(s: Seq<char>) -> Option<(Seq<char>, Seq<char>)> {
    if "vcs.owner"@.is_prefix_of(s) {
        Some(("vcs"@, "owner"@))
    } else if "vcs.repo"@.is_prefix_of(s) {
        Some(("vcs"@, "repo"@))
    } else if "vcs.host"@.is_prefix_of(s) {
        Some(("vcs"@, "host"@))
    } else if "vcs.branch"@.is_prefix_of(s) {
        Some(("vcs"@, "branch"@))
    } else if "worktree.path"@.is_prefix_of(s) {
        Some(("worktree"@, "path"@))
    } else if "repo.root"@.is_prefix_of(s) {
        Some(("repo"@, "root"@))
    } else {
        None
    }
}

/// The reference that `s` begins with.
pub open spec fn reference_at(s: Seq<char>) -> Option<Piece> {
    if !"{{ "@.is_prefix_of(s) {
        None
    } else {
        match name_at(s.skip("{{ "@.len() as int)) {
            None => None,
            Some((t, f)) => if written(Piece::Refer(t, f)).is_prefix_of(s) {
                Some(Piece::Refer(t, f))
            } else if written(Piece::Dashed(t, f)).is_prefix_of(s) {
                Some(Piece::Dashed(t, f))
            } else {
                None
            },
        }
    }
}

/// What a template comes to that is made up of text without braces and of
/// references to what is in scope. None for any other template.
pub open spec fn plain(src: Seq<char>, scope: Seq<TableView>) -> Option<Seq<char>>
    decreases src.len() via plain_decreases
{
    if src.len() == 0 {
        Some(seq![])
    } else if src[0] != '{' && src[0] != '}' {
        match plain(src.drop_first(), scope) {
            Some(rest) => Some(seq![src[0]] + rest),
            None => None,
        }
    } else {
        match reference_at(src) {
            None => None,
            Some(p) => if has_meaning(p, scope) {
                match plain(src.skip(written(p).len() as int), scope) {
                    Some(rest) => Some(meaning(p, scope) + rest),
                    None => None,
                }
            } else {
                None
            },
        }
    }
}

#[via_fn]
proof fn plain_decreases(src: Seq<char>, scope: Seq<TableView>) {
    reference_fits(src);
}

proof fn reference_fits(s: Seq<char>)
    ensures
        match reference_at(s) {
            Some(p) => 0 < written(p).len() <= s.len() && !(p is Text),
            None => true,
        },
{
    reveal_strlit("{{ ");
}

/// A template to be rendered, with the values in scope.
#[derive(Debug, PartialEq, Eq)]
pub struct Template {
    pub source: String,
    pub scope: Vec<Table>,
}

/// What a [`Template`] stands for.
pub struct TemplateView {
    pub source: Seq<char>,
    pub scope: Seq<TableView>,
}

impl DeepView for Template {
    type V = TemplateView;

    open spec fn deep_view(&self) -> TemplateView {
        TemplateView { source: self.source@, scope: self.scope.deep_view() }
    }
}

/// What comes of a template: it is to be rendered outside, or the result is there.
#[derive(Debug, PartialEq, Eq)]
pub enum Rendering {
    Ask(Template),
    Done(Result<String, String>),
}

/// What a [`Rendering`] stands for.
pub enum RenderingView {
    Ask(TemplateView),
    Done(Result<Seq<char>, Seq<char>>),
}

impl DeepView for Rendering {
    type V = RenderingView;

    open spec fn deep_view(&self) -> RenderingView {
        match self {
            Rendering::Ask(t) => RenderingView::Ask(t.deep_view()),
            Rendering::Done(r) => RenderingView::Done(process::result_view(*r)),
        }
    }
}

/// What came of the templates that were rendered outside.
pub open spec fn results(replies: Seq<Result<String, String>>) -> Seq<
    Result<Seq<char>, Seq<char>>,
> {
    replies.map_values(|r: Result<String, String>| process::result_view(r))
}

/// Rendering a template, with what is left of the replies: a plain one comes to
/// what it says, and any other to the next reply, once there is one.
pub open spec fn rendering(
    src: Seq<char>,
    scope: Seq<TableView>,
    replies: Seq<Result<Seq<char>, Seq<char>>>,
) -> (RenderingView, Seq<Result<Seq<char>, Seq<char>>>) {
    match plain(src, scope) {
        Some(text) => (RenderingView::Done(Ok(text)), replies),
        None => if replies.len() == 0 {
            (RenderingView::Ask(TemplateView { source: src, scope }), replies)
        } else {
            (RenderingView::Done(replies[0]), replies.drop_first())
        },
    }
}

/// `teravars::Engine::render`, in a fresh engine, of a template that is made up of
/// plain pieces: text outside braces is kept as it is, `{{ table.field }}` gives
/// the field's value, and the filter `replace(from='/', to='-')` replaces slashes
/// by dashes; nothing is escaped. Nothing else is let through, since a template
/// can run programs.
#[verifier::external_body]
fn render_plain(src: &str, scope: &Vec<Table>) -> (r: Result<String, String>)
    requires
        plain(src@, scope.deep_view()) is Some,
    ensures
        r is Ok && r->Ok_0@ == plain(src@, scope.deep_view())->0,
{
    let mut ctx = teravars::Context::new();
    for t in scope {
        let fields = t.fields.iter().map(|f| (f.name.as_str(), f.value.as_deref()));
        ctx.insert(t.name.clone(), &fields.collect::<std::collections::BTreeMap<_, _>>());
    }
    teravars::Engine::new().render(src, &ctx).map_err(|e| e.to_string())
}

/// Whether `lit` stands in `v` at index `at`.
fn begins(v: &Vec<char>, at: usize, lit: &str) -> (r: bool)
    requires
        at <= v@.len(),
    ensures
        r == lit@.is_prefix_of(v@.skip(at as int)),
{
    let w = strings::chars(lit);
    let r = strings::occurs_at(v, &w, at);
    proof {
        let rest = v@.skip(at as int);
        if at + lit@.len() <= v@.len() {
            assert(rest.subrange(0, lit@.len() as int) =~= v@.subrange(
                at as int,
                at + lit@.len(),
            ));
        }
    }
    r
}

/// Whether a field of a table has a value.
fn has_value(scope: &Vec<Table>, t: &str, f: &str) -> (r: bool)
    ensures
        r == (value(scope.deep_view(), t@, f@) is Some),
{
    let ghost all = scope.deep_view();
    let mut n: usize = scope.len();
    proof {
        assert(all.take(n as int) =~= all);
    }
    while n > 0
        invariant
            n <= scope@.len(),
            all == scope.deep_view(),
            value(all, t@, f@) == value(all.take(n as int), t@, f@),
        decreases n,
    {
        let table = &scope[n - 1];
        proof {
            assert(all.take(n as int).last() == table.deep_view());
            assert(all.take(n as int).drop_last() =~= all.take(n - 1));
        }
        if strings::same(table.name.as_str(), t) {
            return has_field(&table.fields, f);
        }
        n = n - 1;
    }
    false
}

/// Whether a field has a value.
fn has_field(fields: &Vec<Field>, f: &str) -> (r: bool)
    ensures
        r == (field_value(fields.deep_view(), f@) is Some),
{
    let ghost all = fields.deep_view();
    let mut n: usize = fields.len();
    proof {
        assert(all.take(n as int) =~= all);
    }
    while n > 0
        invariant
            n <= fields@.len(),
            all == fields.deep_view(),
            field_value(all, f@) == field_value(all.take(n as int), f@),
        decreases n,
    {
        let field = &fields[n - 1];
        proof {
            assert(all.take(n as int).last() == field.deep_view());
            assert(all.take(n as int).drop_last() =~= all.take(n - 1));
        }
        if strings::same(field.name.as_str(), f) {
            return field.value.is_some();
        }
        n = n - 1;
    }
    false
}

/// The field whose name stands in `v` at index `at`.
fn find_name(v: &Vec<char>, at: usize) -> (r: Option<(&'static str, &'static str)>)
    requires
        at <= v@.len(),
    ensures
        match (r, name_at(v@.skip(at as int))) {
            (Some((t, f)), Some((u, g))) => t@ == u && f@ == g,
            (None, None) => true,
            _ => false,
        },
{
    if begins(v, at, "vcs.owner") {
        Some(("vcs", "owner"))
    } else if begins(v, at, "vcs.repo") {
        Some(("vcs", "repo"))
    } else if begins(v, at, "vcs.host") {
        Some(("vcs", "host"))
    } else if begins(v, at, "vcs.branch") {
        Some(("vcs", "branch"))
    } else if begins(v, at, "worktree.path") {
        Some(("worktree", "path"))
    } else if begins(v, at, "repo.root") {
        Some(("repo", "root"))
    } else {
        None
    }
}

/// How long the reference at index `at` is, where there is one to a field that
/// has a value.
fn find_reference(v: &Vec<char>, at: usize, scope: &Vec<Table>) -> (r: Option<usize>)
    requires
        at <= v@.len(),
    ensures
        match (r, reference_at(v@.skip(at as int))) {
            (Some(n), Some(p)) => has_meaning(p, scope.deep_view()) && n == written(p).len() && 0
                < n <= v@.len() - at,
            (Some(_), None) => false,
            (None, Some(p)) => !has_meaning(p, scope.deep_view()),
            (None, None) => true,
        },
{
    let ghost rest = v@.skip(at as int);
    proof {
        reveal_strlit("{{ ");
        reference_fits(rest);
        reference_is_offered(rest);
    }
    if !begins(v, at, "{{ ") {
        return None;
    }
    proof {
        assert(rest.len() >= 3 && v.len() <= usize::MAX);
        assert(rest.skip(3) =~= v@.skip(at + 3));
    }
    let (t, f) = match find_name(v, at + 3) {
        Some(found) => found,
        None => return None,
    };
    let mut start = "{{ ".to_string();
    start.append(t);
    start.append(".");
    start.append(f);
    let mut end = start.clone();
    end.append(" }}");
    start.append(" | replace(from='/', to='-') }}");
    let n: usize = if begins(v, at, end.as_str()) {
        end.as_str().unicode_len()
    } else if begins(v, at, start.as_str()) {
        start.as_str().unicode_len()
    } else {
        return None;
    };
    if has_value(scope, t, f) {
        Some(n)
    } else {
        None
    }
}

proof fn reference_is_offered(s: Seq<char>)
    ensures
        match reference_at(s) {
            Some(Piece::Refer(t, f)) => offered(t, f),
            Some(Piece::Dashed(t, f)) => offered(t, f),
            Some(Piece::Text(_)) => false,
            None => true,
        },
{
}

/// Whether a template is made up of plain pieces.
fn is_plain(src: &str, scope: &Vec<Table>) -> (r: bool)
    ensures
        r == (plain(src@, scope.deep_view()) is Some),
{
    let v = strings::chars(src);
    let ghost sc = scope.deep_view();
    let mut i: usize = 0;
    proof {
        assert(src@.skip(0) =~= src@);
    }
    while i < v.len()
        invariant
            i <= v@.len(),
            v@ == src@,
            sc == scope.deep_view(),
            (plain(src@, sc) is Some) == (plain(src@.skip(i as int), sc) is Some),
        decreases v@.len() - i,
    {
        let ghost rest = src@.skip(i as int);
        if v[i] != '{' && v[i] != '}' {
            proof {
                assert(rest.drop_first() =~= src@.skip(i + 1));
            }
            i = i + 1;
        } else {
            match find_reference(&v, i, scope) {
                Some(n) => {
                    proof {
                        assert(rest.skip(n as int) =~= src@.skip(i + n));
                    }
                    i = i + n;
                },
                None => return false,
            }
        }
    }
    true
}

/// Renders a template, or asks for that. The replies to that begin at `k`; where
/// they go on from comes with the result.
pub fn render(src: &str, scope: Vec<Table>, replies: &[Result<String, String>], k: usize) -> (r: (
    Rendering,
    usize,
))
    requires
        k <= replies@.len(),
    ensures
        k <= r.1 <= replies@.len(),
        (r.0.deep_view(), results(replies@).skip(r.1 as int)) == rendering(
            src@,
            scope.deep_view(),
            results(replies@).skip(k as int),
        ),
{
    let ghost rs = results(replies@);
    if is_plain(src, &scope) {
        return (Rendering::Done(render_plain(src, &scope)), k);
    }
    if k == replies.len() {
        return (Rendering::Ask(Template { source: src.to_string(), scope }), k);
    }
    proof {
        assert(rs.skip(k as int).drop_first() =~= rs.skip(k + 1));
        assert(rs.skip(k as int)[0] == process::result_view(replies@[k as int]));
    }
    (Rendering::Done(copy_result(&replies[k])), k + 1)
}

/// The same result again.
fn copy_result(r: &Result<String, String>) -> (c: Result<String, String>)
    ensures
        process::result_view(c) == process::result_view(*r),
{
    match r {
        Ok(s) => Ok(s.clone()),
        Err(e) => Err(e.clone()),
    }
}

/// The template that the pieces make up.
pub open spec fn template(ps: Seq<Piece>) -> Seq<char>
    decreases ps.len(),
{
    if ps.len() == 0 {
        seq![]
    } else {
        written(ps[0]) + template(ps.drop_first())
    }
}

/// What the pieces come to.
pub open spec fn outcome(ps: Seq<Piece>, scope: Seq<TableView>) -> Seq<char>
    decreases ps.len(),
{
    if ps.len() == 0 {
        seq![]
    } else {
        meaning(ps[0], scope) + outcome(ps.drop_first(), scope)
    }
}

/// Every piece has a meaning.
pub open spec fn all_have_meaning(ps: Seq<Piece>, scope: Seq<TableView>) -> bool {
    forall|i: int| 0 <= i < ps.len() ==> has_meaning(#[trigger] ps[i], scope)
}

/// A template made up of pieces that have a meaning comes to what they mean, one
/// after the other.
pub proof fn pieces_are_rendered(ps: Seq<Piece>, scope: Seq<TableView>)
    requires
        all_have_meaning(ps, scope),
    ensures
        plain(template(ps), scope) == Some(outcome(ps, scope)),
    decreases ps.len(),
{
    if ps.len() > 0 {
        let tail = ps.drop_first();
        assert forall|i: int| 0 <= i < tail.len() implies has_meaning(#[trigger] tail[i], scope) by {
            assert(tail[i] == ps[i + 1]);
        }
        pieces_are_rendered(tail, scope);
        assert(has_meaning(ps[0], scope));
        first_piece_is_rendered(ps[0], template(tail), scope);
    }
}

proof fn first_piece_is_rendered(p: Piece, rest: Seq<char>, scope: Seq<TableView>)
    requires
        has_meaning(p, scope),
        plain(rest, scope) is Some,
    ensures
        plain(written(p) + rest, scope) == Some(meaning(p, scope) + plain(rest, scope)->0),
    decreases written(p).len(),
{
    let all = written(p) + rest;
    match p {
        Piece::Text(t) => {
            if t.len() == 0 {
                assert(all =~= rest);
                assert(t + plain(rest, scope)->0 =~= plain(rest, scope)->0);
            } else {
                let u = t.drop_first();
                assert forall|i: int| 0 <= i < u.len() implies u[i] != '{' && u[i] != '}' by {
                    assert(t.contains(t[i + 1]));
                }
                assert(t.contains(t[0]));
                assert(all.drop_first() =~= u + rest);
                first_piece_is_rendered(Piece::Text(u), rest, scope);
                assert(seq![t[0]] + (u + plain(rest, scope)->0) =~= t + plain(rest, scope)->0);
            }
        },
        Piece::Refer(t, f) => {
            reveal_strlit("{{ ");
            reveal_strlit(" }}");
            reference_is_found(t, f, " }}"@ + rest);
            assert(all =~= "{{ "@ + t + "."@ + f + (" }}"@ + rest));
            assert(all.subrange(0, written(p).len() as int) =~= written(p));
            assert(all.skip(written(p).len() as int) =~= rest);
            assert(all[0] == '{');
        },
        Piece::Dashed(t, f) => {
            reveal_strlit("{{ ");
            reveal_strlit(" }}");
            reveal_strlit(" | replace(from='/', to='-') }}");
            let end = " | replace(from='/', to='-') }}"@;
            reference_is_found(t, f, end + rest);
            assert(all =~= "{{ "@ + t + "."@ + f + (end + rest));
            assert(all.subrange(0, written(p).len() as int) =~= written(p));
            assert(all.skip(written(p).len() as int) =~= rest);
            assert(all[0] == '{');
            let other = written(Piece::Refer(t, f));
            let n = "{{ "@.len() + t.len() + "."@.len() + f.len();
            assert(all[n as int + 1] == '|' && other[n as int + 1] == '}');
            if other.is_prefix_of(all) {
                assert(all.subrange(0, other.len() as int)[n as int + 1] == all[n as int + 1]);
            }
        },
    }
}

/// The field of a reference is found, whatever follows its name.
proof fn reference_is_found(t: Seq<char>, f: Seq<char>, rest: Seq<char>)
    requires
        offered(t, f),
    ensures
        "{{ "@.is_prefix_of("{{ "@ + t + "."@ + f + rest),
        name_at(("{{ "@ + t + "."@ + f + rest).skip("{{ "@.len() as int)) == Some((t, f)),
{
    let all = "{{ "@ + t + "."@ + f + rest;
    let s = t + "."@ + f + rest;
    assert(all.subrange(0, "{{ "@.len() as int) =~= "{{ "@);
    assert(all.skip("{{ "@.len() as int) =~= s);
    reveal_strlit("vcs");
    reveal_strlit("owner");
    reveal_strlit("repo");
    reveal_strlit("host");
    reveal_strlit("branch");
    reveal_strlit("worktree");
    reveal_strlit("path");
    reveal_strlit("root");
    reveal_strlit(".");
    reveal_strlit("vcs.owner");
    reveal_strlit("vcs.repo");
    reveal_strlit("vcs.host");
    reveal_strlit("vcs.branch");
    reveal_strlit("worktree.path");
    reveal_strlit("repo.root");
    differ("vcs.owner"@, s);
    differ("vcs.repo"@, s);
    differ("vcs.host"@, s);
    differ("vcs.branch"@, s);
    differ("worktree.path"@, s);
    assert("vcs.owner"@[0] == 'v' && "vcs.owner"@[4] == 'o');
    assert("vcs.repo"@[0] == 'v' && "vcs.repo"@[4] == 'r');
    assert("vcs.host"@[0] == 'v' && "vcs.host"@[4] == 'h');
    assert("vcs.branch"@[0] == 'v' && "worktree.path"@[0] == 'w');
    if t == "vcs"@ {
        assert(s[0] == 'v');
        assert(s[4] == f[0]);
        if f == "owner"@ {
            assert(s.subrange(0, 9) =~= "vcs.owner"@);
        } else if f == "repo"@ {
            assert(s.subrange(0, 8) =~= "vcs.repo"@);
        } else if f == "host"@ {
            assert(s.subrange(0, 8) =~= "vcs.host"@);
        } else {
            assert(s.subrange(0, 10) =~= "vcs.branch"@);
        }
    } else if t == "worktree"@ {
        assert(s[0] == 'w');
        assert(s.subrange(0, 13) =~= "worktree.path"@);
    } else {
        assert(s[0] == 'r');
        assert(s.subrange(0, 9) =~= "repo.root"@);
    }
}

/// What `s` begins with has its characters.
proof fn differ(lit: Seq<char>, s: Seq<char>)
    ensures
        lit.is_prefix_of(s) ==> forall|i: int| 0 <= i < lit.len() ==> #[trigger] lit[i] == s[i],
{
    if lit.is_prefix_of(s) {
        assert forall|i: int| 0 <= i < lit.len() implies #[trigger] lit[i] == s[i] by {
            assert(s.subrange(0, lit.len() as int)[i] == s[i]);
        }
    }
}

} // verus!
