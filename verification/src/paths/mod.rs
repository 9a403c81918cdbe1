//! Paths as text, read as std reads them, on Unix and on Windows: repeated
//! separators count once, and a `.` counts only at the start of a relative path.

pub mod joining;
pub mod prefix;
pub mod separators;

use crate::strings;
use prefix::{lone, separates, Class, Component, ComponentView, Rules};
use vstd::prelude::*;
use vstd::string::*;

verus! {

/// The prefix of `p`, and how long it is. There are none on Unix.
pub open spec fn prefix_of(p: Seq<char>, windows: bool) -> Option<(ComponentView, int)> {
    if windows {
        prefix::prefix(p)
    } else {
        None
    }
}

/// How long the prefix of `p` is.
pub open spec fn prefix_len(p: Seq<char>, windows: bool) -> int {
    match prefix_of(p, windows) {
        Some((_, n)) => n,
        None => 0,
    }
}

/// What separates pieces on a platform.
pub open spec fn platform(windows: bool) -> Rules {
    if windows {
        Rules::Windows
    } else {
        Rules::Unix
    }
}

/// What separates the pieces of `p`.
pub open spec fn rules(p: Seq<char>, windows: bool) -> Rules {
    if windows && prefix::is_verbatim(p) {
        Rules::Verbatim
    } else {
        platform(windows)
    }
}

/// A separator follows the prefix.
pub open spec fn has_separator(p: Seq<char>, windows: bool) -> bool {
    let n = prefix_len(p, windows);
    n < p.len() && separates(p[n], platform(windows))
}

/// The prefix is one that has a root of its own: any but a drive.
pub open spec fn is_rooted(p: Seq<char>, windows: bool) -> bool {
    match prefix_of(p, windows) {
        Some((c, _)) => c.class != Class::Disk,
        None => false,
    }
}

/// The path has a root.
pub open spec fn has_root(p: Seq<char>, windows: bool) -> bool {
    has_separator(p, windows) || is_rooted(p, windows)
}

/// The path does not depend on where it is taken from. On Windows that takes a
/// prefix as well as a root.
pub open spec fn is_absolute(p: Seq<char>, windows: bool) -> bool {
    has_root(p, windows) && (!windows || prefix_of(p, windows) is Some)
}

/// Where the pieces of `p` begin: after its prefix and the separator there.
pub open spec fn start(p: Seq<char>, windows: bool) -> int {
    prefix_len(p, windows) + if has_separator(p, windows) {
        1int
    } else {
        0int
    }
}

/// The path has no root and starts with a dot.
pub open spec fn starts_here(p: Seq<char>, windows: bool) -> bool {
    let n = start(p, windows);
    &&& !has_root(p, windows)
    &&& n < p.len()
    &&& p[n] == '.'
    &&& n + 1 < p.len() ==> separates(p[n + 1], rules(p, windows))
}

/// The pieces of `s` between each separator and the next.
pub open spec fn pieces(s: Seq<char>, rules: Rules) -> Seq<Seq<char>>
    decreases s.len(),
{
    let n = prefix::first_sep(s, rules);
    if n < 0 || n >= s.len() {
        seq![s]
    } else {
        seq![s.take(n)] + pieces(s.skip(n + 1), rules)
    }
}

/// The piece is a component: it is not empty, nor a dot, which counts only where
/// paths are taken word for word.
pub open spec fn counts(piece: Seq<char>, rules: Rules) -> bool {
    piece.len() > 0 && (piece != seq!['.'] || rules == Rules::Verbatim)
}

/// The component that a piece is.
pub open spec fn component(piece: Seq<char>) -> ComponentView {
    if piece == seq!['.'] {
        lone(Class::CurDir, seq![])
    } else if piece == seq!['.', '.'] {
        lone(Class::ParentDir, seq![])
    } else {
        lone(Class::Normal, piece)
    }
}

/// The components that pieces are.
pub open spec fn named(ps: Seq<Seq<char>>, rules: Rules) -> Seq<ComponentView>
    decreases ps.len(),
{
    if ps.len() == 0 {
        seq![]
    } else if counts(ps.last(), rules) {
        named(ps.drop_last(), rules).push(component(ps.last()))
    } else {
        named(ps.drop_last(), rules)
    }
}

/// What comes before the pieces of `p`: its prefix, and its root, or a dot where
/// it starts with one.
pub open spec fn head(p: Seq<char>, windows: bool) -> Seq<ComponentView> {
    let front = match prefix_of(p, windows) {
        Some((c, _)) => seq![c],
        None => seq![],
    };
    if has_separator(p, windows) || is_rooted(p, windows) && rules(p, windows) != Rules::Verbatim {
        front.push(lone(Class::Root, seq![]))
    } else if front.len() == 0 && starts_here(p, windows) {
        front.push(lone(Class::CurDir, seq![]))
    } else {
        front
    }
}

/// The components of `p`.
pub open spec fn components(p: Seq<char>, windows: bool) -> Seq<ComponentView> {
    let r = rules(p, windows);
    head(p, windows) + named(pieces(p.skip(start(p, windows)), r), r)
}

/// The last component of `p`, where that is a name.
pub open spec fn file_name(p: Seq<char>, windows: bool) -> Option<Seq<char>> {
    let c = components(p, windows);
    if c.len() > 0 && c.last().class == Class::Normal {
        Some(c.last().name)
    } else {
        None
    }
}

/// `s` without trailing separators and dots that count for nothing, down to its
/// first `n` characters.
pub open spec fn trim_tail(s: Seq<char>, n: int, rules: Rules) -> Seq<char>
    decreases s.len(),
{
    if s.len() <= n || s.len() == 0 {
        s
    } else if separates(s.last(), rules) {
        trim_tail(s.drop_last(), n, rules)
    } else if s.last() == '.' && rules != Rules::Verbatim && (s.len() - 1 <= n || separates(
        s[s.len() - 2],
        rules,
    )) {
        trim_tail(s.drop_last(), n, rules)
    } else {
        s
    }
}

/// Index of the last separator in `s` from `n` on; `n` where there is none.
pub open spec fn last_sep(s: Seq<char>, n: int, rules: Rules) -> int
    decreases s.len(),
{
    if s.len() <= n || s.len() == 0 {
        n
    } else if separates(s.last(), rules) {
        s.len() - 1
    } else {
        last_sep(s.drop_last(), n, rules)
    }
}

/// How much of `p` is never cut off: its prefix, its root, or the dot that it
/// starts with.
pub open spec fn base(p: Seq<char>, windows: bool) -> int {
    start(p, windows) + if starts_here(p, windows) {
        1int
    } else {
        0int
    }
}

/// The path that `p` stands in; none for a root, a prefix and the empty path.
pub open spec fn parent(p: Seq<char>, windows: bool) -> Option<Seq<char>> {
    let r = rules(p, windows);
    let n = base(p, windows);
    let b = trim_tail(p, n, r);
    if b.len() > n {
        Some(trim_tail(b.take(last_sep(b, n, r)), n, r))
    } else if prefix_of(p, windows) is None && starts_here(p, windows) {
        Some(seq![])
    } else {
        None
    }
}

/// What is put between a path and what is joined to it.
pub open spec fn main_sep(windows: bool) -> char {
    if windows {
        '\\'
    } else {
        '/'
    }
}

/// Where the components `steps` lead from `from`: the root leads back to the
/// prefix, and two dots undo a name.
pub open spec fn follow(from: Seq<ComponentView>, steps: Seq<ComponentView>) -> Seq<ComponentView>
    decreases steps.len(),
{
    if steps.len() == 0 {
        from
    } else {
        let at = follow(from, steps.drop_last());
        match steps.last().class {
            Class::Root => if at.len() > 0 {
                at.take(1).push(steps.last())
            } else {
                at.push(steps.last())
            },
            Class::CurDir => at,
            Class::ParentDir => if at.len() > 0 && at.last().class == Class::Normal {
                at.drop_last()
            } else {
                at
            },
            _ => at.push(steps.last()),
        }
    }
}

/// A component as text; `front` is the text of the prefix.
pub open spec fn text_of(c: ComponentView, front: Seq<char>, windows: bool) -> Seq<char> {
    match c.class {
        Class::Root => seq![main_sep(windows)],
        Class::CurDir => seq!['.'],
        Class::ParentDir => seq!['.', '.'],
        Class::Normal => c.name,
        _ => front,
    }
}

/// Components as a path, on Windows: with a separator between two of them, unless
/// the first or the second is the root.
pub open spec fn written(cs: Seq<ComponentView>, front: Seq<char>) -> Seq<char>
    decreases cs.len(),
{
    if cs.len() == 0 {
        seq![]
    } else {
        let c = cs.last();
        let w = written(cs.drop_last(), front);
        if cs.len() == 1 || c.class == Class::Root || cs[cs.len() - 2].class == Class::Root {
            w + text_of(c, front, true)
        } else {
            w + seq!['\\'] + text_of(c, front, true)
        }
    }
}

/// `p` is a drive and nothing else.
pub open spec fn is_drive(p: Seq<char>, windows: bool) -> bool {
    match prefix_of(p, windows) {
        Some((c, n)) => c.class == Class::Disk && n == p.len(),
        None => false,
    }
}

/// `p` taken from `from`. A path that is absolute or has a prefix stands for
/// itself, and one that has a root but no prefix keeps only the prefix of `from`.
/// Where `from` is to be taken word for word, dots are followed and left out.
pub open spec fn join(from: Seq<char>, p: Seq<char>, windows: bool) -> Seq<char> {
    let front = from.take(prefix_len(from, windows));
    if is_absolute(p, windows) || prefix_of(p, windows) is Some {
        p
    } else if rules(from, windows) == Rules::Verbatim && p.len() > 0 {
        written(follow(components(from, windows), components(p, windows)), front)
    } else if has_root(p, windows) {
        front + p
    } else if from.len() > 0 && !separates(from.last(), platform(windows)) && !is_drive(
        from,
        windows,
    ) {
        from + seq![main_sep(windows)] + p
    } else {
        from + p
    }
}

/// How a path begins.
struct Shape {
    prefix: Option<Component>,
    len: usize,
    rules: Rules,
    separator: bool,
    rooted: bool,
    here: bool,
}

impl Shape {
    /// This is how `p` begins.
    spec fn is_of(&self, p: Seq<char>, windows: bool) -> bool {
        &&& match (self.prefix, prefix_of(p, windows)) {
            (Some(c), Some((d, _))) => c.deep_view() == d,
            (None, None) => true,
            _ => false,
        }
        &&& self.len == prefix_len(p, windows)
        &&& self.rules == rules(p, windows)
        &&& self.separator == has_separator(p, windows)
        &&& self.rooted == is_rooted(p, windows)
        &&& self.here == starts_here(p, windows)
        &&& self.len + (if self.separator {
            1int
        } else {
            0int
        }) + (if self.here {
            1int
        } else {
            0int
        }) <= p.len()
    }

    /// Where the pieces begin.
    fn start(&self, p: Ghost<Seq<char>>, windows: bool) -> (r: usize)
        requires
            self.is_of(p@, windows),
            p@.len() <= usize::MAX,
        ensures
            r == start(p@, windows),
            r <= p@.len(),
    {
        if self.separator {
            self.len + 1
        } else {
            self.len
        }
    }
}

/// What separates pieces on a platform.
fn platform_of(windows: bool) -> (r: Rules)
    ensures
        r == platform(windows),
{
    if windows {
        Rules::Windows
    } else {
        Rules::Unix
    }
}

/// How the path `v` begins.
fn shape(v: &Vec<char>, windows: bool) -> (r: Shape)
    ensures
        r.is_of(v@, windows),
{
    proof {
        prefix::prefix_stays(v@);
    }
    let end: usize = v.len();
    let found = if windows {
        prefix::find_prefix(v)
    } else {
        None
    };
    let (prefix, len): (Option<Component>, usize) = match found {
        Some((c, n)) => (Some(c), n),
        None => (None, 0),
    };
    let rules = if windows && end >= 4 && v[0] == '\\' && v[1] == '\\' && v[2] == '?' && v[3]
        == '\\' {
        Rules::Verbatim
    } else {
        platform_of(windows)
    };
    let separator = len < end && prefix::is_separator(v[len], platform_of(windows));
    let rooted = match &prefix {
        Some(c) => c.class != Class::Disk,
        None => false,
    };
    let here = !separator && !rooted && len < end && v[len] == '.' && (len + 1 >= end
        || prefix::is_separator(v[len + 1], rules));
    Shape { prefix, len, rules, separator, rooted, here }
}

/// Whether the path does not depend on where it is taken from.
pub fn absolute(p: &str, windows: bool) -> (r: bool)
    ensures
        r == is_absolute(p@, windows),
{
    let v = strings::chars(p);
    let s = shape(&v, windows);
    (s.separator || s.rooted) && (!windows || s.prefix.is_some())
}

/// The pieces of `v` from index `from` on.
fn pieces_of(v: &Vec<char>, from: usize, rules: Rules) -> (r: Vec<String>)
    requires
        from <= v@.len(),
    ensures
        r.deep_view() == pieces(v@.skip(from as int), rules),
{
    let mut out: Vec<String> = Vec::new();
    let mut i: usize = from;
    let ghost goal = pieces(v@.skip(from as int), rules);
    proof {
        assert(out.deep_view() + goal =~= goal);
    }
    loop
        invariant
            from <= i <= v@.len(),
            goal == pieces(v@.skip(from as int), rules),
            out.deep_view() + pieces(v@.skip(i as int), rules) == goal,
        decreases v@.len() - i,
    {
        let n: usize = prefix::find_sep(v, i, rules);
        let ghost rest = v@.skip(i as int);
        let ghost before = out.deep_view();
        out.push(strings::string(v, i, n));
        proof {
            assert(v@.subrange(i as int, n as int) =~= rest.take(n - i));
            assert(out.deep_view() =~= before.push(rest.take(n - i)));
        }
        if n == v.len() {
            proof {
                assert(rest.take(n - i) =~= rest);
                assert(out.deep_view() =~= before + pieces(rest, rules));
            }
            return out;
        }
        proof {
            assert(rest.skip(n - i + 1) =~= v@.skip(n + 1));
            assert(out.deep_view() + pieces(v@.skip(n + 1), rules) =~= before + pieces(
                rest,
                rules,
            ));
        }
        i = n + 1;
    }
}

/// The component that a piece is.
fn component_of(piece: String) -> (r: Component)
    ensures
        r.deep_view() == component(piece@),
{
    let empty = String::new();
    proof {
        reveal_strlit(".");
        reveal_strlit("..");
        assert("."@ =~= seq!['.']);
        assert(".."@ =~= seq!['.', '.']);
        assert(empty@ =~= seq![]);
    }
    if strings::same(piece.as_str(), ".") {
        prefix::lone_component(Class::CurDir, empty)
    } else if strings::same(piece.as_str(), "..") {
        prefix::lone_component(Class::ParentDir, empty)
    } else {
        prefix::lone_component(Class::Normal, piece)
    }
}

/// What comes before the pieces of a path.
fn head_of(s: Shape, p: Ghost<Seq<char>>, windows: bool) -> (r: Vec<Component>)
    requires
        s.is_of(p@, windows),
    ensures
        r.deep_view() == head(p@, windows),
{
    let mut out: Vec<Component> = Vec::new();
    let empty = String::new();
    proof {
        assert(empty@ =~= seq![]);
    }
    let bare = s.prefix.is_none();
    if let Some(c) = s.prefix {
        out.push(c);
    }
    let ghost front = out.deep_view();
    proof {
        assert(front =~= match prefix_of(p@, windows) {
            Some((c, _)) => seq![c],
            None => seq![],
        });
    }
    if s.separator || s.rooted && s.rules != Rules::Verbatim {
        out.push(prefix::lone_component(Class::Root, empty));
        proof {
            assert(out.deep_view() =~= front.push(lone(Class::Root, seq![])));
        }
    } else if bare && s.here {
        out.push(prefix::lone_component(Class::CurDir, empty));
        proof {
            assert(out.deep_view() =~= front.push(lone(Class::CurDir, seq![])));
        }
    }
    out
}

/// The components of `p`.
pub fn split(p: &str, windows: bool) -> (r: Vec<Component>)
    ensures
        r.deep_view() == components(p@, windows),
{
    let v = strings::chars(p);
    let s = shape(&v, windows);
    let rules = s.rules;
    proof {
        assert(v.len() <= usize::MAX);
    }
    let from: usize = s.start(Ghost(v@), windows);
    let all = pieces_of(&v, from, rules);
    let mut out = head_of(s, Ghost(v@), windows);
    let ghost first = out.deep_view();
    let ghost ps = all.deep_view();
    let mut i: usize = 0;
    proof {
        reveal_strlit(".");
        assert("."@ =~= seq!['.']);
        assert(first + named(ps.take(0), rules) =~= first);
    }
    while i < all.len()
        invariant
            i <= all@.len(),
            ps == all.deep_view(),
            "."@ == seq!['.'],
            out.deep_view() == first + named(ps.take(i as int), rules),
        decreases all@.len() - i,
    {
        let s = all[i].clone();
        let ghost before = out.deep_view();
        proof {
            assert(ps.take(i + 1).drop_last() =~= ps.take(i as int));
            assert(ps.take(i + 1).last() == s@);
        }
        if s.as_str().unicode_len() > 0 && (rules == Rules::Verbatim || !strings::same(
            s.as_str(),
            ".",
        )) {
            let c = component_of(s);
            out.push(c);
            proof {
                assert(out.deep_view() =~= before.push(component(s@)));
                assert(out.deep_view() =~= first + named(ps.take(i + 1), rules));
            }
        }
        i = i + 1;
    }
    proof {
        assert(ps.take(i as int) =~= ps);
    }
    out
}

/// Whether two components are the same.
pub fn same_component(a: &Component, b: &Component) -> (r: bool)
    ensures
        r == (a.deep_view() == b.deep_view()),
{
    a.class == b.class && strings::same(a.name.as_str(), b.name.as_str()) && strings::same(
        a.share.as_str(),
        b.share.as_str(),
    )
}

/// Whether two paths have the same components.
pub fn same(a: &str, b: &str, windows: bool) -> (r: bool)
    ensures
        r == (components(a@, windows) == components(b@, windows)),
{
    let x = split(a, windows);
    let y = split(b, windows);
    let ghost xs = x.deep_view();
    let ghost ys = y.deep_view();
    proof {
        assert(xs.len() == x@.len() && ys.len() == y@.len());
    }
    if x.len() != y.len() {
        return false;
    }
    let mut i: usize = 0;
    while i < x.len()
        invariant
            i <= x@.len(),
            x@.len() == y@.len(),
            xs == x.deep_view(),
            ys == y.deep_view(),
            xs == components(a@, windows),
            ys == components(b@, windows),
            forall|j: int| 0 <= j < i ==> xs[j] == ys[j],
        decreases x@.len() - i,
    {
        proof {
            assert(xs[i as int] == x@[i as int].deep_view());
            assert(ys[i as int] == y@[i as int].deep_view());
        }
        if !same_component(&x[i], &y[i]) {
            return false;
        }
        i = i + 1;
    }
    proof {
        assert(xs =~= ys);
    }
    true
}

/// The last component of `p`, where it is a name.
pub fn base_name(p: &str, windows: bool) -> (r: Option<String>)
    ensures
        r.deep_view() == file_name(p@, windows),
{
    let mut c = split(p, windows);
    let ghost cs = c.deep_view();
    match c.pop() {
        None => None,
        Some(last) => {
            proof {
                assert(cs.last() == last.deep_view());
            }
            if last.class == Class::Normal {
                Some(last.name)
            } else {
                None
            }
        },
    }
}

/// How much of the first `len` characters of `v` is left without trailing
/// separators and dots that count for nothing.
fn trimmed_len(v: &Vec<char>, len: usize, n: usize, rules: Rules) -> (r: usize)
    requires
        len <= v@.len(),
    ensures
        r <= len,
        v@.take(r as int) == trim_tail(v@.take(len as int), n as int, rules),
{
    let mut k: usize = len;
    while k > n && (prefix::is_separator(v[k - 1], rules) || (v[k - 1] == '.' && rules
        != Rules::Verbatim && (k - 1 <= n || prefix::is_separator(v[k - 2], rules))))
        invariant
            k <= len <= v@.len(),
            trim_tail(v@.take(k as int), n as int, rules) == trim_tail(
                v@.take(len as int),
                n as int,
                rules,
            ),
        decreases k,
    {
        proof {
            assert(v@.take(k as int).drop_last() =~= v@.take(k - 1));
        }
        k = k - 1;
    }
    k
}

/// Index of the last separator among the first `len` characters of `v`, from `n`
/// on; `n` where there is none.
fn find_last_sep(v: &Vec<char>, len: usize, n: usize, rules: Rules) -> (r: usize)
    requires
        n <= len <= v@.len(),
    ensures
        n <= r <= len,
        r == last_sep(v@.take(len as int), n as int, rules),
{
    let mut k: usize = len;
    while k > n
        invariant
            n <= k <= len <= v@.len(),
            last_sep(v@.take(k as int), n as int, rules) == last_sep(
                v@.take(len as int),
                n as int,
                rules,
            ),
        decreases k,
    {
        if prefix::is_separator(v[k - 1], rules) {
            return k - 1;
        }
        proof {
            assert(v@.take(k as int).drop_last() =~= v@.take(k - 1));
        }
        k = k - 1;
    }
    n
}

/// The path that `p` stands in.
pub fn parent_of(p: &str, windows: bool) -> (r: Option<String>)
    ensures
        r.deep_view() == parent(p@, windows),
{
    let v = strings::chars(p);
    let s = shape(&v, windows);
    proof {
        assert(v.len() <= usize::MAX);
        assert(v@.take(v@.len() as int) =~= v@);
    }
    let from: usize = s.start(Ghost(v@), windows);
    let n: usize = if s.here {
        from + 1
    } else {
        from
    };
    let b: usize = trimmed_len(&v, v.len(), n, s.rules);
    if b > n {
        let k: usize = find_last_sep(&v, b, n, s.rules);
        let m: usize = trimmed_len(&v, k, n, s.rules);
        proof {
            assert(v@.take(b as int).take(k as int) =~= v@.take(k as int));
            assert(v@.subrange(0, m as int) =~= v@.take(m as int));
        }
        Some(strings::string(&v, 0, m))
    } else if s.prefix.is_none() && s.here {
        let r = String::new();
        proof {
            assert(r@ =~= seq![]);
        }
        Some(r)
    } else {
        None
    }
}

/// Goes one component further.
fn follow_one(at: &mut Vec<Component>, step: Component)
    ensures
        final(at).deep_view() == follow(old(at).deep_view(), seq![step.deep_view()]),
{
    let ghost before = at.deep_view();
    let ghost s = step.deep_view();
    proof {
        reveal_with_fuel(follow, 2);
        assert(seq![s].drop_last() =~= seq![]);
    }
    match step.class {
        Class::Root => {
            while at.len() > 1
                invariant
                    before.len() > 0 ==> at@.len() > 0,
                    at@.len() <= before.len(),
                    at.deep_view() == before.take(at@.len() as int),
                decreases at@.len(),
            {
                let ghost n = at@.len();
                let _ = at.pop();
                proof {
                    assert(at.deep_view() =~= before.take(n - 1));
                }
            }
            let ghost kept = at.deep_view();
            at.push(step);
            proof {
                assert(at.deep_view() =~= kept.push(s));
                if before.len() == 0 {
                    assert(kept =~= before);
                }
            }
        },
        Class::CurDir => {},
        Class::ParentDir => {
            let n: usize = at.len();
            if n > 0 {
                proof {
                    assert(before.last() == at@[n - 1].deep_view());
                }
                if at[n - 1].class == Class::Normal {
                    let _ = at.pop();
                    proof {
                        assert(at.deep_view() =~= before.drop_last());
                    }
                }
            }
        },
        _ => {
            at.push(step);
            proof {
                assert(at.deep_view() =~= before.push(s));
            }
        },
    }
}

/// A component as text.
fn component_text(c: &Component, front: &str, windows: bool) -> (r: String)
    ensures
        r@ == text_of(c.deep_view(), front@, windows),
{
    proof {
        reveal_strlit("/");
        reveal_strlit("\\");
        reveal_strlit(".");
        reveal_strlit("..");
        assert("/"@ =~= seq!['/']);
        assert("\\"@ =~= seq!['\\']);
        assert("."@ =~= seq!['.']);
        assert(".."@ =~= seq!['.', '.']);
    }
    match c.class {
        Class::Root => if windows {
            "\\".to_string()
        } else {
            "/".to_string()
        },
        Class::CurDir => ".".to_string(),
        Class::ParentDir => "..".to_string(),
        Class::Normal => c.name.clone(),
        _ => front.to_string(),
    }
}

/// The components of `p` as text.
pub open spec fn texts(p: Seq<char>, windows: bool) -> Seq<Seq<char>> {
    let front = p.take(prefix_len(p, windows));
    components(p, windows).map_values(|c: ComponentView| text_of(c, front, windows))
}

/// The prefix of `p`.
fn front_of(p: &str, windows: bool) -> (r: String)
    ensures
        r@ == p@.take(prefix_len(p@, windows)),
{
    let v = strings::chars(p);
    let s = shape(&v, windows);
    proof {
        assert(v@.subrange(0, s.len as int) =~= v@.take(s.len as int));
    }
    strings::string(&v, 0, s.len)
}

/// The components of `p` as text.
pub fn split_texts(p: &str, windows: bool) -> (r: Vec<String>)
    ensures
        r.deep_view() == texts(p@, windows),
{
    let cs = split(p, windows);
    let front = front_of(p, windows);
    let ghost all = texts(p@, windows);
    let mut out: Vec<String> = Vec::new();
    let mut i: usize = 0;
    proof {
        assert(out.deep_view() =~= all.take(0));
    }
    while i < cs.len()
        invariant
            i <= cs@.len(),
            cs.deep_view() == components(p@, windows),
            front@ == p@.take(prefix_len(p@, windows)),
            all == texts(p@, windows),
            out.deep_view() == all.take(i as int),
        decreases cs@.len() - i,
    {
        let ghost before = out.deep_view();
        let t = component_text(&cs[i], front.as_str(), windows);
        proof {
            assert(cs.deep_view()[i as int] == cs@[i as int].deep_view());
            assert(all[i as int] == t@);
        }
        out.push(t);
        proof {
            assert(out.deep_view() =~= before.push(all[i as int]));
            assert(out.deep_view() =~= all.take(i + 1));
        }
        i = i + 1;
    }
    proof {
        assert(all.take(i as int) =~= all);
    }
    out
}

/// Components as a path, on Windows.
fn write(cs: &Vec<Component>, front: &str) -> (r: String)
    ensures
        r@ == written(cs.deep_view(), front@),
{
    let ghost all = cs.deep_view();
    let mut out = String::new();
    let mut i: usize = 0;
    proof {
        assert(out@ =~= seq![]);
        assert(all.take(0) =~= seq![]);
    }
    while i < cs.len()
        invariant
            i <= cs@.len(),
            all == cs.deep_view(),
            out@ == written(all.take(i as int), front@),
        decreases cs@.len() - i,
    {
        let ghost next = all.take(i + 1);
        proof {
            assert(next.drop_last() =~= all.take(i as int));
            assert(next.last() == cs@[i as int].deep_view());
            if i > 0 {
                assert(next[i - 1] == cs@[i - 1].deep_view());
            }
        }
        let ghost before = out@;
        if i > 0 && cs[i].class != Class::Root && cs[i - 1].class != Class::Root {
            out.push('\\');
            proof {
                assert(out@ =~= before + seq!['\\']);
            }
        }
        let t = component_text(&cs[i], front, true);
        out.append(t.as_str());
        i = i + 1;
    }
    proof {
        assert(all.take(i as int) =~= all);
    }
    out
}

/// `p` taken from a path that is to be taken word for word.
fn joined_verbatim(from: &str, p: &str) -> (r: String)
    ensures
        r@ == written(
            follow(components(from@, true), components(p@, true)),
            from@.take(prefix_len(from@, true)),
        ),
{
    let front = front_of(from, true);
    let mut at = split(from, true);
    let steps = split(p, true);
    let ghost start = at.deep_view();
    let ghost all = steps.deep_view();
    proof {
        assert(all.take(0) =~= seq![]);
    }
    let mut i: usize = 0;
    while i < steps.len()
        invariant
            i <= steps@.len(),
            all == steps.deep_view(),
            at.deep_view() == follow(start, all.take(i as int)),
        decreases steps@.len() - i,
    {
        let c = &steps[i];
        let step = Component {
            class: c.class,
            name: c.name.clone(),
            share: c.share.clone(),
        };
        proof {
            let next = all.take(i + 1);
            assert(next.drop_last() =~= all.take(i as int));
            assert(next.last() == step.deep_view());
            follow_one_more(start, next);
        }
        follow_one(&mut at, step);
        i = i + 1;
    }
    proof {
        assert(all.take(i as int) =~= all);
    }
    write(&at, front.as_str())
}

proof fn follow_one_more(from: Seq<ComponentView>, steps: Seq<ComponentView>)
    requires
        steps.len() > 0,
    ensures
        follow(from, steps) == follow(follow(from, steps.drop_last()), seq![steps.last()]),
{
    reveal_with_fuel(follow, 2);
    assert(seq![steps.last()].drop_last() =~= seq![]);
}

/// `p` taken from `from`.
pub fn joined(from: &str, p: &str, windows: bool) -> (r: String)
    ensures
        r@ == join(from@, p@, windows),
{
    let v = strings::chars(p);
    let s = shape(&v, windows);
    let w = strings::chars(from);
    let t = shape(&w, windows);
    if (s.separator || s.rooted) && !windows || s.prefix.is_some() {
        return p.to_string();
    }
    if t.rules == Rules::Verbatim && v.len() > 0 {
        return joined_verbatim(from, p);
    }
    if s.separator || s.rooted {
        let mut out = strings::string(&w, 0, t.len);
        proof {
            assert(w@.subrange(0, t.len as int) =~= w@.take(t.len as int));
        }
        out.append(p);
        return out;
    }
    let drive = match &t.prefix {
        Some(c) => c.class == Class::Disk && t.len == w.len(),
        None => false,
    };
    let mut out = from.to_string();
    let n: usize = w.len();
    if n > 0 && !prefix::is_separator(w[n - 1], platform_of(windows)) && !drive {
        out.push(if windows {
            '\\'
        } else {
            '/'
        });
        proof {
            assert(out@ =~= from@ + seq![main_sep(windows)]);
        }
    }
    out.append(p);
    out
}

} // verus!
