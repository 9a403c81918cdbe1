//! The order of texts and of paths.

use crate::paths;
use crate::paths::prefix::{Class, Component, ComponentView};
use crate::strings;
use vstd::prelude::*;
use vstd::seq_lib::to_multiset_insert;

verus! {

/// `a` comes before `b`, character by character.
pub open spec fn before(a: Seq<char>, b: Seq<char>) -> bool
    decreases a.len(),
{
    if b.len() == 0 {
        false
    } else if a.len() == 0 {
        true
    } else if a[0] == b[0] {
        before(a.drop_first(), b.drop_first())
    } else {
        a[0] < b[0]
    }
}

/// Where a kind of component stands among the others.
pub open spec fn rank(class: Class) -> int {
    match class {
        Class::Verbatim => 0,
        Class::VerbatimUnc => 1,
        Class::VerbatimDisk => 2,
        Class::Device => 3,
        Class::Unc => 4,
        Class::Disk => 5,
        Class::Root => 6,
        Class::CurDir => 7,
        Class::ParentDir => 8,
        Class::Normal => 9,
    }
}

/// The component `x` comes before `y`: by kind, then by name, then by share.
pub open spec fn component_before(x: ComponentView, y: ComponentView) -> bool {
    ||| rank(x.class) < rank(y.class)
    ||| x.class == y.class && before(x.name, y.name)
    ||| x.class == y.class && x.name == y.name && before(x.share, y.share)
}

/// The path with the components `a` comes before the one with the components
/// `b`, component by component.
pub open spec fn path_before(a: Seq<ComponentView>, b: Seq<ComponentView>) -> bool
    decreases a.len(),
{
    if b.len() == 0 {
        false
    } else if a.len() == 0 {
        true
    } else if a[0] == b[0] {
        path_before(a.drop_first(), b.drop_first())
    } else {
        component_before(a[0], b[0])
    }
}

/// Of two different texts one comes before the other, and not the other way
/// round.
pub proof fn texts_are_ordered(a: Seq<char>, b: Seq<char>)
    ensures
        before(a, b) ==> !before(b, a) && a != b,
        a != b ==> before(a, b) || before(b, a),
    decreases a.len(),
{
    if a.len() > 0 && b.len() > 0 && a[0] == b[0] {
        texts_are_ordered(a.drop_first(), b.drop_first());
        if a.drop_first() == b.drop_first() {
            assert(a =~= seq![a[0]] + a.drop_first());
            assert(b =~= seq![b[0]] + b.drop_first());
        }
    } else if a.len() == 0 && b.len() == 0 {
        assert(a =~= b);
    }
}

/// What comes before something that comes before a third comes before that.
pub proof fn text_order_is_transitive(a: Seq<char>, b: Seq<char>, c: Seq<char>)
    requires
        before(a, b),
        before(b, c),
    ensures
        before(a, c),
    decreases a.len(),
{
    if a.len() > 0 && b.len() > 0 && c.len() > 0 && a[0] == b[0] && b[0] == c[0] {
        text_order_is_transitive(a.drop_first(), b.drop_first(), c.drop_first());
    }
}

proof fn components_are_ordered(x: ComponentView, y: ComponentView)
    ensures
        component_before(x, y) ==> !component_before(y, x) && x != y,
        x != y ==> component_before(x, y) || component_before(y, x),
{
    texts_are_ordered(x.name, y.name);
    texts_are_ordered(x.share, y.share);
}

proof fn component_order_is_transitive(x: ComponentView, y: ComponentView, z: ComponentView)
    requires
        component_before(x, y),
        component_before(y, z),
    ensures
        component_before(x, z),
{
    if x.class == y.class && y.class == z.class {
        if before(x.name, y.name) && before(y.name, z.name) {
            text_order_is_transitive(x.name, y.name, z.name);
        }
        if before(x.share, y.share) && before(y.share, z.share) {
            text_order_is_transitive(x.share, y.share, z.share);
        }
    }
}

/// Of two paths with different components one comes before the other, and not
/// the other way round.
pub proof fn paths_are_ordered(a: Seq<ComponentView>, b: Seq<ComponentView>)
    ensures
        path_before(a, b) ==> !path_before(b, a) && a != b,
        a != b ==> path_before(a, b) || path_before(b, a),
    decreases a.len(),
{
    if a.len() > 0 && b.len() > 0 {
        components_are_ordered(a[0], b[0]);
        if a[0] == b[0] {
            paths_are_ordered(a.drop_first(), b.drop_first());
            if a.drop_first() == b.drop_first() {
                assert(a =~= seq![a[0]] + a.drop_first());
                assert(b =~= seq![b[0]] + b.drop_first());
            }
        }
    } else if a.len() == 0 && b.len() == 0 {
        assert(a =~= b);
    }
}

/// A path that comes before one that comes before a third comes before that.
pub proof fn path_order_is_transitive(
    a: Seq<ComponentView>,
    b: Seq<ComponentView>,
    c: Seq<ComponentView>,
)
    requires
        path_before(a, b),
        path_before(b, c),
    ensures
        path_before(a, c),
    decreases a.len(),
{
    if a.len() > 0 && b.len() > 0 && c.len() > 0 {
        components_are_ordered(a[0], b[0]);
        components_are_ordered(b[0], c[0]);
        components_are_ordered(a[0], c[0]);
        if a[0] == b[0] && b[0] == c[0] {
            path_order_is_transitive(a.drop_first(), b.drop_first(), c.drop_first());
        } else if a[0] != b[0] && b[0] != c[0] {
            component_order_is_transitive(a[0], b[0], c[0]);
        }
    }
}

/// Whether `a` comes before `b`.
pub fn is_before(a: &str, b: &str) -> (r: bool)
    ensures
        r == before(a@, b@),
{
    let x = strings::chars(a);
    let y = strings::chars(b);
    let mut i: usize = 0;
    proof {
        assert(a@.skip(0) =~= a@);
        assert(b@.skip(0) =~= b@);
    }
    while i < x.len() && i < y.len()
        invariant
            i <= x.len(),
            i <= y.len(),
            x@ == a@,
            y@ == b@,
            before(a@, b@) == before(a@.skip(i as int), b@.skip(i as int)),
        decreases x.len() - i,
    {
        proof {
            assert(a@.skip(i as int).drop_first() =~= a@.skip(i + 1));
            assert(b@.skip(i as int).drop_first() =~= b@.skip(i + 1));
        }
        if x[i] != y[i] {
            return x[i] < y[i];
        }
        i = i + 1;
    }
    i < y.len()
}

/// Where a kind of component stands among the others.
fn rank_of(class: Class) -> (r: u8)
    ensures
        r == rank(class),
{
    match class {
        Class::Verbatim => 0,
        Class::VerbatimUnc => 1,
        Class::VerbatimDisk => 2,
        Class::Device => 3,
        Class::Unc => 4,
        Class::Disk => 5,
        Class::Root => 6,
        Class::CurDir => 7,
        Class::ParentDir => 8,
        Class::Normal => 9,
    }
}

/// Whether the component `x` comes before `y`.
fn component_is_before(x: &Component, y: &Component) -> (r: bool)
    ensures
        r == component_before(x.deep_view(), y.deep_view()),
{
    if x.class != y.class {
        return rank_of(x.class) < rank_of(y.class);
    }
    if !strings::same(x.name.as_str(), y.name.as_str()) {
        return is_before(x.name.as_str(), y.name.as_str());
    }
    proof {
        texts_are_ordered(x.name@, y.name@);
    }
    is_before(x.share.as_str(), y.share.as_str())
}

/// Whether the path `a` comes before the path `b`.
pub fn path_is_before(a: &str, b: &str, windows: bool) -> (r: bool)
    ensures
        r == path_before(paths::components(a@, windows), paths::components(b@, windows)),
{
    let x = paths::split(a, windows);
    let y = paths::split(b, windows);
    let ghost p = x.deep_view();
    let ghost q = y.deep_view();
    let mut i: usize = 0;
    proof {
        assert(p.skip(0) =~= p);
        assert(q.skip(0) =~= q);
    }
    while i < x.len() && i < y.len()
        invariant
            i <= x.len(),
            i <= y.len(),
            p == x.deep_view(),
            q == y.deep_view(),
            path_before(p, q) == path_before(p.skip(i as int), q.skip(i as int)),
            p == paths::components(a@, windows),
            q == paths::components(b@, windows),
        decreases x.len() - i,
    {
        proof {
            assert(p.skip(i as int).drop_first() =~= p.skip(i + 1));
            assert(q.skip(i as int).drop_first() =~= q.skip(i + 1));
            assert(p.skip(i as int)[0] == x@[i as int].deep_view());
            assert(q.skip(i as int)[0] == y@[i as int].deep_view());
        }
        if !paths::same_component(&x[i], &y[i]) {
            return component_is_before(&x[i], &y[i]);
        }
        i = i + 1;
    }
    i < y.len()
}

/// No path comes before one that stands in front of it.
pub open spec fn paths_sorted(s: Seq<Seq<char>>, windows: bool) -> bool {
    forall|i: int, j: int|
        0 <= i < j < s.len() ==> !path_before(
            paths::components(#[trigger] s[j], windows),
            paths::components(#[trigger] s[i], windows),
        )
}

/// Puts a path in its place among sorted ones.
fn insert_path(v: &mut Vec<String>, p: String, windows: bool)
    requires
        paths_sorted(old(v).deep_view(), windows),
    ensures
        paths_sorted(final(v).deep_view(), windows),
        final(v).deep_view().to_multiset() == old(v).deep_view().to_multiset().insert(p@),
{
    let ghost s = v.deep_view();
    let ghost c = paths::components(p@, windows);
    let mut n: usize = v.len();
    while n > 0 && path_is_before(p.as_str(), v[n - 1].as_str(), windows)
        invariant
            n <= v@.len(),
            s == v.deep_view(),
            c == paths::components(p@, windows),
            forall|j: int|
                n <= j < v@.len() ==> path_before(c, paths::components(#[trigger] s[j], windows)),
        decreases n,
    {
        n = n - 1;
    }
    proof {
        if n > 0 {
            assert(s[n - 1] == v@[n - 1]@);
        }
        assert forall|i: int| 0 <= i < n implies !path_before(
            c,
            paths::components(#[trigger] s[i], windows),
        ) by {
            let x = paths::components(s[i], windows);
            let y = paths::components(s[n - 1], windows);
            if i < n - 1 && path_before(c, x) {
                paths_are_ordered(x, y);
                if x != y {
                    path_order_is_transitive(c, x, y);
                }
            }
        }
        assert forall|j: int| n <= j < s.len() implies !path_before(
            paths::components(#[trigger] s[j], windows),
            c,
        ) by {
            paths_are_ordered(c, paths::components(s[j], windows));
        }
    }
    let ghost text = p@;
    v.insert(n, p);
    proof {
        let t = v.deep_view();
        assert(t =~= s.insert(n as int, text));
        to_multiset_insert(s, n as int, text);
        assert forall|i: int, j: int| 0 <= i < j < t.len() implies !path_before(
            paths::components(#[trigger] t[j], windows),
            paths::components(#[trigger] t[i], windows),
        ) by {
            let a = if i < n {
                i
            } else {
                i - 1
            };
            let b = if j < n {
                j
            } else {
                j - 1
            };
            if i != n {
                assert(t[i] == s[a]);
            }
            if j != n {
                assert(t[j] == s[b]);
            }
        }
    }
}

/// The paths in order.
pub fn sort_paths(v: &Vec<String>, windows: bool) -> (r: Vec<String>)
    ensures
        paths_sorted(r.deep_view(), windows),
        r.deep_view().to_multiset() == v.deep_view().to_multiset(),
        r@.len() == v@.len(),
{
    let ghost all = v.deep_view();
    let mut out: Vec<String> = Vec::new();
    let mut i: usize = 0;
    proof {
        assert(out.deep_view() =~= all.take(0));
    }
    while i < v.len()
        invariant
            i <= v@.len(),
            all == v.deep_view(),
            paths_sorted(out.deep_view(), windows),
            out.deep_view().to_multiset() == all.take(i as int).to_multiset(),
        decreases v@.len() - i,
    {
        let p = v[i].clone();
        proof {
            assert(all.take(i + 1) =~= all.take(i as int).push(p@));
            all.take(i as int).to_multiset_ensures();
        }
        insert_path(&mut out, p, windows);
        i = i + 1;
    }
    proof {
        assert(all.take(i as int) =~= all);
        all.to_multiset_ensures();
        out.deep_view().to_multiset_ensures();
        assert(out.deep_view().len() == all.len());
    }
    out
}

} // verus!
