//! Separators, and what a path may begin with on Windows: a drive, a share or a
//! device.

use crate::strings;
use vstd::prelude::*;

verus! {

/// What separates the pieces of a path: slashes on Unix, slashes of both kinds on
/// Windows, and backslashes alone where the path begins with `\\?\`.
#[derive(Clone, Copy, Debug, PartialEq, Eq, Structural)]
pub enum Rules {
    Unix,
    Windows,
    Verbatim,
}

/// The kinds of components, in the order they sort in.
#[derive(Clone, Copy, Debug, PartialEq, Eq, Structural)]
pub enum Class {
    /// `\\?\name`
    Verbatim,
    /// `\\?\UNC\name\share`
    VerbatimUnc,
    /// `\\?\C:`
    VerbatimDisk,
    /// `\\.\name`
    Device,
    /// `\\name\share`
    Unc,
    /// `C:`
    Disk,
    /// The root.
    Root,
    /// A dot.
    CurDir,
    /// Two dots.
    ParentDir,
    /// A name.
    Normal,
}

/// A component of a path. A name and a share are empty where there is none; a
/// drive is named by its letter in upper case.
#[derive(Debug, PartialEq, Eq)]
pub struct Component {
    pub class: Class,
    pub name: String,
    pub share: String,
}

/// What a [`Component`] stands for.
pub struct ComponentView {
    pub class: Class,
    pub name: Seq<char>,
    pub share: Seq<char>,
}

impl DeepView for Component {
    type V = ComponentView;

    open spec fn deep_view(&self) -> ComponentView {
        ComponentView { class: self.class, name: self.name@, share: self.share@ }
    }
}

/// A component without a share.
pub open spec fn lone(class: Class, name: Seq<char>) -> ComponentView {
    ComponentView { class, name, share: seq![] }
}

/// `c` separates pieces.
pub open spec fn separates(c: char, rules: Rules) -> bool {
    match rules {
        Rules::Unix => c == '/',
        Rules::Windows => c == '/' || c == '\\',
        Rules::Verbatim => c == '\\',
    }
}

/// Index of the first separator in `s`; its length where there is none.
pub open spec fn first_sep(s: Seq<char>, rules: Rules) -> int
    decreases s.len(),
{
    if s.len() == 0 || separates(s[0], rules) {
        0
    } else {
        1 + first_sep(s.drop_first(), rules)
    }
}

/// `c` can stand for a drive.
pub open spec fn is_letter(c: char) -> bool {
    'a' <= c && c <= 'z' || 'A' <= c && c <= 'Z'
}

/// A letter in upper case.
pub open spec fn upper(c: char) -> char {
    if 'a' <= c && c <= 'z' {
        (c as int - 32) as char
    } else {
        c
    }
}

/// A drive stands in `s` at index `at`.
pub open spec fn drive_at(s: Seq<char>, at: int) -> bool {
    at + 2 <= s.len() && is_letter(s[at]) && s[at + 1] == ':'
}

/// `s` begins with two separators.
pub open spec fn is_double(s: Seq<char>) -> bool {
    s.len() >= 2 && separates(s[0], Rules::Windows) && separates(s[1], Rules::Windows)
}

/// `s` begins with `\\?\`.
pub open spec fn is_verbatim(s: Seq<char>) -> bool {
    s.len() >= 4 && s[0] == '\\' && s[1] == '\\' && s[2] == '?' && s[3] == '\\'
}

/// What a path that begins with `\\?\` has as its prefix, and how long that is.
pub open spec fn verbatim(s: Seq<char>) -> (ComponentView, int) {
    if s.len() >= 8 && s[4] == 'U' && s[5] == 'N' && s[6] == 'C' && s[7] == '\\' {
        let n = 8 + first_sep(s.skip(8), Rules::Verbatim);
        let m = if n < s.len() {
            n + 1 + first_sep(s.skip(n + 1), Rules::Verbatim)
        } else {
            n
        };
        if m > n + 1 {
            (
                ComponentView {
                    class: Class::VerbatimUnc,
                    name: s.subrange(8, n),
                    share: s.subrange(n + 1, m),
                },
                m,
            )
        } else {
            (lone(Class::VerbatimUnc, s.subrange(8, n)), n)
        }
    } else if drive_at(s, 4) && (s.len() == 6 || separates(s[6], Rules::Windows)) {
        (lone(Class::VerbatimDisk, seq![upper(s[4])]), 6)
    } else {
        let n = 4 + first_sep(s.skip(4), Rules::Verbatim);
        (lone(Class::Verbatim, s.subrange(4, n)), n)
    }
}

/// The share that a path that begins with two separators begins with.
pub open spec fn share(s: Seq<char>) -> Option<(ComponentView, int)> {
    let n = 2 + first_sep(s.skip(2), Rules::Windows);
    let m = n + 1 + first_sep(s.skip(n + 1), Rules::Windows);
    if 2 < n < s.len() && n + 1 < m {
        Some(
            (
                ComponentView {
                    class: Class::Unc,
                    name: s.subrange(2, n),
                    share: s.subrange(n + 1, m),
                },
                m,
            ),
        )
    } else {
        None
    }
}

/// What a path has as its prefix on Windows, and how long that is.
pub open spec fn prefix(s: Seq<char>) -> Option<(ComponentView, int)> {
    if is_verbatim(s) {
        Some(verbatim(s))
    } else if is_double(s) && s.len() >= 4 && s[2] == '.' && separates(s[3], Rules::Windows) {
        let n = 4 + first_sep(s.skip(4), Rules::Windows);
        Some((lone(Class::Device, s.subrange(4, n)), n))
    } else if is_double(s) {
        share(s)
    } else if drive_at(s, 0) {
        Some((lone(Class::Disk, seq![upper(s[0])]), 2))
    } else {
        None
    }
}

/// The first separator stands inside.
pub proof fn first_sep_stays(s: Seq<char>, rules: Rules)
    ensures
        0 <= first_sep(s, rules) <= s.len(),
        first_sep(s, rules) < s.len() ==> separates(s[first_sep(s, rules)], rules),
        forall|i: int| 0 <= i < first_sep(s, rules) ==> !separates(#[trigger] s[i], rules),
    decreases s.len(),
{
    if s.len() > 0 && !separates(s[0], rules) {
        let t = s.drop_first();
        first_sep_stays(t, rules);
        assert forall|i: int| 0 <= i < first_sep(s, rules) implies !separates(
            #[trigger] s[i],
            rules,
        ) by {
            if i > 0 {
                assert(t[i - 1] == s[i]);
            }
        }
    }
}

/// A component of this class is a prefix.
pub open spec fn is_prefix(class: Class) -> bool {
    match class {
        Class::Root => false,
        Class::CurDir => false,
        Class::ParentDir => false,
        Class::Normal => false,
        _ => true,
    }
}

/// A prefix stands inside the path.
pub proof fn prefix_stays(s: Seq<char>)
    ensures
        match prefix(s) {
            Some((c, n)) => 2 <= n <= s.len() && is_prefix(c.class),
            None => true,
        },
{
    if s.len() >= 2 {
        first_sep_stays(s.skip(2), Rules::Windows);
        let n = 2 + first_sep(s.skip(2), Rules::Windows);
        if n < s.len() {
            first_sep_stays(s.skip(n + 1), Rules::Windows);
        }
    }
    if s.len() >= 4 {
        first_sep_stays(s.skip(4), Rules::Windows);
        first_sep_stays(s.skip(4), Rules::Verbatim);
    }
    if s.len() >= 8 {
        first_sep_stays(s.skip(8), Rules::Verbatim);
        let n = 8 + first_sep(s.skip(8), Rules::Verbatim);
        if n < s.len() {
            first_sep_stays(s.skip(n + 1), Rules::Verbatim);
        }
    }
}

/// Whether `c` separates pieces.
pub fn is_separator(c: char, rules: Rules) -> (r: bool)
    ensures
        r == separates(c, rules),
{
    match rules {
        Rules::Unix => c == '/',
        Rules::Windows => c == '/' || c == '\\',
        Rules::Verbatim => c == '\\',
    }
}

/// Index of the first separator at or after `from`; the length where there is
/// none.
pub fn find_sep(v: &Vec<char>, from: usize, rules: Rules) -> (r: usize)
    requires
        from <= v@.len(),
    ensures
        from <= r <= v@.len(),
        r == from + first_sep(v@.skip(from as int), rules),
{
    let mut i: usize = from;
    while i < v.len() && !is_separator(v[i], rules)
        invariant
            from <= i <= v@.len(),
            first_sep(v@.skip(from as int), rules) == i - from + first_sep(
                v@.skip(i as int),
                rules,
            ),
        decreases v@.len() - i,
    {
        proof {
            assert(v@.skip(i as int).drop_first() =~= v@.skip(i + 1));
        }
        i = i + 1;
    }
    i
}

/// A component without a share.
pub fn lone_component(class: Class, name: String) -> (r: Component)
    ensures
        r.deep_view() == lone(class, name@),
{
    let share = String::new();
    proof {
        assert(share@ =~= seq![]);
    }
    Component { class, name, share }
}

/// The letter of a drive, as its name.
fn drive_name(c: char) -> (r: String)
    requires
        is_letter(c),
    ensures
        r@ == seq![upper(c)],
{
    let d: char = if 'a' <= c && c <= 'z' {
        ((c as u8) - 32) as char
    } else {
        c
    };
    let mut r = String::new();
    r.push(d);
    proof {
        assert(r@ =~= seq![upper(c)]);
    }
    r
}

/// Whether a drive stands at index `at`.
fn is_drive_at(v: &Vec<char>, at: usize) -> (r: bool)
    requires
        at <= v@.len(),
    ensures
        r == drive_at(v@, at as int),
{
    if v.len() - at < 2 {
        return false;
    }
    let c = v[at];
    ('a' <= c && c <= 'z' || 'A' <= c && c <= 'Z') && v[at + 1] == ':'
}

/// The prefix of a path that begins with `\\?\`.
fn find_verbatim(v: &Vec<char>) -> (r: (Component, usize))
    requires
        is_verbatim(v@),
    ensures
        (r.0.deep_view(), r.1 as int) == verbatim(v@),
{
    let end: usize = v.len();
    if end >= 8 && v[4] == 'U' && v[5] == 'N' && v[6] == 'C' && v[7] == '\\' {
        let n: usize = find_sep(v, 8, Rules::Verbatim);
        let m: usize = if n < end {
            find_sep(v, n + 1, Rules::Verbatim)
        } else {
            n
        };
        if m > n && m - n > 1 {
            let c = Component {
                class: Class::VerbatimUnc,
                name: strings::string(v, 8, n),
                share: strings::string(v, n + 1, m),
            };
            return (c, m);
        }
        return (lone_component(Class::VerbatimUnc, strings::string(v, 8, n)), n);
    }
    if is_drive_at(v, 4) && (end == 6 || is_separator(v[6], Rules::Windows)) {
        return (lone_component(Class::VerbatimDisk, drive_name(v[4])), 6);
    }
    let n: usize = find_sep(v, 4, Rules::Verbatim);
    (lone_component(Class::Verbatim, strings::string(v, 4, n)), n)
}

/// The share that a path that begins with two separators begins with.
fn find_share(v: &Vec<char>) -> (r: Option<(Component, usize)>)
    requires
        is_double(v@),
    ensures
        match r {
            Some((c, n)) => share(v@) == Some((c.deep_view(), n as int)),
            None => share(v@) is None,
        },
{
    let n: usize = find_sep(v, 2, Rules::Windows);
    if n == 2 || n == v.len() {
        return None;
    }
    let m: usize = find_sep(v, n + 1, Rules::Windows);
    if m == n + 1 {
        return None;
    }
    let c = Component {
        class: Class::Unc,
        name: strings::string(v, 2, n),
        share: strings::string(v, n + 1, m),
    };
    Some((c, m))
}

/// What a path has as its prefix on Windows, and how long that is.
pub fn find_prefix(v: &Vec<char>) -> (r: Option<(Component, usize)>)
    ensures
        match r {
            Some((c, n)) => prefix(v@) == Some((c.deep_view(), n as int)),
            None => prefix(v@) is None,
        },
{
    let end: usize = v.len();
    if end >= 4 && v[0] == '\\' && v[1] == '\\' && v[2] == '?' && v[3] == '\\' {
        return Some(find_verbatim(v));
    }
    if end >= 2 && is_separator(v[0], Rules::Windows) && is_separator(v[1], Rules::Windows) {
        if end >= 4 && v[2] == '.' && is_separator(v[3], Rules::Windows) {
            let n: usize = find_sep(v, 4, Rules::Windows);
            return Some((lone_component(Class::Device, strings::string(v, 4, n)), n));
        }
        return find_share(v);
    }
    if is_drive_at(v, 0) {
        return Some((lone_component(Class::Disk, drive_name(v[0])), 2));
    }
    None
}

} // verus!
