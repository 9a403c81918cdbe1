//! Paths as they are shown to the user.
//!
//! Purely cosmetic: the result is never used to find a file.

use crate::strings;
use crate::text;
use vstd::prelude::*;
use vstd::string::*;

verus! {

/// `s` without the prefix of an extended Windows path.
pub open spec fn plain(s: Seq<char>) -> Seq<char> {
    if "\\\\?\\UNC\\"@.is_prefix_of(s) {
        "\\\\"@ + s.skip("\\\\?\\UNC\\"@.len() as int)
    } else if "\\\\?\\"@.is_prefix_of(s) {
        s.skip("\\\\?\\"@.len() as int)
    } else {
        s
    }
}

/// How a path is shown: without the prefix of an extended path, and on Windows
/// with every slash turned round.
pub open spec fn shown(s: Seq<char>, windows: bool) -> Seq<char> {
    if windows {
        text::replace_char(plain(s), '/', "\\"@)
    } else {
        plain(s)
    }
}

/// A path for the user to read, on Windows or elsewhere.
pub fn display_path(p: &str, windows: bool) -> (r: String)
    ensures
        r@ == shown(p@, windows),
{
    let stripped = match strings::strip_prefix(p, "\\\\?\\UNC\\") {
        Some(rest) => {
            let mut s = "\\\\".to_string();
            s.append(rest);
            s
        },
        None => match strings::strip_prefix(p, "\\\\?\\") {
            Some(rest) => rest.to_string(),
            None => p.to_string(),
        },
    };
    if windows {
        strings::replace_char(stripped.as_str(), '/', "\\")
    } else {
        stripped
    }
}

/// On Windows no slash is left in what is shown.
pub proof fn no_slash_is_shown_on_windows(s: Seq<char>)
    ensures
        !shown(s, true).contains('/'),
{
    reveal_strlit("\\");
    replaced_is_gone(plain(s), '/', "\\"@);
}

proof fn replaced_is_gone(s: Seq<char>, c: char, with: Seq<char>)
    requires
        !with.contains(c),
    ensures
        !text::replace_char(s, c, with).contains(c),
    decreases s.len(),
{
    if s.len() > 0 {
        let head = text::replace_char(s.drop_last(), c, with);
        let tail = if s.last() == c {
            with
        } else {
            seq![s.last()]
        };
        replaced_is_gone(s.drop_last(), c, with);
        assert forall|i: int| 0 <= i < (head + tail).len() implies (head + tail)[i] != c by {
            if i < head.len() {
                assert(head[i] == (head + tail)[i]);
                assert(head.contains(head[i]));
            } else {
                assert(tail[i - head.len()] == (head + tail)[i]);
                if s.last() == c {
                    assert(with.contains(tail[i - head.len()]));
                }
            }
        }
    }
}

} // verus!
