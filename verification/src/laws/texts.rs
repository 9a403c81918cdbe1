//! What the vocabulary of texts means.

use crate::laws::listing_jj::position_is_first;
use crate::process;
use crate::process::ReplyView;
use crate::text;
use vstd::prelude::*;

verus! {

/// Blanks, tabs and line ends are white; no character that leaves a mark in ASCII is.
pub proof fn marks_are_not_white(c: char)
    ensures
        text::is_white(' ') && text::is_white('\t') && text::is_white('\n') && text::is_white('\r'),
        '!' <= c <= '~' ==> !text::is_white(c),
{
}

proof fn start_is_trimmed(s: Seq<char>)
    ensures
        ({
            let t = text::trim_start(s);
            let n = s.len() - t.len();
            &&& 0 <= n
            &&& t == s.skip(n)
            &&& forall|i: int| 0 <= i < n ==> text::is_white(#[trigger] s[i])
            &&& t.len() > 0 ==> !text::is_white(t[0])
        }),
    decreases s.len(),
{
    if s.len() > 0 && text::is_white(s.first()) {
        let u = s.drop_first();
        start_is_trimmed(u);
        let n = s.len() - text::trim_start(u).len();
        assert(u.skip(n - 1) =~= s.skip(n));
        assert forall|i: int| 0 <= i < n implies text::is_white(#[trigger] s[i]) by {
            if i > 0 {
                assert(u[i - 1] == s[i]);
            }
        }
    } else {
        assert(s.skip(0) =~= s);
    }
}

proof fn end_is_trimmed(s: Seq<char>)
    ensures
        ({
            let t = text::trim_end(s);
            &&& t.len() <= s.len()
            &&& t == s.take(t.len() as int)
            &&& forall|i: int| t.len() <= i < s.len() ==> text::is_white(#[trigger] s[i])
            &&& t.len() > 0 ==> !text::is_white(t.last())
        }),
    decreases s.len(),
{
    if s.len() > 0 && text::is_white(s.last()) {
        let u = s.drop_last();
        end_is_trimmed(u);
        let t = text::trim_end(u);
        assert(u.take(t.len() as int) =~= s.take(t.len() as int));
        assert forall|i: int| t.len() <= i < s.len() implies text::is_white(#[trigger] s[i]) by {
            if i < u.len() {
                assert(u[i] == s[i]);
            }
        }
    } else {
        assert(s.take(s.len() as int) =~= s);
    }
}

/// A trimmed text is what is left between white space: all around it is white, and
/// neither its first nor its last character is.
pub proof fn trimming_takes_white_space_only(s: Seq<char>)
    ensures
        exists|i: int, j: int|
            {
                &&& 0 <= i <= j <= s.len()
                &&& text::trim(s) == #[trigger] s.subrange(i, j)
                &&& forall|k: int| 0 <= k < i || j <= k < s.len() ==> text::is_white(#[trigger] s[k])
            },
        text::trim(s).len() > 0 ==> !text::is_white(text::trim(s)[0]) && !text::is_white(
            text::trim(s).last(),
        ),
        text::trim(s).len() == 0 ==> forall|k: int|
            0 <= k < s.len() ==> text::is_white(#[trigger] s[k]),
{
    start_is_trimmed(s);
    let a = text::trim_start(s);
    end_is_trimmed(a);
    let t = text::trim(s);
    let i = s.len() - a.len();
    let j = i + t.len();
    assert(s.subrange(i, j) =~= t);
    assert forall|k: int| 0 <= k < i || j <= k < s.len() implies text::is_white(
        #[trigger] s[k],
    ) by {
        if k >= j {
            assert(a[k - i] == s[k]);
        }
    }
    if t.len() > 0 {
        assert(t[0] == a[0]);
    }
}

/// A line of its own: it has no line feed.
pub open spec fn is_line(s: Seq<char>) -> bool {
    forall|i: int| 0 <= i < s.len() ==> #[trigger] s[i] != '\n'
}

proof fn first_is_at(s: Seq<char>, c: char, n: int)
    requires
        0 <= n < s.len(),
        s[n] == c,
        forall|i: int| 0 <= i < n ==> s[i] != c,
    ensures
        text::position(s, c) == n,
{
    position_is_first(s, c);
    let k = text::position(s, c);
    if k < n {
        assert(s[k] != c);
    }
    if k > n {
        assert(s[n] != c);
    }
}

/// Lines are read back as they were written, whether a carriage return stands before
/// the line feed or not; a last line needs no end.
pub proof fn lines_are_read_back(line: Seq<char>, rest: Seq<char>)
    requires
        is_line(line),
        line.len() > 0 ==> line.last() != '\r',
    ensures
        text::lines(seq![]) == Seq::<Seq<char>>::empty(),
        line.len() > 0 ==> text::lines(line) == seq![line],
        text::lines(line + seq!['\n'] + rest) == seq![line] + text::lines(rest),
        text::lines(line + seq!['\r', '\n'] + rest) == seq![line] + text::lines(rest),
{
    let n = line.len() as int;
    let a = line + seq!['\n'] + rest;
    first_is_at(a, '\n', n);
    assert(a.take(n) =~= line);
    assert(a.skip(n + 1) =~= rest);
    let b = line + seq!['\r', '\n'] + rest;
    first_is_at(b, '\n', n + 1);
    assert(b.take(n + 1) =~= line.push('\r'));
    assert(line.push('\r').drop_last() =~= line);
    assert(b.skip(n + 2) =~= rest);
    position_is_first(line, '\n');
    if text::position(line, '\n') < line.len() {
        assert(line[text::position(line, '\n')] != '\n');
    }
}

/// A text is split at each separator, and nowhere else.
pub proof fn splits_are_at_separators(a: Seq<char>, c: char, rest: Seq<char>)
    requires
        forall|i: int| 0 <= i < a.len() ==> #[trigger] a[i] != c,
    ensures
        text::split(a, c) == seq![a],
        text::split(a + seq![c] + rest, c) == seq![a] + text::split(rest, c),
{
    let n = a.len() as int;
    let s = a + seq![c] + rest;
    first_is_at(s, c, n);
    assert(s.take(n) =~= a);
    assert(s.skip(n + 1) =~= rest);
    position_is_first(a, c);
    if text::position(a, c) < n {
        assert(a[text::position(a, c)] != c);
    }
}

/// Parts are joined with the separator between each and the next.
pub proof fn joins_are_with_separators(parts: Seq<Seq<char>>, p: Seq<char>, sep: Seq<char>)
    ensures
        text::join(seq![], sep) == Seq::<char>::empty(),
        text::join(seq![p], sep) == p,
        parts.len() > 0 ==> text::join(parts.push(p), sep) == text::join(parts, sep) + sep + p,
{
    if parts.len() > 0 {
        assert(parts.push(p).drop_last() =~= parts);
    }
}

/// The number that a text of digits stands for.
pub open spec fn number(s: Seq<char>) -> int
    decreases s.len(),
{
    if s.len() == 0 {
        0
    } else {
        10 * number(s.drop_last()) + (s.last() as int - '0' as int)
    }
}

/// A number is written so that it can be read back, with digits only and without a
/// zero at the beginning, unless it is zero.
pub proof fn numbers_are_written_in_decimal(n: nat)
    ensures
        number(text::decimal(n)) == n,
        text::decimal(n).len() > 0,
        forall|i: int| 0 <= i < text::decimal(n).len() ==> '0' <= #[trigger] text::decimal(n)[i] <= '9',
        n > 0 ==> text::decimal(n)[0] != '0',
    decreases n,
{
    let d = text::decimal(n);
    if n < 10 {
        assert(d.drop_last() =~= seq![]);
        assert(number(d.drop_last()) == 0);
        assert(d.last() as int - '0' as int == n);
    } else {
        assert(text::digit(n % 10) as int - '0' as int == n % 10);
        numbers_are_written_in_decimal(n / 10);
        assert(d.drop_last() =~= text::decimal(n / 10));
        assert(d[0] == text::decimal(n / 10)[0]);
        assert forall|i: int| 0 <= i < d.len() implies '0' <= #[trigger] d[i] <= '9' by {
            if i < d.len() - 1 {
                assert(d[i] == text::decimal(n / 10)[i]);
            }
        }
    }
}

/// Characters are replaced one by one.
pub proof fn characters_are_replaced(s: Seq<char>, c: char, with: Seq<char>, d: char)
    ensures
        text::replace_char(seq![], c, with) == Seq::<char>::empty(),
        text::replace_char(s.push(c), c, with) == text::replace_char(s, c, with) + with,
        d != c ==> text::replace_char(s.push(d), c, with) == text::replace_char(s, c, with).push(d),
        text::count_char(seq![], c) == 0,
        text::count_char(s.push(c), c) == text::count_char(s, c) + 1,
        d != c ==> text::count_char(s.push(d), c) == text::count_char(s, c),
{
    assert(s.push(c).drop_last() =~= s);
    assert(s.push(d).drop_last() =~= s);
    let r = text::replace_char(s, c, with);
    assert(r + seq![d] =~= r.push(d));
}

/// A text is filled up to a width with spaces, and is not cut.
pub proof fn texts_are_filled_up(s: Seq<char>, width: nat)
    ensures
        ({
            let a = text::pad_end(s, width);
            let b = text::pad_start(s, width);
            let n = if s.len() < width {
                width
            } else {
                s.len()
            };
            &&& a.len() == n && b.len() == n
            &&& a.take(s.len() as int) == s
            &&& b.skip(n - s.len()) == s
            &&& forall|i: int| s.len() <= i < n ==> #[trigger] a[i] == ' '
            &&& forall|i: int| 0 <= i < n - s.len() ==> #[trigger] b[i] == ' '
        }),
{
    let a = text::pad_end(s, width);
    let b = text::pad_start(s, width);
    assert(a.take(s.len() as int) =~= s);
    assert(b.skip(b.len() - s.len()) =~= s);
}

proof fn word_is_without_white(s: Seq<char>)
    ensures
        text::word_len(s) <= s.len(),
        forall|i: int| 0 <= i < text::word_len(s) ==> !text::is_white(#[trigger] s[i]),
        text::word_len(s) < s.len() ==> text::is_white(s[text::word_len(s) as int]),
    decreases s.len(),
{
    if s.len() > 0 && !text::is_white(s[0]) {
        let t = s.drop_first();
        word_is_without_white(t);
        assert forall|i: int| 0 <= i < text::word_len(s) implies !text::is_white(
            #[trigger] s[i],
        ) by {
            if i > 0 {
                assert(t[i - 1] == s[i]);
            }
        }
    }
}

/// The first word of a text stands between white space and white space, or the end.
pub proof fn first_words_are_words(s: Seq<char>)
    ensures
        exists|i: int, j: int|
            {
                &&& 0 <= i <= j <= s.len()
                &&& text::first_word(s) == #[trigger] s.subrange(i, j)
                &&& forall|k: int| 0 <= k < i ==> text::is_white(#[trigger] s[k])
                &&& forall|k: int| i <= k < j ==> !text::is_white(#[trigger] s[k])
                &&& j < s.len() ==> text::is_white(s[j])
            },
{
    start_is_trimmed(s);
    let t = text::trim_start(s);
    word_is_without_white(t);
    let i = s.len() - t.len();
    let j = i + text::word_len(t);
    assert(s.subrange(i, j) =~= text::first_word(s));
    assert forall|k: int| i <= k < j implies !text::is_white(#[trigger] s[k]) by {
        assert(t[k - i] == s[k]);
    }
    if j < s.len() {
        assert(t[j - i] == s[j]);
    }
}

/// What is made of what a program said: a success gives what was printed; a failure
/// names what failed, and a program that could not be started is named.
pub proof fn programs_succeed_or_fail(reply: ReplyView, program: Seq<char>, what: Seq<char>)
    ensures
        match reply {
            ReplyView::Ran(Some(o)) => {
                &&& process::succeeded(reply) == o.success
                &&& process::output(reply) == Some(o)
                &&& process::printed(reply, program, what) == if o.success {
                    Ok::<Seq<char>, Seq<char>>(o.stdout)
                } else {
                    Err(what + ": "@ + text::trim(o.stderr))
                }
                &&& process::ran_well(reply, program, what) == if o.success {
                    Ok::<(), Seq<char>>(())
                } else {
                    Err(what + " failed"@)
                }
                &&& process::answer(reply) == if o.success && text::trim(o.stdout).len() > 0 {
                    Some(text::trim(o.stdout))
                } else {
                    None
                }
            },
            _ => {
                let e = "failed to spawn `"@ + program + "`"@;
                &&& !process::succeeded(reply)
                &&& process::output(reply) is None
                &&& process::answer(reply) is None
                &&& process::printed(reply, program, what) == Err::<Seq<char>, Seq<char>>(e)
                &&& process::ran_well(reply, program, what) == Err::<(), Seq<char>>(e)
            },
        },
        process::found(reply) <==> reply == ReplyView::Found(true),
{
}

} // verus!
