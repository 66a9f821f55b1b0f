//! Laws of the text operations.

use crate::json::{escaped, quoted};
use crate::text::{
    decimal, lines_of, occurs, trimmed, trimmed_end, trimmed_start, whitespace, without_trailing,
};
use vstd::prelude::*;

verus! {

/// Nothing but whitespace.
pub open spec fn blank(s: Seq<char>) -> bool {
    forall|i: int| 0 <= i < s.len() ==> whitespace(#[trigger] s[i])
}

/// Not a single `c`.
pub open spec fn free_of(s: Seq<char>, c: char) -> bool {
    forall|i: int| 0 <= i < s.len() ==> #[trigger] s[i] != c
}

proof fn lemma_start_skips(a: Seq<char>, r: Seq<char>)
    requires
        blank(a),
    ensures
        trimmed_start(a + r) == trimmed_start(r),
    decreases a.len(),
{
    if a.len() == 0 {
        assert(a + r == r);
    } else {
        assert((a + r)[0] == a[0]);
        assert((a + r).drop_first() == a.drop_first() + r);
        lemma_start_skips(a.drop_first(), r);
    }
}

proof fn lemma_end_skips(r: Seq<char>, b: Seq<char>)
    requires
        blank(b),
    ensures
        trimmed_end(r + b) == trimmed_end(r),
    decreases b.len(),
{
    if b.len() == 0 {
        assert(r + b == r);
    } else {
        assert((r + b).last() == b.last());
        assert((r + b).drop_last() == r + b.drop_last());
        lemma_end_skips(r, b.drop_last());
    }
}

/// Trimming gives what stands between the whitespace at both ends, and every character of it.
pub proof fn lemma_trimmed_between(a: Seq<char>, t: Seq<char>, b: Seq<char>)
    requires
        blank(a),
        blank(b),
        t.len() > 0 ==> !whitespace(t[0]) && !whitespace(t.last()),
    ensures
        trimmed(a + t + b) == t,
{
    assert(a + t + b == a + (t + b));
    lemma_start_skips(a, t + b);
    if t.len() == 0 {
        assert(t + b == b + Seq::<char>::empty());
        lemma_start_skips(b, Seq::empty());
        assert(trimmed(a + t + b) == t);
    } else {
        assert((t + b)[0] == t[0]);
        lemma_end_skips(t, b);
    }
}

/// A text is what trimming gives, with nothing but whitespace before and after it.
pub proof fn lemma_trimmed_parts(s: Seq<char>) -> (ends: (Seq<char>, Seq<char>))
    ensures
        blank(ends.0),
        blank(ends.1),
        s == ends.0 + trimmed(s) + ends.1,
{
    let a = lemma_start_part(s);
    let b = lemma_end_part(trimmed_start(s));
    assert(a + (trimmed(s) + b) == a + trimmed(s) + b);
    (a, b)
}

proof fn lemma_start_part(s: Seq<char>) -> (a: Seq<char>)
    ensures
        blank(a),
        s == a + trimmed_start(s),
    decreases s.len(),
{
    if s.len() > 0 && whitespace(s[0]) {
        let a = lemma_start_part(s.drop_first());
        assert(s == seq![s[0]] + s.drop_first());
        assert(seq![s[0]] + (a + trimmed_start(s)) == seq![s[0]] + a + trimmed_start(s));
        seq![s[0]] + a
    } else {
        assert(s == Seq::<char>::empty() + s);
        Seq::empty()
    }
}

proof fn lemma_end_part(s: Seq<char>) -> (b: Seq<char>)
    ensures
        blank(b),
        s == trimmed_end(s) + b,
    decreases s.len(),
{
    if s.len() > 0 && whitespace(s.last()) {
        let b = lemma_end_part(s.drop_last());
        assert(s == s.drop_last().push(s.last()));
        assert((trimmed_end(s) + b).push(s.last()) == trimmed_end(s) + b.push(s.last()));
        b.push(s.last())
    } else {
        assert(s == s + Seq::<char>::empty());
        Seq::empty()
    }
}

/// Trimming leaves nothing exactly of a text that is nothing but whitespace.
pub proof fn lemma_trimmed_blank(s: Seq<char>)
    ensures
        trimmed(s).len() == 0 <==> blank(s),
{
    let (a, b) = lemma_trimmed_parts(s);
    if trimmed(s).len() == 0 {
        assert(s == a + b);
    }
    if blank(s) {
        lemma_trimmed_between(s, Seq::empty(), Seq::empty());
        assert(s + Seq::<char>::empty() + Seq::<char>::empty() == s);
    }
}

/// Exactly the run of `c` at the end is taken off.
pub proof fn lemma_trailing_run(t: Seq<char>, run: Seq<char>, c: char)
    requires
        t.len() > 0 ==> t.last() != c,
        forall|i: int| 0 <= i < run.len() ==> #[trigger] run[i] == c,
    ensures
        without_trailing(t + run, c) == t,
    decreases run.len(),
{
    if run.len() == 0 {
        assert(t + run == t);
    } else {
        assert((t + run).last() == run.last());
        assert((t + run).drop_last() == t + run.drop_last());
        lemma_trailing_run(t, run.drop_last(), c);
    }
}

/// A pattern is found wherever it stands.
pub proof fn lemma_occurs_where_it_stands(a: Seq<char>, pattern: Seq<char>, b: Seq<char>)
    ensures
        occurs(pattern, a + pattern + b),
{
    let s = a + pattern + b;
    assert(s.skip(a.len() as int).subrange(0, pattern.len() as int) == pattern);
    assert(pattern.is_prefix_of(s.skip(a.len() as int)));
}

/// A pattern that is found stands somewhere.
pub proof fn lemma_occurs_stands_somewhere(pattern: Seq<char>, s: Seq<char>) -> (round: (
    Seq<char>,
    Seq<char>,
))
    requires
        occurs(pattern, s),
    ensures
        s == round.0 + pattern + round.1,
{
    let i = choose|i: int| 0 <= i <= s.len() && #[trigger] pattern.is_prefix_of(s.skip(i));
    let n = pattern.len() as int;
    assert(s.skip(i).subrange(0, n) == pattern);
    assert(pattern == s.subrange(i, i + n));
    assert(s == s.take(i) + pattern + s.skip(i + n));
    (s.take(i), s.skip(i + n))
}

proof fn lemma_no_feed(s: Seq<char>)
    requires
        free_of(s, '\n'),
    ensures
        crate::text::line_length(s) == s.len(),
    decreases s.len(),
{
    if s.len() > 0 {
        lemma_no_feed(s.drop_first());
    }
}

proof fn lemma_first_feed(s: Seq<char>, rest: Seq<char>)
    requires
        free_of(s, '\n'),
    ensures
        crate::text::line_length(s + seq!['\n'] + rest) == s.len(),
    decreases s.len(),
{
    let t = s + seq!['\n'] + rest;
    if s.len() > 0 {
        assert(t[0] == s[0]);
        assert(t.drop_first() == s.drop_first() + seq!['\n'] + rest);
        lemma_first_feed(s.drop_first(), rest);
    } else {
        assert(t[0] == '\n');
    }
}

/// A text without a line feed is one line, and no text has no lines.
pub proof fn lemma_one_line(s: Seq<char>)
    requires
        free_of(s, '\n'),
    ensures
        lines_of(Seq::empty()) == Seq::<Seq<char>>::empty(),
        s.len() > 0 ==> lines_of(s) == seq![s],
{
    lemma_no_feed(s);
}

/// A line that ends in a line feed, or in a carriage return and a line feed, is what stands
/// before.
pub proof fn lemma_one_ended_line(s: Seq<char>)
    requires
        free_of(s, '\n'),
    ensures
        s.len() > 0 && s.last() == '\r' || lines_of(s + seq!['\n']) == seq![s],
        lines_of(s + seq!['\r', '\n']) == seq![s],
{
    let none = Seq::<char>::empty();
    let t = s + seq!['\n'];
    lemma_first_feed(s, none);
    assert(s + seq!['\n'] + none == t);
    assert(t.take(s.len() as int) == s);
    assert(t.skip(s.len() as int + 1) == none);
    assert(lines_of(none) == Seq::<Seq<char>>::empty());
    assert(lines_of(t) == seq![crate::text::without_return(s)]);
    let r = s.push('\r');
    let u = s + seq!['\r', '\n'];
    lemma_first_feed(r, none);
    assert(r + seq!['\n'] + none == u);
    assert(u.take(r.len() as int) == r);
    assert(u.skip(r.len() as int + 1) == none);
    assert(r.drop_last() == s);
    assert(lines_of(u) == seq![s]);
}

/// The number that decimal digits stand for.
pub open spec fn number(digits: Seq<char>) -> int
    decreases digits.len(),
{
    if digits.len() == 0 {
        0
    } else {
        10 * number(digits.drop_last()) + (digits.last() as int - '0' as int)
    }
}

/// Decimal notation consists of digits, stands for the number, and has no needless zero in front.
pub proof fn lemma_decimal_reads_back(n: nat)
    ensures
        number(decimal(n)) == n,
        decimal(n).len() > 0,
        forall|i: int| 0 <= i < decimal(n).len() ==> '0' <= #[trigger] decimal(n)[i] <= '9',
        n > 0 ==> decimal(n)[0] != '0',
    decreases n,
{
    if n < 10 {
        let d = decimal(n);
        assert(d.drop_last() == Seq::<char>::empty());
        assert(number(d.drop_last()) == 0);
    } else {
        lemma_decimal_reads_back(n / 10);
        assert(decimal(n).drop_last() == decimal(n / 10));
    }
}

/// The literal of a text is written character by character.
pub proof fn lemma_escaped_joined(a: Seq<char>, b: Seq<char>)
    ensures
        escaped(a + b) == escaped(a) + escaped(b),
    decreases a.len(),
{
    if a.len() == 0 {
        assert(a + b == b);
        assert(escaped(a) + escaped(b) == escaped(b));
    } else {
        assert((a + b).drop_first() == a.drop_first() + b);
        assert((a + b)[0] == a[0]);
        lemma_escaped_joined(a.drop_first(), b);
        let e = crate::json::escaped_char(a[0]);
        assert(e + (escaped(a.drop_first()) + escaped(b)) == e + escaped(a.drop_first()) + escaped(
            b,
        ));
    }
}

/// The value of a lower-case hexadecimal digit.
pub open spec fn hex_value(c: char) -> int {
    if c <= '9' {
        c as int - '0' as int
    } else {
        c as int - 'a' as int + 10
    }
}

/// Double quotes and backslashes are marked by a backslash, the common control characters have
/// short escapes, and the other ones are written by their number in four hexadecimal digits.
pub proof fn lemma_escapes(c: char)
    ensures
        escaped(seq!['"']) == seq!['\\', '"'],
        escaped(seq!['\\']) == seq!['\\', '\\'],
        escaped(seq!['\n']) == seq!['\\', 'n'],
        escaped(seq!['\r']) == seq!['\\', 'r'],
        escaped(seq!['\t']) == seq!['\\', 't'],
        escaped(seq!['\u{8}']) == seq!['\\', 'b'],
        escaped(seq!['\u{c}']) == seq!['\\', 'f'],
        (c as u32) < 0x20 && escaped(seq![c]).len() != 2 ==> {
            let e = escaped(seq![c]);
            &&& e.len() == 6
            &&& e.take(4) == seq!['\\', 'u', '0', '0']
            &&& 16 * hex_value(e[4]) + hex_value(e[5]) == c as int
        },
{
    lemma_escaped_single('"');
    lemma_escaped_single('\\');
    lemma_escaped_single('\n');
    lemma_escaped_single('\r');
    lemma_escaped_single('\t');
    lemma_escaped_single('\u{8}');
    lemma_escaped_single('\u{c}');
    lemma_escaped_single(c);
    let e = crate::json::escaped_char(c);
    assert(forall|k: nat| k < 16 ==> hex_value(#[trigger] crate::json::hex_digit(k)) == k);
    if e.len() == 6 {
        assert(e.take(4) == seq!['\\', 'u', '0', '0']);
        assert(hex_value(e[4]) == c as nat / 16);
        assert(hex_value(e[5]) == c as nat % 16);
    }
}

proof fn lemma_escaped_single(c: char)
    ensures
        escaped(seq![c]) == crate::json::escaped_char(c),
{
    assert(seq![c].drop_first() == Seq::<char>::empty());
    assert(escaped(seq![c].drop_first()) == Seq::<char>::empty());
    let e = crate::json::escaped_char(c);
    assert(e + Seq::<char>::empty() == e);
}

/// A text without control characters, double quotes and backslashes stands as it is between
/// double quotes.
pub proof fn lemma_quoted_plain(s: Seq<char>)
    requires
        forall|i: int|
            0 <= i < s.len() ==> (#[trigger] s[i]) as u32 >= 0x20 && s[i] != '"' && s[i] != '\\',
    ensures
        quoted(s) == seq!['"'] + s + seq!['"'],
    decreases s.len(),
{
    lemma_escaped_plain(s);
}

proof fn lemma_escaped_plain(s: Seq<char>)
    requires
        forall|i: int|
            0 <= i < s.len() ==> (#[trigger] s[i]) as u32 >= 0x20 && s[i] != '"' && s[i] != '\\',
    ensures
        escaped(s) == s,
    decreases s.len(),
{
    if s.len() > 0 {
        assert(s[0] as u32 >= 0x20 && s[0] != '"' && s[0] != '\\');
        assert(crate::json::escaped_char(s[0]) == seq![s[0]]);
        lemma_escaped_plain(s.drop_first());
        assert(s == seq![s[0]] + s.drop_first());
    }
}

/// No literal holds a control character: it stands on one line.
pub proof fn lemma_quoted_printable(s: Seq<char>)
    ensures
        forall|i: int| 0 <= i < quoted(s).len() ==> (#[trigger] quoted(s)[i]) as u32 >= 0x20,
{
    lemma_escaped_printable(s);
}

proof fn lemma_escaped_char_printable(c: char)
    ensures
        forall|i: int|
            0 <= i < crate::json::escaped_char(c).len() ==> (
            #[trigger] crate::json::escaped_char(c)[i]) as u32 >= 0x20,
{
    let e = crate::json::escaped_char(c);
    assert(forall|k: nat| k < 16 ==> (#[trigger] crate::json::hex_digit(k)) as nat >= 0x30);
    if e.len() == 6 {
        assert(e[4] as nat >= 0x30 && e[5] as nat >= 0x30);
    }
}

proof fn lemma_escaped_printable(s: Seq<char>)
    ensures
        forall|i: int| 0 <= i < escaped(s).len() ==> (#[trigger] escaped(s)[i]) as u32 >= 0x20,
    decreases s.len(),
{
    if s.len() > 0 {
        let e = crate::json::escaped_char(s[0]);
        let r = escaped(s.drop_first());
        lemma_escaped_printable(s.drop_first());
        assert forall|i: int| 0 <= i < escaped(s).len() implies (#[trigger] escaped(
            s,
        )[i]) as u32 >= 0x20 by {
            if i < e.len() {
                assert(escaped(s)[i] == e[i]);
                lemma_escaped_char_printable(s[0]);
            } else {
                assert(escaped(s)[i] == r[i - e.len()]);
            }
        }
    }
}

} // verus!
