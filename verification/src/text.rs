//! Text operations on strings, each with a statement over sequences of characters.

use vstd::prelude::*;

verus! {

/// The characters with the Unicode property White_Space.
pub open spec fn whitespace(c: char) -> bool {
    let u = c as u32;
    ||| 0x9 <= u <= 0xd
    ||| u == 0x20
    ||| u == 0x85
    ||| u == 0xa0
    ||| u == 0x1680
    ||| 0x2000 <= u <= 0x200a
    ||| u == 0x2028
    ||| u == 0x2029
    ||| u == 0x202f
    ||| u == 0x205f
    ||| u == 0x3000
}

/// `s` without its leading whitespace.
pub open spec fn trimmed_start(s: Seq<char>) -> Seq<char>
    decreases s.len(),
{
    if s.len() > 0 && whitespace(s[0]) {
        trimmed_start(s.drop_first())
    } else {
        s
    }
}

/// `s` without its trailing whitespace.
pub open spec fn trimmed_end(s: Seq<char>) -> Seq<char>
    decreases s.len(),
{
    if s.len() > 0 && whitespace(s.last()) {
        trimmed_end(s.drop_last())
    } else {
        s
    }
}

/// `s` without its leading and trailing whitespace.
pub open spec fn trimmed(s: Seq<char>) -> Seq<char> {
    trimmed_end(trimmed_start(s))
}

/// The characters of `s`, in order.
pub fn chars_of(s: &str) -> (v: Vec<char>)
    ensures
        v@ == s@,
{
    let mut v: Vec<char> = Vec::new();
    for c in it: s.chars()
        invariant
            it.seq() == s@,
            v@ == s@.take(it.index() as int),
    {
        v.push(c);
    }
    v
}

/// Whether `c` has the Unicode property White_Space.
pub fn is_whitespace(c: char) -> (b: bool)
    ensures
        b == whitespace(c),
{
    let u: u32 = c as u32;
    (0x9 <= u && u <= 0xd) || u == 0x20 || u == 0x85 || u == 0xa0 || u == 0x1680 || (0x2000 <= u
        && u <= 0x200a) || u == 0x2028 || u == 0x2029 || u == 0x202f || u == 0x205f || u == 0x3000
}

/// `s` without its leading and trailing whitespace.
pub fn trim(s: &str) -> (t: String)
    ensures
        t@ == trimmed(s@),
{
    let v: Vec<char> = chars_of(s);
    let mut from: usize = 0;
    assert(s@.skip(0) == s@);
    while from < v.len() && is_whitespace(v[from])
        invariant
            from <= v.len(),
            v@ == s@,
            trimmed_start(s@.skip(from as int)) == trimmed_start(s@),
        decreases v.len() - from,
    {
        assert(s@.skip(from as int).drop_first() == s@.skip(from + 1));
        from += 1;
    }
    let mut to: usize = v.len();
    assert(s@.subrange(from as int, to as int) == s@.skip(from as int));
    while from < to && is_whitespace(v[to - 1])
        invariant
            from <= to <= v.len(),
            v@ == s@,
            trimmed_end(s@.subrange(from as int, to as int)) == trimmed(s@),
        decreases to,
    {
        assert(s@.subrange(from as int, to as int).drop_last() == s@.subrange(
            from as int,
            to - 1,
        ));
        to -= 1;
    }
    s.substring_char(from, to).to_owned()
}

/// `s` without the run of `c` at its end.
pub open spec fn without_trailing(s: Seq<char>, c: char) -> Seq<char>
    decreases s.len(),
{
    if s.len() > 0 && s.last() == c {
        without_trailing(s.drop_last(), c)
    } else {
        s
    }
}

/// `s` without the run of `c` at its end.
pub fn trim_trailing(s: &str, c: char) -> (t: String)
    ensures
        t@ == without_trailing(s@, c),
{
    let v: Vec<char> = chars_of(s);
    let mut to: usize = v.len();
    assert(s@.subrange(0, to as int) == s@);
    while 0 < to && v[to - 1] == c
        invariant
            to <= v.len(),
            v@ == s@,
            without_trailing(s@.subrange(0, to as int), c) == without_trailing(s@, c),
        decreases to,
    {
        assert(s@.subrange(0, to as int).drop_last() == s@.subrange(0, to - 1));
        to -= 1;
    }
    s.substring_char(0, to).to_owned()
}

/// Whether `pattern` stands in `v` from index `at` on.
pub fn matches_at(v: &Vec<char>, at: usize, pattern: &Vec<char>) -> (b: bool)
    requires
        at <= v.len(),
    ensures
        b == pattern@.is_prefix_of(v@.skip(at as int)),
{
    if v.len() - at < pattern.len() {
        return false;
    }
    let mut k: usize = 0;
    while k < pattern.len()
        invariant
            k <= pattern.len(),
            at + pattern.len() <= v.len(),
            forall|j: int| 0 <= j < k ==> pattern@[j] == #[trigger] v@.skip(at as int)[j],
        decreases pattern.len() - k,
    {
        if v[at + k] != pattern[k] {
            assert(v@.skip(at as int)[k as int] == v@[at + k]);
            assert(v@.skip(at as int).subrange(0, pattern@.len() as int)[k as int] != pattern@[k as int]);
            return false;
        }
        k += 1;
    }
    true
}

/// Whether `s` begins with `pattern`.
pub fn starts_with(s: &str, pattern: &str) -> (b: bool)
    ensures
        b == pattern@.is_prefix_of(s@),
{
    let v: Vec<char> = chars_of(s);
    let p: Vec<char> = chars_of(pattern);
    assert(v@.skip(0) == v@);
    matches_at(&v, 0, &p)
}

/// Whether `s` and `t` hold the same characters.
pub fn same(s: &str, t: &str) -> (b: bool)
    ensures
        b == (s@ == t@),
{
    s.to_owned() == t.to_owned()
}

/// What follows `pattern` in `s`, if `s` begins with it.
pub fn strip_prefix(s: &str, pattern: &str) -> (rest: Option<String>)
    ensures
        rest is Some <==> pattern@.is_prefix_of(s@),
        rest matches Some(r) ==> r@ == s@.skip(pattern@.len() as int),
{
    if starts_with(s, pattern) {
        let from: usize = pattern.unicode_len();
        let to: usize = s.unicode_len();
        assert(s@.subrange(from as int, to as int) == s@.skip(from as int));
        Some(s.substring_char(from, to).to_owned())
    } else {
        None
    }
}

/// Whether `pattern` stands anywhere in `s`.
pub open spec fn occurs(pattern: Seq<char>, s: Seq<char>) -> bool {
    exists|i: int| 0 <= i <= s.len() && #[trigger] pattern.is_prefix_of(s.skip(i))
}

/// Whether `pattern` stands anywhere in `s`.
pub fn contains(s: &str, pattern: &str) -> (b: bool)
    ensures
        b == occurs(pattern@, s@),
{
    let v: Vec<char> = chars_of(s);
    let p: Vec<char> = chars_of(pattern);
    let mut i: usize = 0;
    loop
        invariant
            i <= v.len(),
            v@ == s@,
            p@ == pattern@,
            forall|j: int| 0 <= j < i ==> !#[trigger] pattern@.is_prefix_of(s@.skip(j)),
        decreases v.len() - i,
    {
        if matches_at(&v, i, &p) {
            return true;
        }
        if i == v.len() {
            return false;
        }
        i += 1;
    }
}

/// `s` with each occurrence of `pattern`, found from left to right without overlap,
/// replaced by `to`.
pub open spec fn replaced(s: Seq<char>, pattern: Seq<char>, to: Seq<char>) -> Seq<char>
    decreases s.len(),
{
    if s.len() == 0 || pattern.len() == 0 {
        s
    } else if pattern.is_prefix_of(s) {
        to + replaced(s.skip(pattern.len() as int), pattern, to)
    } else {
        seq![s[0]] + replaced(s.drop_first(), pattern, to)
    }
}

/// `s` with each occurrence of the non-empty `pattern` replaced by `to`.
pub fn replace(s: &str, pattern: &str, to: &str) -> (r: String)
    requires
        pattern@.len() > 0,
    ensures
        r@ == replaced(s@, pattern@, to@),
{
    let v: Vec<char> = chars_of(s);
    let p: Vec<char> = chars_of(pattern);
    let mut out: String = String::new();
    let mut from: usize = 0;
    let mut i: usize = 0;
    proof {
        assert(s@.skip(0) == s@);
        assert(out@ + s@.subrange(0, 0) + replaced(s@, pattern@, to@) == replaced(
            s@,
            pattern@,
            to@,
        ));
    }
    while i < v.len()
        invariant
            from <= i <= v.len(),
            v@ == s@,
            p@ == pattern@,
            pattern@.len() > 0,
            out@ + s@.subrange(from as int, i as int) + replaced(s@.skip(i as int), pattern@, to@)
                == replaced(s@, pattern@, to@),
        decreases v.len() - i,
    {
        let ghost before = out@;
        let ghost here = s@.skip(i as int);
        if matches_at(&v, i, &p) {
            out.append(s.substring_char(from, i));
            out.append(to);
            proof {
                let rest = replaced(here.skip(pattern@.len() as int), pattern@, to@);
                assert(here.skip(pattern@.len() as int) == s@.skip(i + pattern@.len()));
                assert(before + s@.subrange(from as int, i as int) + (to@ + rest) == out@
                    + s@.subrange(i + pattern@.len(), i + pattern@.len()) + rest);
            }
            i += p.len();
            from = i;
        } else {
            proof {
                let rest = replaced(here.drop_first(), pattern@, to@);
                assert(here.drop_first() == s@.skip(i + 1));
                assert(before + s@.subrange(from as int, i as int) + (seq![here[0]] + rest)
                    == before + s@.subrange(from as int, i + 1) + rest);
            }
            i += 1;
        }
    }
    out.append(s.substring_char(from, i));
    assert(replaced(s@.skip(i as int), pattern@, to@) == Seq::<char>::empty());
    assert(out@ + Seq::<char>::empty() == out@);
    out
}

/// How many characters stand before the first line feed of `s`, or in all of `s` if it has none.
pub open spec fn line_length(s: Seq<char>) -> nat
    decreases s.len(),
{
    if s.len() == 0 || s[0] == '\n' {
        0
    } else {
        1 + line_length(s.drop_first())
    }
}

/// `s` without one carriage return at its end.
pub open spec fn without_return(s: Seq<char>) -> Seq<char> {
    if s.len() > 0 && s.last() == '\r' {
        s.drop_last()
    } else {
        s
    }
}

/// The lines of `s`. A line ends in a line feed or in a carriage return and a line feed, which
/// do not belong to it; the last line may go without.
pub open spec fn lines_of(s: Seq<char>) -> Seq<Seq<char>>
    decreases s.len(),
{
    if s.len() == 0 {
        seq![]
    } else if line_length(s) < s.len() {
        seq![without_return(s.take(line_length(s) as int))] + lines_of(
            s.skip(line_length(s) as int + 1),
        )
    } else {
        seq![s]
    }
}

/// The contents of a sequence of strings.
pub open spec fn views(v: Seq<String>) -> Seq<Seq<char>> {
    v.map_values(|s: String| s@)
}

proof fn lemma_line_length(s: Seq<char>, n: nat)
    requires
        n <= s.len(),
        forall|j: int| 0 <= j < n ==> s[j] != '\n',
        n == s.len() || s[n as int] == '\n',
    ensures
        line_length(s) == n,
    decreases n,
{
    if n > 0 {
        let t = s.drop_first();
        assert forall|j: int| 0 <= j < n - 1 implies t[j] != '\n' by {
            assert(t[j] == s[j + 1]);
        }
        lemma_line_length(t, (n - 1) as nat);
    }
}

proof fn lemma_line_length_joined(a: Seq<char>, b: Seq<char>)
    requires
        a.len() > 0,
        a.last() == '\n',
    ensures
        line_length(a) < a.len(),
        line_length(a + b) == line_length(a),
    decreases a.len(),
{
    assert((a + b)[0] == a[0]);
    if a[0] != '\n' {
        assert((a + b).drop_first() == a.drop_first() + b);
        lemma_line_length_joined(a.drop_first(), b);
    }
}

/// A text that is cut after a line feed has the lines of both its parts.
pub proof fn lemma_lines_cut(a: Seq<char>, b: Seq<char>)
    requires
        a.len() > 0 ==> a.last() == '\n',
    ensures
        lines_of(a + b) == lines_of(a) + lines_of(b),
    decreases a.len(),
{
    if a.len() == 0 {
        assert(a + b == b);
        assert(lines_of(a) + lines_of(b) == lines_of(b));
    } else {
        lemma_line_length_joined(a, b);
        let n = line_length(a) as int;
        assert((a + b).take(n) == a.take(n));
        assert((a + b).skip(n + 1) == a.skip(n + 1) + b);
        lemma_lines_cut(a.skip(n + 1), b);
        let first = seq![without_return(a.take(n))];
        assert(first + (lines_of(a.skip(n + 1)) + lines_of(b)) == (first + lines_of(a.skip(n + 1)))
            + lines_of(b));
    }
}

/// The lines of `s`, without their endings.
pub fn lines(s: &str) -> (out: Vec<String>)
    ensures
        views(out@) == lines_of(s@),
{
    let v: Vec<char> = chars_of(s);
    let mut out: Vec<String> = Vec::new();
    let mut from: usize = 0;
    let mut i: usize = 0;
    assert(s@.skip(0) == s@);
    assert(views(out@) + lines_of(s@) == lines_of(s@));
    while i < v.len()
        invariant
            from <= i <= v.len(),
            v@ == s@,
            forall|j: int| from <= j < i ==> #[trigger] s@[j] != '\n',
            views(out@) + lines_of(s@.skip(from as int)) == lines_of(s@),
        decreases v.len() - i,
    {
        if v[i] == '\n' {
            let ghost rest = s@.skip(from as int);
            let ghost before = out@;
            proof {
                lemma_line_length(rest, (i - from) as nat);
                assert(rest.take(i - from) == s@.subrange(from as int, i as int));
                assert(rest.skip(i - from + 1) == s@.skip(i + 1));
            }
            let to: usize = if from < i && v[i - 1] == '\r' {
                i - 1
            } else {
                i
            };
            assert(s@.subrange(from as int, to as int) == without_return(rest.take(i - from)));
            let line: String = s.substring_char(from, to).to_owned();
            out.push(line);
            proof {
                assert(views(out@) == views(before).push(line@));
                assert(views(before) + (seq![line@] + lines_of(s@.skip(i + 1))) == views(out@)
                    + lines_of(s@.skip(i + 1)));
            }
            from = i + 1;
        }
        i += 1;
    }
    if from < v.len() {
        let ghost rest = s@.skip(from as int);
        let ghost before = out@;
        proof {
            lemma_line_length(rest, (i - from) as nat);
            assert(rest == s@.subrange(from as int, i as int));
        }
        let line: String = s.substring_char(from, i).to_owned();
        out.push(line);
        assert(views(out@) == views(before) + seq![line@]);
    } else {
        assert(views(out@) + Seq::<Seq<char>>::empty() == views(out@));
    }
    out
}

/// The decimal digit of value `d`.
pub open spec fn digit(d: nat) -> char {
    ((0x30 + d) as u32) as char
}

/// `n` in decimal notation.
pub open spec fn decimal(n: nat) -> Seq<char>
    decreases n,
{
    if n < 10 {
        seq![digit(n)]
    } else {
        decimal(n / 10).push(digit(n % 10))
    }
}

fn digit_text(d: u16) -> (s: &'static str)
    requires
        d < 10,
    ensures
        s@ == seq![digit(d as nat)],
{
    proof {
        reveal_strlit("0");
        reveal_strlit("1");
        reveal_strlit("2");
        reveal_strlit("3");
        reveal_strlit("4");
        reveal_strlit("5");
        reveal_strlit("6");
        reveal_strlit("7");
        reveal_strlit("8");
        reveal_strlit("9");
    }
    match d {
        0 => "0",
        1 => "1",
        2 => "2",
        3 => "3",
        4 => "4",
        5 => "5",
        6 => "6",
        7 => "7",
        8 => "8",
        _ => "9",
    }
}

/// `n` in decimal notation.
pub fn decimal_text(n: u16) -> (s: String)
    ensures
        s@ == decimal(n as nat),
    decreases n,
{
    if n < 10 {
        digit_text(n).to_owned()
    } else {
        let mut s: String = decimal_text(n / 10);
        s.append(digit_text(n % 10));
        assert(s@ == decimal((n / 10) as nat).push(digit((n % 10) as nat)));
        s
    }
}

/// The characters of `a`, then those of `b`.
pub fn joined(a: &str, b: &str) -> (s: String)
    ensures
        s@ == a@ + b@,
{
    let mut s: String = a.to_owned();
    s.append(b);
    s
}

/// A text in which `pattern` does not occur is left as it is.
pub proof fn lemma_replaced_absent(s: Seq<char>, pattern: Seq<char>, to: Seq<char>)
    requires
        !occurs(pattern, s),
    ensures
        replaced(s, pattern, to) == s,
    decreases s.len(),
{
    if s.len() > 0 && pattern.len() > 0 {
        assert(s.skip(0) == s);
        assert(!pattern.is_prefix_of(s.skip(0)));
        let t = s.drop_first();
        assert forall|i: int| 0 <= i <= t.len() implies !#[trigger] pattern.is_prefix_of(
            t.skip(i),
        ) by {
            assert(t.skip(i) == s.skip(i + 1));
        }
        lemma_replaced_absent(t, pattern, to);
        assert(seq![s[0]] + t == s);
    }
}

/// Every occurrence of a pattern that cannot overlap itself is replaced: what stands before it
/// and what stands after it are treated each for itself.
pub proof fn lemma_replaced_each(
    before: Seq<char>,
    pattern: Seq<char>,
    after: Seq<char>,
    to: Seq<char>,
)
    requires
        pattern.len() > 0,
        forall|k: int| 0 < k < pattern.len() ==> #[trigger] pattern[k] != pattern[0],
    ensures
        replaced(before + pattern + after, pattern, to) == replaced(before, pattern, to) + to
            + replaced(after, pattern, to),
    decreases before.len(),
{
    let s = before + pattern + after;
    let n = pattern.len() as int;
    if before.len() == 0 {
        assert(s.subrange(0, n) == pattern);
        assert(s.skip(n) == after);
        assert(replaced(before, pattern, to) == Seq::<char>::empty());
        assert(Seq::<char>::empty() + to + replaced(after, pattern, to) == to + replaced(
            after,
            pattern,
            to,
        ));
    } else if pattern.is_prefix_of(s) {
        if before.len() < n {
            let k = before.len() as int;
            assert(s.subrange(0, n)[k] == s[k]);
            assert(s[k] == pattern[0]);
            assert(pattern[k] != pattern[0]);
            assert(false);
        }
        assert(s.subrange(0, n) == before.subrange(0, n));
        assert(s.skip(n) == before.skip(n) + pattern + after);
        lemma_replaced_each(before.skip(n), pattern, after, to);
        assert(to + (replaced(before.skip(n), pattern, to) + to + replaced(after, pattern, to))
            == (to + replaced(before.skip(n), pattern, to)) + to + replaced(after, pattern, to));
    } else {
        if pattern.is_prefix_of(before) {
            assert(before.subrange(0, n) == s.subrange(0, n));
            assert(false);
        }
        assert(s.drop_first() == before.drop_first() + pattern + after);
        lemma_replaced_each(before.drop_first(), pattern, after, to);
        let r = replaced(before.drop_first(), pattern, to);
        assert(seq![s[0]] + (r + to + replaced(after, pattern, to)) == (seq![before[0]] + r) + to
            + replaced(after, pattern, to));
    }
}

/// Trimming leaves no whitespace at either end.
pub proof fn lemma_trimmed_ends(s: Seq<char>)
    ensures
        trimmed(s).len() > 0 ==> !whitespace(trimmed(s)[0]) && !whitespace(trimmed(s).last()),
{
    lemma_trimmed_start(s);
    lemma_trimmed_end(trimmed_start(s));
}

proof fn lemma_trimmed_start(s: Seq<char>)
    ensures
        trimmed_start(s).len() > 0 ==> !whitespace(trimmed_start(s)[0]),
    decreases s.len(),
{
    if s.len() > 0 && whitespace(s[0]) {
        lemma_trimmed_start(s.drop_first());
    }
}

proof fn lemma_trimmed_end(s: Seq<char>)
    ensures
        trimmed_end(s).len() <= s.len(),
        trimmed_end(s) == s.take(trimmed_end(s).len() as int),
        trimmed_end(s).len() > 0 ==> !whitespace(trimmed_end(s).last()),
    decreases s.len(),
{
    if s.len() > 0 && whitespace(s.last()) {
        lemma_trimmed_end(s.drop_last());
    }
}

/// A text without whitespace at its ends is trimmed already.
pub proof fn lemma_trimmed_already(s: Seq<char>)
    requires
        s.len() > 0 ==> !whitespace(s[0]) && !whitespace(s.last()),
    ensures
        trimmed(s) == s,
{
}

/// Trimming twice is trimming once.
pub proof fn lemma_trimmed_twice(s: Seq<char>)
    ensures
        trimmed(trimmed(s)) == trimmed(s),
{
    lemma_trimmed_ends(s);
    lemma_trimmed_already(trimmed(s));
}

} // verus!
