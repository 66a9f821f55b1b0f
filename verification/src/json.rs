//! JSON string literals.

use vstd::prelude::*;

verus! {

/// The lower-case hexadecimal digit of value `d`.
pub open spec fn hex_digit(d: nat) -> char {
    if d < 10 {
        ((0x30 + d) as u32) as char
    } else {
        ((0x57 + d) as u32) as char
    }
}

/// How the character `c` is written inside a JSON string literal.
pub open spec fn escaped_char(c: char) -> Seq<char> {
    if c == '"' || c == '\\' {
        seq!['\\', c]
    } else if c == '\u{8}' {
        seq!['\\', 'b']
    } else if c == '\t' {
        seq!['\\', 't']
    } else if c == '\n' {
        seq!['\\', 'n']
    } else if c == '\u{c}' {
        seq!['\\', 'f']
    } else if c == '\r' {
        seq!['\\', 'r']
    } else if (c as u32) < 0x20 {
        seq!['\\', 'u', '0', '0', hex_digit(c as nat / 16), hex_digit(c as nat % 16)]
    } else {
        seq![c]
    }
}

/// How the text `s` is written inside a JSON string literal.
pub open spec fn escaped(s: Seq<char>) -> Seq<char>
    decreases s.len(),
{
    if s.len() == 0 {
        seq![]
    } else {
        escaped_char(s[0]) + escaped(s.drop_first())
    }
}

/// The JSON string literal of the text `s`.
pub open spec fn quoted(s: Seq<char>) -> Seq<char> {
    seq!['"'] + escaped(s) + seq!['"']
}

/// `serde_json::to_string` of a `str`. It writes the characters between double quotes, with a
/// backslash before a double quote or a backslash, the short escapes for backspace, tab, line
/// feed, form feed and carriage return, `\u00xx` with lower-case digits for the other characters
/// below U+0020, and every other character as it is. It fails only where the value refuses to be
/// serialised or the writer fails; a `str` does not, nor does the memory it is written to.
#[verifier::external_body]
pub(crate) fn json_string(s: &str) -> (literal: String)
    ensures
        literal@ == quoted(s@),
{
    serde_json::to_string(s).unwrap()
}

proof fn lemma_escaped_char_shape(c: char)
    ensures
        escaped_char(c).len() > 0,
        escaped_char(c)[0] != '"',
        escaped_char(c)[0] == '\\' ==> escaped_char(c).len() >= 2,
{
}

/// Of two texts that begin with an escaped character, the beginning tells the character.
proof fn lemma_escaped_char_prefix(a: char, x: Seq<char>, b: char, y: Seq<char>)
    requires
        escaped_char(a) + x == escaped_char(b) + y,
    ensures
        a == b,
        x == y,
{
    let s = escaped_char(a) + x;
    let t = escaped_char(b) + y;
    assert(s[0] == escaped_char(a)[0]);
    assert(t[0] == escaped_char(b)[0]);
    if escaped_char(a)[0] == '\\' {
        assert(s[1] == escaped_char(a)[1]);
        assert(t[1] == escaped_char(b)[1]);
        if escaped_char(a)[1] == 'u' {
            assert(s[4] == escaped_char(a)[4]);
            assert(t[4] == escaped_char(b)[4]);
            assert(s[5] == escaped_char(a)[5]);
            assert(t[5] == escaped_char(b)[5]);
            lemma_hex_digit(a as nat / 16, b as nat / 16);
            lemma_hex_digit(a as nat % 16, b as nat % 16);
            assert(a as nat == b as nat);
        }
    }
    assert(a == b);
    let n = escaped_char(a).len() as int;
    assert(x == s.skip(n));
    assert(y == t.skip(n));
}

proof fn lemma_hex_digit(d: nat, e: nat)
    requires
        d < 16,
        e < 16,
    ensures
        hex_digit(d) == hex_digit(e) ==> d == e,
{
    assert(forall|k: nat| k < 16 ==> (#[trigger] hex_digit(k)) as nat == if k < 10 {
        0x30 + k
    } else {
        0x57 + k
    });
}

/// A string literal at the beginning of a text can be told from what follows it, and the string
/// from its literal.
pub proof fn lemma_quoted_prefix(a: Seq<char>, x: Seq<char>, b: Seq<char>, y: Seq<char>)
    requires
        quoted(a) + x == quoted(b) + y,
    ensures
        a == b,
        x == y,
{
    let s = escaped(a) + (seq!['"'] + x);
    let t = escaped(b) + (seq!['"'] + y);
    assert(quoted(a) + x == seq!['"'] + s);
    assert(quoted(b) + y == seq!['"'] + t);
    assert(s == (seq!['"'] + s).skip(1));
    assert(t == (seq!['"'] + t).skip(1));
    lemma_escaped_prefix(a, x, b, y);
}

proof fn lemma_escaped_prefix(a: Seq<char>, x: Seq<char>, b: Seq<char>, y: Seq<char>)
    requires
        escaped(a) + (seq!['"'] + x) == escaped(b) + (seq!['"'] + y),
    ensures
        a == b,
        x == y,
    decreases a.len(),
{
    let p = seq!['"'] + x;
    let q = seq!['"'] + y;
    let s = escaped(a) + p;
    let t = escaped(b) + q;
    if a.len() == 0 {
        assert(s == p);
        if b.len() > 0 {
            lemma_escaped_char_shape(b[0]);
            assert(t[0] == escaped_char(b[0])[0]);
            assert(false);
        }
        assert(t == q);
        assert(x == p.skip(1));
        assert(y == q.skip(1));
    } else if b.len() == 0 {
        lemma_escaped_char_shape(a[0]);
        assert(s[0] == escaped_char(a[0])[0]);
        assert(t == q);
        assert(false);
    } else {
        assert(s == escaped_char(a[0]) + (escaped(a.drop_first()) + p));
        assert(t == escaped_char(b[0]) + (escaped(b.drop_first()) + q));
        lemma_escaped_char_prefix(
            a[0],
            escaped(a.drop_first()) + p,
            b[0],
            escaped(b.drop_first()) + q,
        );
        lemma_escaped_prefix(a.drop_first(), x, b.drop_first(), y);
        assert(a == seq![a[0]] + a.drop_first());
        assert(b == seq![b[0]] + b.drop_first());
    }
}

} // verus!
