//! Detection of the language that a text is written in.

use crate::text::chars_of;
use vstd::prelude::*;

verus! {

/// Whether `c` has the Unicode property Alphabetic.
pub uninterp spec fn alphabetic(c: char) -> bool;

/// `char::is_alphabetic` of std tells whether a character has the Unicode property Alphabetic.
/// The property is a table of the Unicode Character Database, so it is only named here: all that
/// is claimed is that the answer depends on the character alone.
pub assume_specification[ char::is_alphabetic ](c: char) -> (b: bool)
    ensures
        b == alphabetic(c),
;

/// The ideographs: the unified ideographs with their extensions A and B, and the compatibility
/// ideographs.
pub open spec fn ideograph(c: char) -> bool {
    let u = c as u32;
    ||| 0x4E00 <= u <= 0x9FFF
    ||| 0x3400 <= u <= 0x4DBF
    ||| 0x20000 <= u <= 0x2A6DF
    ||| 0xF900 <= u <= 0xFAFF
}

/// The letters: the alphabetic characters and the ideographs.
pub open spec fn letter(c: char, is_alphabetic: bool) -> bool {
    is_alphabetic || ideograph(c)
}

/// How many characters of `text` are ideographs.
pub open spec fn ideographs(text: Seq<char>) -> nat
    decreases text.len(),
{
    if text.len() == 0 {
        0
    } else {
        ideographs(text.drop_last()) + if ideograph(text.last()) {
            1nat
        } else {
            0nat
        }
    }
}

/// How many characters of `text` are letters, where `flags` says which are alphabetic.
pub open spec fn letters(text: Seq<char>, flags: Seq<bool>) -> nat
    decreases text.len(),
{
    if text.len() == 0 {
        0
    } else {
        letters(text.drop_last(), flags.drop_last()) + if letter(text.last(), flags.last()) {
            1nat
        } else {
            0nat
        }
    }
}

/// More than a fifth of the letters of `text` are ideographs.
pub open spec fn mostly_ideographs(text: Seq<char>, flags: Seq<bool>) -> bool {
    5 * ideographs(text) > letters(text, flags)
}

/// Which characters of `text` are alphabetic.
pub open spec fn alphabetic_flags(text: Seq<char>) -> Seq<bool> {
    text.map_values(|c: char| alphabetic(c))
}

/// More than a fifth of the letters of `text` are ideographs.
pub open spec fn predominantly_chinese(text: Seq<char>) -> bool {
    mostly_ideographs(text, alphabetic_flags(text))
}

/// Whether `c` is an ideograph.
pub fn is_ideograph(c: char) -> (b: bool)
    ensures
        b == ideograph(c),
{
    let u: u32 = c as u32;
    (0x4E00 <= u && u <= 0x9FFF) || (0x3400 <= u && u <= 0x4DBF) || (0x20000 <= u && u <= 0x2A6DF)
        || (0xF900 <= u && u <= 0xFAFF)
}

/// Whether `c`, which is alphabetic or not, is a letter.
pub fn is_letter(c: char, is_alphabetic: bool) -> (b: bool)
    ensures
        b == letter(c, is_alphabetic),
{
    is_alphabetic || is_ideograph(c)
}

/// Whether more than a fifth of the letters of `text` are ideographs, where `flags` says of each
/// character whether it is alphabetic.
pub fn has_mostly_ideographs(text: &Vec<char>, flags: &Vec<bool>) -> (b: bool)
    requires
        text.len() == flags.len(),
    ensures
        b == mostly_ideographs(text@, flags@),
{
    let mut total: usize = 0;
    let mut cjk: usize = 0;
    let mut i: usize = 0;
    while i < text.len()
        invariant
            i <= text.len() == flags.len(),
            cjk <= total <= i,
            cjk == ideographs(text@.take(i as int)),
            total == letters(text@.take(i as int), flags@.take(i as int)),
        decreases text.len() - i,
    {
        proof {
            assert(text@.take(i + 1).drop_last() == text@.take(i as int));
            assert(flags@.take(i + 1).drop_last() == flags@.take(i as int));
        }
        if is_letter(text[i], flags[i]) {
            total += 1;
            if is_ideograph(text[i]) {
                cjk += 1;
            }
        }
        i += 1;
    }
    proof {
        assert(text@.take(i as int) == text@);
        assert(flags@.take(i as int) == flags@);
    }
    total > 0 && (cjk as u128) * 5 > total as u128
}

/// Returns true when more than a fifth of the letters in `text` are ideographs, which is taken
/// for "predominantly Chinese". It also covers Japanese and Korean texts with enough of them.
pub fn is_predominantly_chinese(text: &str) -> (b: bool)
    ensures
        b == predominantly_chinese(text@),
{
    let chars: Vec<char> = chars_of(text);
    let mut flags: Vec<bool> = Vec::new();
    let mut i: usize = 0;
    while i < chars.len()
        invariant
            i <= chars.len(),
            flags@ == alphabetic_flags(chars@.take(i as int)),
        decreases chars.len() - i,
    {
        let flag: bool = chars[i].is_alphabetic();
        flags.push(flag);
        i += 1;
    }
    assert(chars@.take(i as int) == chars@);
    has_mostly_ideographs(&chars, &flags)
}

/// Counting is additive: a text is counted part by part.
pub proof fn lemma_counts_add(a: Seq<char>, b: Seq<char>, fa: Seq<bool>, fb: Seq<bool>)
    requires
        a.len() == fa.len(),
        b.len() == fb.len(),
    ensures
        ideographs(a + b) == ideographs(a) + ideographs(b),
        letters(a + b, fa + fb) == letters(a, fa) + letters(b, fb),
    decreases b.len(),
{
    if b.len() == 0 {
        assert(a + b == a);
        assert(fa + fb == fa);
    } else {
        assert((a + b).drop_last() == a + b.drop_last());
        assert((fa + fb).drop_last() == fa + fb.drop_last());
        lemma_counts_add(a, b.drop_last(), fa, fb.drop_last());
    }
}

/// Every ideograph is a letter.
pub proof fn lemma_ideographs_are_letters(text: Seq<char>, flags: Seq<bool>)
    requires
        text.len() == flags.len(),
    ensures
        ideographs(text) <= letters(text, flags) <= text.len(),
    decreases text.len(),
{
    if text.len() > 0 {
        lemma_ideographs_are_letters(text.drop_last(), flags.drop_last());
    }
}

/// A text without ideographs is not taken for Chinese, whatever its letters are.
pub proof fn lemma_no_ideographs(text: Seq<char>)
    requires
        forall|i: int| 0 <= i < text.len() ==> !ideograph(#[trigger] text[i]),
    ensures
        ideographs(text) == 0,
        !predominantly_chinese(text),
    decreases text.len(),
{
    if text.len() > 0 {
        lemma_no_ideographs(text.drop_last());
    }
}

/// A text made of ideographs alone is taken for Chinese.
pub proof fn lemma_all_ideographs(text: Seq<char>)
    requires
        text.len() > 0,
        forall|i: int| 0 <= i < text.len() ==> ideograph(#[trigger] text[i]),
    ensures
        predominantly_chinese(text),
{
    lemma_ideographs_are_letters(text, alphabetic_flags(text));
    lemma_count_all(text);
}

proof fn lemma_count_all(text: Seq<char>)
    requires
        forall|i: int| 0 <= i < text.len() ==> ideograph(#[trigger] text[i]),
    ensures
        ideographs(text) == text.len(),
    decreases text.len(),
{
    if text.len() > 0 {
        lemma_count_all(text.drop_last());
    }
}

/// Characters that are not letters, such as digits, spaces and punctuation, change nothing
/// wherever they stand.
pub proof fn lemma_non_letters_ignored(a: Seq<char>, c: char, b: Seq<char>)
    requires
        !letter(c, alphabetic(c)),
    ensures
        predominantly_chinese(a + seq![c] + b) == predominantly_chinese(a + b),
{
    let fa = alphabetic_flags(a);
    let fb = alphabetic_flags(b);
    let fc = alphabetic_flags(seq![c]);
    assert(alphabetic_flags(a + seq![c] + b) == fa + fc + fb);
    assert(alphabetic_flags(a + b) == fa + fb);
    lemma_counts_add(a + seq![c], b, fa + fc, fb);
    lemma_counts_add(a, seq![c], fa, fc);
    lemma_counts_add(a, b, fa, fb);
    reveal_with_fuel(ideographs, 2);
    reveal_with_fuel(letters, 2);
}

/// Two texts that are both taken for Chinese are so together.
pub proof fn lemma_chinese_joined(a: Seq<char>, b: Seq<char>)
    requires
        predominantly_chinese(a),
        predominantly_chinese(b),
    ensures
        predominantly_chinese(a + b),
{
    assert(alphabetic_flags(a + b) == alphabetic_flags(a) + alphabetic_flags(b));
    lemma_counts_add(a, b, alphabetic_flags(a), alphabetic_flags(b));
}

} // verus!
