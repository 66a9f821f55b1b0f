//! Laws of language detection.

use crate::language::{
    alphabetic, alphabetic_flags, ideograph, ideographs, letter, letters, lemma_counts_add,
    mostly_ideographs, predominantly_chinese,
};
use vstd::prelude::*;

verus! {

/// In one of the blocks of the Han ideographs.
pub open spec fn han(c: char) -> bool {
    ||| '\u{4E00}' <= c <= '\u{9FFF}'
    ||| '\u{3400}' <= c <= '\u{4DBF}'
    ||| '\u{20000}' <= c <= '\u{2A6DF}'
    ||| '\u{F900}' <= c <= '\u{FAFF}'
}

/// What is counted as an ideograph is a Han ideograph, and what is counted as a letter is one of
/// them or alphabetic.
pub proof fn lemma_what_is_counted(c: char, is_alphabetic: bool)
    ensures
        ideograph(c) <==> han(c),
        letter(c, is_alphabetic) <==> is_alphabetic || han(c),
{
}

proof fn lemma_ideographs_filtered(text: Seq<char>)
    ensures
        ideographs(text) == text.filter(|c: char| han(c)).len(),
    decreases text.len(),
{
    reveal(Seq::filter);
    if text.len() > 0 {
        lemma_ideographs_filtered(text.drop_last());
        lemma_what_is_counted(text.last(), false);
    }
}

proof fn lemma_letters_filtered(text: Seq<char>, flags: Seq<bool>)
    requires
        text.len() == flags.len(),
    ensures
        letters(text, flags) == text.zip_with(flags).filter(|p: (char, bool)| p.1 || han(p.0)).len(),
    decreases text.len(),
{
    reveal(Seq::filter);
    let both = text.zip_with(flags);
    if text.len() > 0 {
        assert(both.drop_last() == text.drop_last().zip_with(flags.drop_last()));
        assert(both.last() == (text.last(), flags.last()));
        lemma_letters_filtered(text.drop_last(), flags.drop_last());
        lemma_what_is_counted(text.last(), flags.last());
    }
}

/// The answer is yes exactly if the Han ideographs of the text, taken five times, are more than
/// its letters, however long it is. The letters are the characters that are flagged as alphabetic
/// and the ideographs.
pub proof fn lemma_flagged_share(text: Seq<char>, flags: Seq<bool>)
    requires
        text.len() == flags.len(),
    ensures
        mostly_ideographs(text, flags) <==> 5 * text.filter(|c: char| han(c)).len()
            > text.zip_with(flags).filter(|p: (char, bool)| p.1 || han(p.0)).len(),
{
    lemma_ideographs_filtered(text);
    lemma_letters_filtered(text, flags);
}

proof fn lemma_alphabetic_filtered(text: Seq<char>)
    ensures
        letters(text, alphabetic_flags(text)) == text.filter(
            |c: char| alphabetic(c) || han(c),
        ).len(),
    decreases text.len(),
{
    reveal(Seq::filter);
    if text.len() > 0 {
        assert(alphabetic_flags(text).drop_last() == alphabetic_flags(text.drop_last()));
        lemma_alphabetic_filtered(text.drop_last());
        lemma_what_is_counted(text.last(), alphabetic(text.last()));
    }
}

/// A text is taken for Chinese exactly if more than a fifth of its letters are Han ideographs,
/// however long it is.
pub proof fn lemma_chinese_share(text: Seq<char>)
    ensures
        predominantly_chinese(text) <==> 5 * text.filter(|c: char| han(c)).len() > text.filter(
            |c: char| alphabetic(c) || han(c),
        ).len(),
{
    lemma_ideographs_filtered(text);
    lemma_alphabetic_filtered(text);
}

proof fn lemma_counts_inserted(a: Seq<char>, c: char, b: Seq<char>)
    ensures
        ideographs(a + seq![c] + b) == ideographs(a + b) + (if han(c) {
            1int
        } else {
            0int
        }),
        letters(a + seq![c] + b, alphabetic_flags(a + seq![c] + b)) == letters(
            a + b,
            alphabetic_flags(a + b),
        ) + (if alphabetic(c) || han(c) {
            1int
        } else {
            0int
        }),
{
    let fa = alphabetic_flags(a);
    let fb = alphabetic_flags(b);
    let fc = alphabetic_flags(seq![c]);
    assert(alphabetic_flags(a + seq![c] + b) == fa + fc + fb);
    assert(alphabetic_flags(a + b) == fa + fb);
    lemma_counts_add(a + seq![c], b, fa + fc, fb);
    lemma_counts_add(a, seq![c], fa, fc);
    lemma_counts_add(a, b, fa, fb);
    reveal_with_fuel(ideographs, 2);
    reveal_with_fuel(letters, 2);
}

/// A letter more that is no ideograph never turns the answer to yes, and an ideograph more never
/// turns it to no.
pub proof fn lemma_one_letter_more(a: Seq<char>, c: char, b: Seq<char>)
    ensures
        !han(c) && predominantly_chinese(a + seq![c] + b) ==> predominantly_chinese(a + b),
        han(c) && predominantly_chinese(a + b) ==> predominantly_chinese(a + seq![c] + b),
{
    lemma_counts_inserted(a, c, b);
}

/// To write a text twice does not change the answer.
pub proof fn lemma_written_twice(text: Seq<char>)
    ensures
        predominantly_chinese(text + text) == predominantly_chinese(text),
{
    let f = alphabetic_flags(text);
    assert(alphabetic_flags(text + text) == f + f);
    lemma_counts_add(text, text, f, f);
}

/// In which order the parts of a text stand does not matter.
pub proof fn lemma_parts_swapped(a: Seq<char>, b: Seq<char>)
    ensures
        predominantly_chinese(a + b) == predominantly_chinese(b + a),
{
    let fa = alphabetic_flags(a);
    let fb = alphabetic_flags(b);
    assert(alphabetic_flags(a + b) == fa + fb);
    assert(alphabetic_flags(b + a) == fb + fa);
    lemma_counts_add(a, b, fa, fb);
    lemma_counts_add(b, a, fb, fa);
}

} // verus!
