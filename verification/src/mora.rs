use vstd::prelude::*;

verus! {

// Mora segmentation over katakana pronunciations.
//
// A pronunciation is scanned left to right, greedily taking the longest unit
// at each position: first the fixed two-character units below, then any single
// character of the katakana block (including the long-vowel mark).  Characters
// outside the block contribute nothing.  The tables are fixed; they must agree
// exactly with the reference engine's own mora accounting.

/// The irregular two-character units: small-e after i, small ya/yu/yo after
/// vu, u-column small vowels after to/do, small i/ya/yu/yo after te/de,
/// small-e after de, and small wa after ku/gu.
pub open spec fn spec_pair_other(a: char, b: char) -> bool {
    (a == 'イ' && b == 'ェ') || (a == 'ヴ' && (b == 'ャ' || b == 'ュ' || b == 'ョ')) || ((a == 'ト'
        || a == 'ド') && b == 'ゥ') || ((a == 'テ' || a == 'デ') && (b == 'ィ' || b == 'ャ' || b
        == 'ュ' || b == 'ョ')) || (a == 'デ' && b == 'ェ') || ((a == 'ク' || a == 'グ') && b
        == 'ヮ')
}

/// An i-column consonant followed by a small e/ya/yu/yo.
pub open spec fn spec_pair_line_i(a: char, b: char) -> bool {
    (a == 'キ' || a == 'シ' || a == 'チ' || a == 'ニ' || a == 'ヒ' || a == 'ミ' || a == 'リ' || a
        == 'ギ' || a == 'ジ' || a == 'ビ' || a == 'ピ') && (b == 'ェ' || b == 'ャ' || b == 'ュ'
        || b == 'ョ')
}

/// A u-column consonant followed by a small vowel, per a fixed sub-table.
pub open spec fn spec_pair_line_u(a: char, b: char) -> bool {
    ((a == 'ツ' || a == 'フ' || a == 'ヴ') && b == 'ァ') || ((a == 'ウ' || a == 'ス' || a == 'ツ'
        || a == 'フ' || a == 'ヴ' || a == 'ズ') && b == 'ィ') || ((a == 'ウ' || a == 'ツ' || a
        == 'フ' || a == 'ヴ') && (b == 'ェ' || b == 'ォ'))
}

/// Any two-character mora.
pub open spec fn spec_two_char_mora(a: char, b: char) -> bool {
    spec_pair_other(a, b) || spec_pair_line_i(a, b) || spec_pair_line_u(a, b)
}

/// A single character counting as one mora: the katakana block from small-a
/// to vu, and the long-vowel mark.
pub open spec fn spec_one_char_mora(c: char) -> bool {
    ('ァ' as u32 <= c as u32 && c as u32 <= 'ヴ' as u32) || c == 'ー'
}

/// The number of moras in a character sequence: greedy two-character units
/// first, then single katakana characters; everything else is skipped.
pub open spec fn spec_mora_count(s: Seq<char>) -> nat
    decreases s.len(),
{
    if s.len() == 0 {
        0
    } else if s.len() >= 2 && spec_two_char_mora(s[0], s[1]) {
        1 + spec_mora_count(s.skip(2))
    } else if spec_one_char_mora(s[0]) {
        1 + spec_mora_count(s.skip(1))
    } else {
        spec_mora_count(s.skip(1))
    }
}

/// Whether two adjacent characters form a single two-character mora.
pub fn two_char_mora(a: char, b: char) -> (r: bool)
    ensures
        r == spec_two_char_mora(a, b),
{
    ((a == 'イ' && b == 'ェ') || (a == 'ヴ' && (b == 'ャ' || b == 'ュ' || b == 'ョ')) || ((a
        == 'ト' || a == 'ド') && b == 'ゥ') || ((a == 'テ' || a == 'デ') && (b == 'ィ' || b
        == 'ャ' || b == 'ュ' || b == 'ョ')) || (a == 'デ' && b == 'ェ') || ((a == 'ク' || a
        == 'グ') && b == 'ヮ')) || ((a == 'キ' || a == 'シ' || a == 'チ' || a == 'ニ' || a == 'ヒ'
        || a == 'ミ' || a == 'リ' || a == 'ギ' || a == 'ジ' || a == 'ビ' || a == 'ピ') && (b
        == 'ェ' || b == 'ャ' || b == 'ュ' || b == 'ョ')) || (((a == 'ツ' || a == 'フ' || a
        == 'ヴ') && b == 'ァ') || ((a == 'ウ' || a == 'ス' || a == 'ツ' || a == 'フ' || a == 'ヴ'
        || a == 'ズ') && b == 'ィ') || ((a == 'ウ' || a == 'ツ' || a == 'フ' || a == 'ヴ') && (b
        == 'ェ' || b == 'ォ')))
}

/// Whether a character counts as one mora on its own.
pub fn one_char_mora(c: char) -> (r: bool)
    ensures
        r == spec_one_char_mora(c),
{
    ('ァ' as u32 <= c as u32 && c as u32 <= 'ヴ' as u32) || c == 'ー'
}

/// The number of moras in a katakana pronunciation.  The count is derived
/// from the text on every read; it is never taken from client input.
pub fn mora_count(pronunciation: &str) -> (n: usize)
    ensures
        n == spec_mora_count(pronunciation@),
{
    let len = pronunciation.unicode_len();
    let mut i: usize = 0;
    let mut n: usize = 0;
    proof {
        assert(pronunciation@.skip(0) =~= pronunciation@);
    }
    while i < len
        invariant
            i <= len,
            n <= i,
            len == pronunciation@.len(),
            n + spec_mora_count(pronunciation@.skip(i as int)) == spec_mora_count(pronunciation@),
        decreases len - i,
    {
        let ghost rest = pronunciation@.skip(i as int);
        let c = pronunciation.get_char(i);
        let two = if i + 1 < len {
            two_char_mora(c, pronunciation.get_char(i + 1))
        } else {
            false
        };
        if two {
            proof {
                assert(rest.skip(2) =~= pronunciation@.skip(i + 2));
            }
            n = n + 1;
            i = i + 2;
        } else {
            proof {
                assert(rest.skip(1) =~= pronunciation@.skip(i + 1));
            }
            if one_char_mora(c) {
                n = n + 1;
            }
            i = i + 1;
        }
    }
    n
}

} // verus!
