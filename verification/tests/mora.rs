use rusty_vv::mora::mora_count;

#[test]
fn small_ya_digraph_is_one_mora() {
    assert_eq!(mora_count("キャ"), 1);
}

#[test]
fn tu_digraph_then_two_single_moras() {
    // "トゥ" is a two-character unit; "デイ" is not in the digraph table, so
    // "デ" and "イ" count separately.
    assert_eq!(mora_count("トゥデイ"), 3);
}

#[test]
fn five_plain_vowels_are_five_moras() {
    assert_eq!(mora_count("アイウエオ"), 5);
}

#[test]
fn empty_pronunciation_has_no_moras() {
    assert_eq!(mora_count(""), 0);
}

#[test]
fn long_vowel_mark_counts_as_one_mora() {
    assert_eq!(mora_count("カー"), 2);
}

#[test]
fn line_u_digraph_is_one_mora() {
    assert_eq!(mora_count("ヴァ"), 1);
    assert_eq!(mora_count("ツィ"), 1);
    assert_eq!(mora_count("フォ"), 1);
}

#[test]
fn line_i_digraph_is_one_mora() {
    assert_eq!(mora_count("キェ"), 1);
    assert_eq!(mora_count("ジャ"), 1);
}

#[test]
fn irregular_digraphs_are_one_mora() {
    assert_eq!(mora_count("イェ"), 1);
    assert_eq!(mora_count("クヮ"), 1);
    assert_eq!(mora_count("デェ"), 1);
    assert_eq!(mora_count("ティ"), 1);
}

#[test]
fn characters_outside_the_katakana_block_are_skipped() {
    assert_eq!(mora_count("aイ"), 1);
    assert_eq!(mora_count("abc"), 0);
    assert_eq!(mora_count("ひらがなア"), 1);
}

#[test]
fn longer_pronunciation_mixes_units() {
    // テ + ス + ト = 3
    assert_eq!(mora_count("テスト"), 3);
    // ヴュ + ウ = 2
    assert_eq!(mora_count("ヴュウ"), 2);
}
