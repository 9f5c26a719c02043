use fix_music_tags::detect::detect_encoding_issue;
use fix_music_tags::types::EncodingIssue;

#[test]
fn detect_finds_win1251_latin1() {
    assert_eq!(
        detect_encoding_issue("Îäèíàêîâûå ñíû"),
        Some(EncodingIssue::Win1251AsLatin1)
    );
    assert_eq!(
        detect_encoding_issue("Îëåã Ìèòÿåâ"),
        Some(EncodingIssue::Win1251AsLatin1)
    );
    assert_eq!(
        detect_encoding_issue("Çàïàõ ñíåãà"),
        Some(EncodingIssue::Win1251AsLatin1)
    );
}

#[test]
fn detect_skips_correct_cyrillic() {
    assert_eq!(detect_encoding_issue("Одинаковые сны"), None);
    assert_eq!(detect_encoding_issue("Олег Митяев"), None);
}

#[test]
fn detect_skips_plain_english() {
    assert_eq!(detect_encoding_issue("The Dark Side of the Moon"), None);
    assert_eq!(detect_encoding_issue("Track 01"), None);
}

#[test]
fn detect_skips_empty_string() {
    assert_eq!(detect_encoding_issue(""), None);
}

#[test]
fn detect_skips_non_latin1_unicode() {
    // Japanese: codepoints > 0xFF, not a Latin-1 mojibake artifact.
    assert_eq!(detect_encoding_issue("日本語のテキスト"), None);
}

#[test]
fn detect_skips_mixed_english_and_numbers() {
    assert_eq!(detect_encoding_issue("Album 2024 Remastered"), None);
}

#[test]
fn detect_counts_three_latin_ext_chars_whatever_their_share() {
    // Three Latin Extended characters among many ASCII ones still trigger.
    assert_eq!(
        detect_encoding_issue("A rather long English title with three: éèê"),
        Some(EncodingIssue::Win1251AsLatin1)
    );
    // Two of them among many ASCII ones do not.
    assert_eq!(detect_encoding_issue("A rather long English title with two: éè"), None);
}

#[test]
fn detect_ratio_threshold_is_thirty_percent() {
    // 3 of 10 characters would trigger by count anyway; test the ratio with fewer.
    // 2 of 6 characters (33%) trigger, 2 of 7 (28.6%) do not.
    assert_eq!(detect_encoding_issue("ab éè!"), Some(EncodingIssue::Win1251AsLatin1));
    assert_eq!(detect_encoding_issue("abc éè!"), None);
    // 1 of 3 (33%) triggers, 1 of 4 (25%) does not.
    assert_eq!(detect_encoding_issue("abé"), Some(EncodingIssue::Win1251AsLatin1));
    assert_eq!(detect_encoding_issue("abcé"), None);
}

#[test]
fn detect_skips_any_text_with_a_cyrillic_char() {
    assert_eq!(detect_encoding_issue("Îäèíàêîâûå Ж"), None);
    assert_eq!(detect_encoding_issue("\u{0400}"), None);
    assert_eq!(detect_encoding_issue("\u{04FF}éèê"), None);
}

#[test]
fn detect_skips_text_with_any_char_beyond_latin1() {
    assert_eq!(detect_encoding_issue("Îäèíàêîâûå ñíû \u{2014}"), None);
    assert_eq!(detect_encoding_issue("\u{100}ÿÿÿ"), None);
}

#[test]
fn detect_latin_ext_range_bounds() {
    // 0x7F is not Latin Extended; 0x80 and 0xFF are.
    assert_eq!(detect_encoding_issue("\u{7F}"), None);
    assert_eq!(detect_encoding_issue("\u{80}"), Some(EncodingIssue::Win1251AsLatin1));
    assert_eq!(detect_encoding_issue("\u{FF}"), Some(EncodingIssue::Win1251AsLatin1));
}

#[test]
fn detect_skips_plain_ascii_of_any_kind() {
    // Every ASCII string has no issue, printable or not.
    for s in ["\t\n", "x", "     ", "\u{1}\u{2}\u{3}", "Hello, World! 123"] {
        assert_eq!(detect_encoding_issue(s), None);
    }
}
