use fix_music_tags::detect::detect_encoding_issue;
use fix_music_tags::fix_encoding;
use fix_music_tags::fixing::{finish_decoding, latin1_bytes};
use fix_music_tags::types::{EncodingIssue, FixError};

#[test]
fn fix_mixed_value() {
    let broken = "The Best.×àñòü 2";
    assert_eq!(
        detect_encoding_issue(broken),
        Some(EncodingIssue::Win1251AsLatin1)
    );
    let fixed = fix_encoding(broken, &EncodingIssue::Win1251AsLatin1).unwrap();
    assert_eq!(fixed, "The Best.Часть 2");
}

#[test]
fn fix_magic_lake() {
    let broken = "Âîëøåáíîå îçåðî";
    assert_eq!(
        detect_encoding_issue(broken),
        Some(EncodingIssue::Win1251AsLatin1)
    );
    let fixed = fix_encoding(broken, &EncodingIssue::Win1251AsLatin1).unwrap();
    assert_eq!(fixed, "Волшебное озеро");
}

#[test]
fn fix_known_broken_title() {
    let result = fix_encoding("Îäèíàêîâûå ñíû", &EncodingIssue::Win1251AsLatin1).unwrap();
    assert_eq!(result, "Одинаковые сны");
}

#[test]
fn fix_known_broken_artist() {
    let result = fix_encoding("Îëåã Ìèòÿåâ", &EncodingIssue::Win1251AsLatin1).unwrap();
    assert_eq!(result, "Олег Митяев");
}

#[test]
fn fix_known_broken_album() {
    let result = fix_encoding("Çàïàõ ñíåãà", &EncodingIssue::Win1251AsLatin1).unwrap();
    assert_eq!(result, "Запах снега");
}

#[test]
fn fix_pure_ascii_unchanged() {
    // Plain ASCII is a valid subset of both Latin-1 and Win-1251,
    // so it round-trips without change.
    let result = fix_encoding("Hello", &EncodingIssue::Win1251AsLatin1).unwrap();
    assert_eq!(result, "Hello");
}

#[test]
fn fix_rejects_codepoint_above_ff() {
    // U+0400 is a Cyrillic char whose codepoint > 0xFF: must fail.
    let broken = "\u{0400}test";
    let err = fix_encoding(broken, &EncodingIssue::Win1251AsLatin1);
    assert!(matches!(err, Err(FixError::CodepointOutOfRange { .. })));
}

#[test]
fn fix_reports_the_first_out_of_range_char() {
    let err = fix_encoding("ab\u{2014}c\u{0400}", &EncodingIssue::Win1251AsLatin1);
    assert_eq!(
        err,
        Err(FixError::CodepointOutOfRange { ch: '\u{2014}', codepoint: 0x2014 })
    );
}

#[test]
fn fix_trims_the_repaired_text() {
    let result = fix_encoding("  Çàïàõ ñíåãà \t", &EncodingIssue::Win1251AsLatin1).unwrap();
    assert_eq!(result, "Запах снега");
    // A non-breaking space (0xA0) decodes to U+00A0, which is whitespace and trimmed.
    let result = fix_encoding("\u{A0}Hello\u{A0}", &EncodingIssue::Win1251AsLatin1).unwrap();
    assert_eq!(result, "Hello");
}

#[test]
fn fix_ascii_with_edge_whitespace_is_trimmed() {
    let result = fix_encoding(" Hello ", &EncodingIssue::Win1251AsLatin1).unwrap();
    assert_eq!(result, "Hello");
}

#[test]
fn fix_decodes_every_cyrillic_letter() {
    // Bytes 0xC0..=0xFF of Windows-1251 are А..я.
    let broken: String = (0xC0u32..=0xFF).map(|b| char::from_u32(b).unwrap()).collect();
    let expected: String = (0x410u32..=0x44F).map(|b| char::from_u32(b).unwrap()).collect();
    assert_eq!(fix_encoding(&broken, &EncodingIssue::Win1251AsLatin1).unwrap(), expected);
    // Ё (0xA8) and ё (0xB8).
    assert_eq!(
        fix_encoding("\u{A8}\u{B8}", &EncodingIssue::Win1251AsLatin1).unwrap(),
        "Ёё"
    );
}

#[test]
fn fix_decodes_byte_order_mark_bytes_as_windows_1251() {
    // EF BB BF (a UTF-8 BOM elsewhere) and FF FE are plain Windows-1251 bytes here.
    let result = fix_encoding("\u{EF}\u{BB}\u{BF}\u{C3}\u{A9}", &EncodingIssue::Win1251AsLatin1);
    assert_eq!(result, Ok("п»їГ©".to_string()));
    let result = fix_encoding("\u{FF}\u{FE}A", &EncodingIssue::Win1251AsLatin1);
    assert_eq!(result, Ok("яюA".to_string()));
    let result = fix_encoding("\u{EF}\u{BB}\u{BF}\u{FF}", &EncodingIssue::Win1251AsLatin1);
    assert_eq!(result, Ok("п»їя".to_string()));
}

#[test]
fn fix_agrees_with_the_decoder_on_every_byte() {
    for b in 0u8..=255 {
        let text = (b as char).to_string();
        let byte = [b];
        let (decoded, had_errors) = encoding_rs::WINDOWS_1251.decode_without_bom_handling(&byte);
        assert!(!had_errors);
        assert_eq!(
            fix_encoding(&text, &EncodingIssue::Win1251AsLatin1),
            Ok(decoded.trim().to_string()),
            "byte {:#04X}",
            b
        );
    }
}

#[test]
fn fix_undoes_the_misread_of_windows_1251_text() {
    for original in ["Одинаковые сны", "Ёжик в тумане №5 — «Ї»", "Hello", "Ђђ€‰"] {
        let (bytes, _, unmappable) = encoding_rs::WINDOWS_1251.encode(original);
        assert!(!unmappable);
        let misread: String = bytes.iter().map(|b| *b as char).collect();
        assert_eq!(
            fix_encoding(&misread, &EncodingIssue::Win1251AsLatin1),
            Ok(original.to_string())
        );
    }
}

#[test]
fn latin1_bytes_reads_codepoints_as_bytes() {
    assert_eq!(latin1_bytes("Aÿ\u{80}"), Ok(vec![0x41, 0xFF, 0x80]));
    assert_eq!(latin1_bytes(""), Ok(vec![]));
    assert_eq!(
        latin1_bytes("a\u{100}"),
        Err(FixError::CodepointOutOfRange { ch: '\u{100}', codepoint: 0x100 })
    );
}

#[test]
fn finish_decoding_fails_on_errors_and_trims_otherwise() {
    assert_eq!(finish_decoding("  x ".to_string(), true), Err(FixError::DecodingFailed));
    assert_eq!(finish_decoding("  x y\n".to_string(), false), Ok("x y".to_string()));
    assert_eq!(finish_decoding(String::new(), false), Ok(String::new()));
}

#[test]
fn detected_text_always_repairs() {
    for s in ["Îäèíàêîâûå ñíû", "The Best.×àñòü 2", "ÿ", "\u{80}\u{81}\u{82}", "\u{98}", "ÿþA"] {
        let issue = detect_encoding_issue(s).expect("an issue is detected");
        assert!(fix_encoding(s, &issue).is_ok());
    }
}

#[test]
fn error_messages() {
    let e = FixError::CodepointOutOfRange { ch: '\u{0400}', codepoint: 0x400 };
    assert_eq!(e.message(), "char '\u{0400}' has codepoint 0x400, expected <= 0xFF");
    assert_eq!(e.message(), format!("char '{}' has codepoint {:#X}, expected <= 0xFF", '\u{0400}', 0x400));
    let e = FixError::CodepointOutOfRange { ch: '\u{10FFFF}', codepoint: 0x10FFFF };
    assert_eq!(e.message(), format!("char '{}' has codepoint {:#X}, expected <= 0xFF", '\u{10FFFF}', 0x10FFFFu32));
    let e = FixError::CodepointOutOfRange { ch: 'a', codepoint: 0 };
    assert_eq!(e.message(), "char 'a' has codepoint 0x0, expected <= 0xFF");
    assert_eq!(FixError::DecodingFailed.message(), "byte sequence invalid for target encoding");
}
