//! Repair of text according to a detected encoding issue.
use vstd::prelude::*;
use crate::detect::is_beyond_latin1;
use crate::text::{chars_of, trim, trimmed};
use crate::types::{EncodingIssue, FixError};

verus! {

/// The Windows-1251 codepoints of the bytes 0x80 to 0xFF, in byte order (the WHATWG
/// index that `encoding_rs` decodes with; every byte is mapped).
pub open spec fn windows_1251_high_table() -> Seq<u32> {
    seq![
        0x0402u32, 0x0403, 0x201A, 0x0453, 0x201E, 0x2026, 0x2020, 0x2021,
        0x20AC, 0x2030, 0x0409, 0x2039, 0x040A, 0x040C, 0x040B, 0x040F,
        0x0452, 0x2018, 0x2019, 0x201C, 0x201D, 0x2022, 0x2013, 0x2014,
        0x0098, 0x2122, 0x0459, 0x203A, 0x045A, 0x045C, 0x045B, 0x045F,
        0x00A0, 0x040E, 0x045E, 0x0408, 0x00A4, 0x0490, 0x00A6, 0x00A7,
        0x0401, 0x00A9, 0x0404, 0x00AB, 0x00AC, 0x00AD, 0x00AE, 0x0407,
        0x00B0, 0x00B1, 0x0406, 0x0456, 0x0491, 0x00B5, 0x00B6, 0x00B7,
        0x0451, 0x2116, 0x0454, 0x00BB, 0x0458, 0x0405, 0x0455, 0x0457,
        0x0410, 0x0411, 0x0412, 0x0413, 0x0414, 0x0415, 0x0416, 0x0417,
        0x0418, 0x0419, 0x041A, 0x041B, 0x041C, 0x041D, 0x041E, 0x041F,
        0x0420, 0x0421, 0x0422, 0x0423, 0x0424, 0x0425, 0x0426, 0x0427,
        0x0428, 0x0429, 0x042A, 0x042B, 0x042C, 0x042D, 0x042E, 0x042F,
        0x0430, 0x0431, 0x0432, 0x0433, 0x0434, 0x0435, 0x0436, 0x0437,
        0x0438, 0x0439, 0x043A, 0x043B, 0x043C, 0x043D, 0x043E, 0x043F,
        0x0440, 0x0441, 0x0442, 0x0443, 0x0444, 0x0445, 0x0446, 0x0447,
        0x0448, 0x0449, 0x044A, 0x044B, 0x044C, 0x044D, 0x044E, 0x044F,
    ]
}

/// The character that Windows-1251 gives the byte `b`: ASCII bytes stand for themselves.
pub open spec fn windows_1251_char(b: u8) -> char {
    if b < 0x80 {
        b as char
    } else {
        windows_1251_high_table()[b - 0x80] as char
    }
}

/// The Windows-1251 decoding of `bytes`, one character per byte.
pub open spec fn windows_1251_decoding(bytes: Seq<u8>) -> Seq<char> {
    bytes.map_values(|b: u8| windows_1251_char(b))
}

/// An ASCII character (codepoint below 0x80).
pub open spec fn is_ascii_char(c: char) -> bool {
    (c as u32) < 0x80
}

/// Every character of `s` is ASCII (codepoint below 0x80).
pub open spec fn is_ascii_text(s: Seq<char>) -> bool {
    forall|i: int| 0 <= i < s.len() ==> #[trigger] is_ascii_char(s[i])
}

/// Every character of `s` is within Latin-1 (codepoint at most 0xFF).
pub open spec fn all_latin1(s: Seq<char>) -> bool {
    forall|i: int| 0 <= i < s.len() ==> !is_beyond_latin1(#[trigger] s[i])
}

/// `i` is the position of the first character of `s` beyond Latin-1.
pub open spec fn is_first_beyond_latin1(s: Seq<char>, i: int) -> bool {
    &&& 0 <= i < s.len()
    &&& is_beyond_latin1(s[i])
    &&& forall|j: int| 0 <= j < i ==> !is_beyond_latin1(#[trigger] s[j])
}

/// The bytes whose values are the codepoints of `s`.
pub open spec fn latin1_byte_seq(s: Seq<char>) -> Seq<u8> {
    s.map_values(|c: char| (c as u32) as u8)
}

/// The characters whose codepoints are the values of `b`.
pub open spec fn byte_chars(b: Seq<u8>) -> Seq<char> {
    b.map_values(|x: u8| x as char)
}

/// A byte taken from an ASCII character reads back as that character.
pub proof fn lemma_ascii_char_byte(c: char)
    requires
        is_ascii_char(c),
    ensures
        (((c as u32) as u8) as char) == c,
{
    let u = c as u32;
    assert(u < 0x80);
    assert((u as u8) as int == u as int);
    assert(((u as u8) as char) as int == u as int);
}

/// Each character of `s` read back as the byte of the same value, or the error for the
/// first character beyond Latin-1.
pub open spec fn spec_latin1_bytes(s: Seq<char>) -> Result<Seq<u8>, FixError> {
    if all_latin1(s) {
        Ok(latin1_byte_seq(s))
    } else {
        let i = choose|i: int| is_first_beyond_latin1(s, i);
        Err(FixError::CodepointOutOfRange { ch: s[i], codepoint: s[i] as u32 })
    }
}

/// The repair once the bytes were decoded: an error where the decoder replaced
/// malformed sequences, else the decoded text trimmed.
pub open spec fn spec_finish_decoding(decoded: Seq<char>, had_errors: bool) -> Result<
    Seq<char>,
    FixError,
> {
    if had_errors {
        Err(FixError::DecodingFailed)
    } else {
        Ok(trimmed(decoded))
    }
}

/// Reverses the Win-1251 to Latin-1 misread: codepoint to byte, decode as Win-1251.
pub open spec fn spec_fix_win1251_as_latin1(text: Seq<char>) -> Result<Seq<char>, FixError> {
    match spec_latin1_bytes(text) {
        Err(e) => Err(e),
        Ok(bytes) => Ok(trimmed(windows_1251_decoding(bytes))),
    }
}

/// The repair of `text` for `issue`.
pub open spec fn spec_fix_encoding(text: Seq<char>, issue: EncodingIssue) -> Result<
    Seq<char>,
    FixError,
> {
    match issue {
        EncodingIssue::Win1251AsLatin1 => spec_fix_win1251_as_latin1(text),
    }
}

/// A repair result seen through the characters of its text.
pub open spec fn text_result(r: Result<String, FixError>) -> Result<Seq<char>, FixError> {
    match r {
        Ok(s) => Ok(s@),
        Err(e) => Err(e),
    }
}

/// A byte conversion result seen through its bytes.
pub open spec fn bytes_result(r: Result<Vec<u8>, FixError>) -> Result<Seq<u8>, FixError> {
    match r {
        Ok(b) => Ok(b@),
        Err(e) => Err(e),
    }
}

/// Calls `encoding_rs::WINDOWS_1251.decode_without_bom_handling`, which decodes the
/// whole of `bytes` as Windows-1251 (no BOM sniffing) with malformed sequences replaced,
/// and returns the text and whether any were replaced. Claimed: each byte becomes the
/// character that the single-byte table (`data.rs`, `windows_1251`) gives it, ASCII
/// bytes themselves, and since that table maps every byte no error is reported. The
/// length bound keeps the decoder's buffer size computation and allocation from panicking.
#[verifier::external_body]
fn decode_windows_1251(bytes: &[u8]) -> (res: (String, bool))
    requires
        bytes@.len() <= usize::MAX / 8,
    ensures
        res.0@ == windows_1251_decoding(bytes@),
        !res.1,
{
    let (decoded, had_errors) = encoding_rs::WINDOWS_1251.decode_without_bom_handling(bytes);
    (decoded.into_owned(), had_errors)
}

/// Reads each character of `text` as the byte of the same value; fails on the first
/// character whose codepoint is above 0xFF.
pub fn latin1_bytes(text: &str) -> (res: Result<Vec<u8>, FixError>)
    ensures
        bytes_result(res) == spec_latin1_bytes(text@),
{
    let chars = chars_of(text);
    let n = chars.len();
    let mut bytes: Vec<u8> = Vec::new();
    let mut i: usize = 0;
    while i < n
        invariant
            chars@ == text@,
            n == chars@.len(),
            i <= n,
            all_latin1(chars@.take(i as int)),
            bytes@ == latin1_byte_seq(chars@.take(i as int)),
        decreases n - i,
    {
        let c = chars[i];
        let cp = c as u32;
        if cp <= 0xFF {
            bytes.push(cp as u8);
            assert(latin1_byte_seq(chars@.take(i + 1)) =~= latin1_byte_seq(chars@.take(i as int)).push(
                cp as u8,
            ));
            assert(all_latin1(chars@.take(i + 1))) by {
                assert forall|k: int| 0 <= k < i + 1 implies !is_beyond_latin1(
                    #[trigger] chars@.take(i + 1)[k],
                ) by {
                    if k < i {
                        assert(chars@.take(i + 1)[k] == chars@.take(i as int)[k]);
                    }
                }
            }
            i = i + 1;
        } else {
            proof {
                let s = text@;
                assert(is_first_beyond_latin1(s, i as int)) by {
                    assert forall|j: int| 0 <= j < i implies !is_beyond_latin1(#[trigger] s[j]) by {
                        assert(s[j] == chars@.take(i as int)[j]);
                    }
                }
                assert(!all_latin1(s));
                let w = choose|k: int| is_first_beyond_latin1(s, k);
                assert(w == i as int) by {
                    if w < i {
                        assert(!is_beyond_latin1(s[w]));
                    }
                    if w > i {
                        assert(!is_beyond_latin1(s[i as int]));
                    }
                }
            }
            return Err(FixError::CodepointOutOfRange { ch: c, codepoint: cp });
        }
    }
    assert(chars@.take(n as int) =~= chars@);
    Ok(bytes)
}

/// Completes a repair from what the decoder returned: `DecodingFailed` where it had to
/// replace malformed sequences, otherwise the decoded text without leading and trailing
/// whitespace.
pub fn finish_decoding(decoded: String, had_errors: bool) -> (res: Result<String, FixError>)
    ensures
        text_result(res) == spec_finish_decoding(decoded@, had_errors),
{
    if had_errors {
        return Err(FixError::DecodingFailed);
    }
    Ok(trim(decoded.as_str()))
}

/// Reverses the Win-1251 to Latin-1 misread:
///   char codepoint (u32) to u8 byte, decode as Win-1251, then UTF-8.
fn fix_win1251_as_latin1(text: &str) -> (res: Result<String, FixError>)
    requires
        text@.len() <= usize::MAX / 8,
    ensures
        text_result(res) == spec_fix_win1251_as_latin1(text@),
{
    let raw_bytes = latin1_bytes(text)?;
    let (decoded, had_errors) = decode_windows_1251(raw_bytes.as_slice());
    finish_decoding(decoded, had_errors)
}

/// Repairs `text` according to the detected `issue`.
/// Returns the corrected UTF-8 string or a [`FixError`].
pub fn fix_encoding(text: &str, issue: &EncodingIssue) -> (res: Result<String, FixError>)
    requires
        text@.len() <= usize::MAX / 8,
    ensures
        text_result(res) == spec_fix_encoding(text@, *issue),
{
    match issue {
        EncodingIssue::Win1251AsLatin1 => fix_win1251_as_latin1(text),
    }
}

} // verus!
