//! Detection of text that holds Windows-1251 bytes read as Latin-1.
use vstd::prelude::*;
use crate::types::EncodingIssue;
use crate::text::chars_of;

verus! {

/// Share of characters in the Latin Extended range (0x80 to 0xFF), in percent, from
/// which the Win1251-as-Latin1 heuristic triggers.
pub const LATIN_EXT_RATIO_THRESHOLD_PERCENT: u64 = 30;

/// Number of Latin Extended characters from which the heuristic triggers whatever
/// their share (to catch mixed strings such as "The Best.×àñòü 2").
pub const LATIN_EXT_MIN_COUNT: u64 = 3;

/// Share of printable ASCII characters (0x20 to 0x7E), in percent, above which text
/// is considered mostly English or neutral.
pub const ASCII_RATIO_SKIP_THRESHOLD_PERCENT: u64 = 60;

/// A character of the Cyrillic block (U+0400 to U+04FF).
pub open spec fn is_cyrillic(c: char) -> bool {
    0x400 <= c as u32 <= 0x4FF
}

/// A character beyond Latin-1 (codepoint above 0xFF).
pub open spec fn is_beyond_latin1(c: char) -> bool {
    c as u32 > 0xFF
}

/// A character of the Latin Extended range (0x80 to 0xFF).
pub open spec fn is_latin_ext(c: char) -> bool {
    0x7F < c as u32 <= 0xFF
}

/// A printable ASCII character (0x20 to 0x7E).
pub open spec fn is_ascii_printable(c: char) -> bool {
    0x20 <= c as u32 <= 0x7E
}

/// The number of Latin Extended characters in `s`.
pub open spec fn latin_ext_count(s: Seq<char>) -> nat
    decreases s.len(),
{
    if s.len() == 0 {
        0
    } else {
        latin_ext_count(s.drop_last()) + if is_latin_ext(s.last()) {
            1nat
        } else {
            0nat
        }
    }
}

/// Whether `count` Latin Extended characters among `total` characters trigger the heuristic.
pub open spec fn meets_latin_ext_threshold(count: nat, total: nat) -> bool {
    count >= LATIN_EXT_MIN_COUNT || count * 100 >= LATIN_EXT_RATIO_THRESHOLD_PERCENT * total
}

/// The encoding issue of `s`: none for empty text, for text with a Cyrillic character
/// or with any character beyond Latin-1; Win1251AsLatin1 where the Latin Extended
/// characters reach the threshold; none otherwise.
pub open spec fn spec_detect(s: Seq<char>) -> Option<EncodingIssue> {
    if s.len() == 0 {
        None
    } else if exists|i: int| 0 <= i < s.len() && is_cyrillic(#[trigger] s[i]) {
        None
    } else if exists|i: int| 0 <= i < s.len() && is_beyond_latin1(#[trigger] s[i]) {
        None
    } else if meets_latin_ext_threshold(latin_ext_count(s), s.len()) {
        Some(EncodingIssue::Win1251AsLatin1)
    } else {
        None
    }
}

/// Returns the encoding issue detected in `text`, or `None` when the text appears to be
/// valid UTF-8 that does not require fixing.
pub fn detect_encoding_issue(text: &str) -> (res: Option<EncodingIssue>)
    ensures
        res == spec_detect(text@),
{
    let chars = chars_of(text);
    let total = chars.len();
    if total == 0 {
        return None;
    }

    // Guard: already contains Cyrillic, nothing to fix.
    let mut i: usize = 0;
    while i < total
        invariant
            chars@ == text@,
            total == chars@.len(),
            i <= total,
            forall|k: int| 0 <= k < i ==> !is_cyrillic(#[trigger] chars@[k]),
        decreases total - i,
    {
        let cp = chars[i] as u32;
        if 0x400 <= cp && cp <= 0x4FF {
            assert(is_cyrillic(chars@[i as int]));
            return None;
        }
        i = i + 1;
    }

    // Guard: non-Latin-1 codepoints indicate a real UTF-8 language.
    let mut i: usize = 0;
    while i < total
        invariant
            chars@ == text@,
            total == chars@.len(),
            i <= total,
            forall|k: int| 0 <= k < total ==> !is_cyrillic(#[trigger] chars@[k]),
            forall|k: int| 0 <= k < i ==> !is_beyond_latin1(#[trigger] chars@[k]),
        decreases total - i,
    {
        if chars[i] as u32 > 0xFF {
            assert(is_beyond_latin1(chars@[i as int]));
            return None;
        }
        i = i + 1;
    }

    // Latin Extended presence is the primary signal; printable ASCII is counted too.
    let mut latin_ext: usize = 0;
    let mut ascii: usize = 0;
    let mut i: usize = 0;
    while i < total
        invariant
            chars@ == text@,
            total == chars@.len(),
            i <= total,
            latin_ext <= i,
            ascii <= i,
            latin_ext == latin_ext_count(chars@.take(i as int)),
        decreases total - i,
    {
        let cp = chars[i] as u32;
        assert(chars@.take(i + 1).drop_last() =~= chars@.take(i as int));
        if 0x7F < cp && cp <= 0xFF {
            latin_ext = latin_ext + 1;
        }
        if 0x20 <= cp && cp <= 0x7E {
            ascii = ascii + 1;
        }
        i = i + 1;
    }
    assert(chars@.take(total as int) =~= chars@);
    let total_wide = total as u128;
    let latin_ext_wide = latin_ext as u128;
    let ascii_wide = ascii as u128;
    assert(total_wide <= u64::MAX);
    let latin_ext_ratio = LATIN_EXT_RATIO_THRESHOLD_PERCENT as u128;
    let ascii_ratio = ASCII_RATIO_SKIP_THRESHOLD_PERCENT as u128;
    assert(latin_ext_ratio * total_wide <= 100 * u64::MAX && ascii_ratio * total_wide <= 100
        * u64::MAX) by (nonlinear_arith)
        requires
            latin_ext_ratio == 30,
            ascii_ratio == 60,
            total_wide <= u64::MAX,
    ;
    if latin_ext_wide >= LATIN_EXT_MIN_COUNT as u128 || latin_ext_wide * 100 >= latin_ext_ratio
        * total_wide {
        return Some(EncodingIssue::Win1251AsLatin1);
    }

    // Mostly plain ASCII with no Latin Extended: treat as English.
    if ascii_wide * 100 > ascii_ratio * total_wide {
        return None;
    }
    None
}

} // verus!
