//! Properties of detection, repair and scanning that hold for all inputs.
use vstd::prelude::*;
use crate::detect::{is_beyond_latin1, is_cyrillic, latin_ext_count, spec_detect};
use crate::types::EncodingIssue::Win1251AsLatin1;
use crate::fixing::{
    all_latin1,
    byte_chars,
    is_ascii_char,
    is_ascii_text,
    is_first_beyond_latin1,
    latin1_byte_seq,
    lemma_ascii_char_byte,
    spec_fix_encoding,
    spec_latin1_bytes,
    windows_1251_decoding,
};
use crate::scan::{
    TagField,
    TagValue,
    field_verdict,
    repair_of,
    failed_count,
    planned_patches,
    present_count,
    repairs,
    skipped_count,
    spec_should_write,
};
use crate::text::{
    has_edge_white_space,
    lemma_trimmed_has_no_edge_white_space,
    lemma_trimmed_no_edge_white_space_if,
    law_trim_removes_only_edge_white_space,
    is_white_space,
    trimmed,
};
use crate::types::{EncodingIssue, FixError};

verus! {

/// Text of ASCII characters holds no Latin Extended character.
proof fn lemma_ascii_has_no_latin_ext(s: Seq<char>)
    requires
        is_ascii_text(s),
    ensures
        latin_ext_count(s) == 0,
    decreases s.len(),
{
    if s.len() > 0 {
        assert(is_ascii_char(s[s.len() - 1]));
        assert(is_ascii_text(s.drop_last())) by {
            assert forall|i: int| 0 <= i < s.drop_last().len() implies #[trigger] is_ascii_char(
                s.drop_last()[i],
            ) by {
                assert(is_ascii_char(s[i]));
            }
        }
        lemma_ascii_has_no_latin_ext(s.drop_last());
    }
}

/// Empty text has no encoding issue.
pub proof fn law_empty_text_has_no_issue()
    ensures
        spec_detect(Seq::<char>::empty()) is None,
{
}

/// Text that holds a Cyrillic character, or any character beyond Latin-1, is
/// already proper Unicode text and has no encoding issue.
pub proof fn law_text_beyond_latin1_has_no_issue(s: Seq<char>, i: int)
    requires
        0 <= i < s.len(),
        is_cyrillic(s[i]) || is_beyond_latin1(s[i]),
    ensures
        spec_detect(s) is None,
{
    if is_cyrillic(s[i]) {
        assert(is_beyond_latin1(s[i]));
    }
}

/// Plain ASCII text (English titles, track numbers) has no encoding issue.
pub proof fn law_ascii_text_has_no_issue(s: Seq<char>)
    requires
        is_ascii_text(s),
    ensures
        spec_detect(s) is None,
{
    lemma_ascii_has_no_latin_ext(s);
    if s.len() > 0 {
        assert(is_ascii_char(s[0]));
    }
}

/// Text in which an issue is detected consists of Latin-1 characters only, so its
/// repair succeeds (it never fails, on the byte range or in decoding).
pub proof fn law_detected_text_repairs(s: Seq<char>)
    requires
        spec_detect(s) is Some,
    ensures
        all_latin1(s),
        spec_fix_encoding(s, spec_detect(s)->0) is Ok,
{
    assert(all_latin1(s)) by {
        assert forall|i: int| 0 <= i < s.len() implies !is_beyond_latin1(#[trigger] s[i]) by {
            if is_beyond_latin1(s[i]) {
                assert(exists|k: int| 0 <= k < s.len() && is_beyond_latin1(#[trigger] s[k]));
            }
        }
    }
}

/// The repair undoes the misread: text whose codepoints are the bytes `b` (Windows-1251
/// bytes read as Latin-1) is repaired to the Windows-1251 decoding of `b`, trimmed.
pub proof fn law_repair_undoes_misread(b: Seq<u8>)
    ensures
        spec_fix_encoding(byte_chars(b), EncodingIssue::Win1251AsLatin1) == Ok::<
            Seq<char>,
            FixError,
        >(trimmed(windows_1251_decoding(b))),
{
    let s = byte_chars(b);
    assert(all_latin1(s)) by {
        assert forall|i: int| 0 <= i < s.len() implies !is_beyond_latin1(#[trigger] s[i]) by {
            assert((b[i] as char) as u32 == b[i] as u32);
        }
    }
    assert(latin1_byte_seq(s) =~= b) by {
        assert forall|i: int| 0 <= i < b.len() implies #[trigger] latin1_byte_seq(s)[i] == b[i] by {
            let u = (b[i] as char) as u32;
            assert(u == b[i] as u32);
            assert((u as u8) as int == u as int);
        }
    }
}

/// A repair never fails in decoding: the Windows-1251 table maps every byte.
pub proof fn law_repair_never_fails_decoding(s: Seq<char>, issue: EncodingIssue)
    ensures
        spec_fix_encoding(s, issue) != Err::<Seq<char>, FixError>(FixError::DecodingFailed),
{
    if !all_latin1(s) {
        let i = choose|i: int| is_first_beyond_latin1(s, i);
        assert(spec_latin1_bytes(s) == Err::<Seq<u8>, FixError>(
            FixError::CodepointOutOfRange { ch: s[i], codepoint: s[i] as u32 },
        ));
    }
}

/// Plain ASCII text is a valid subset of both Latin-1 and Windows-1251, so its repair
/// only trims it; text without whitespace at either end comes back unchanged.
pub proof fn law_ascii_text_repairs_to_itself(s: Seq<char>)
    requires
        is_ascii_text(s),
    ensures
        spec_fix_encoding(s, EncodingIssue::Win1251AsLatin1) == Ok::<Seq<char>, FixError>(
            trimmed(s),
        ),
        !has_edge_white_space(s) ==> spec_fix_encoding(s, EncodingIssue::Win1251AsLatin1) == Ok::<
            Seq<char>,
            FixError,
        >(s),
{
    assert(all_latin1(s)) by {
        assert forall|k: int| 0 <= k < s.len() implies !is_beyond_latin1(#[trigger] s[k]) by {
            assert(is_ascii_char(s[k]));
        }
    }
    assert(windows_1251_decoding(latin1_byte_seq(s)) =~= s) by {
        assert forall|k: int| 0 <= k < s.len() implies #[trigger] windows_1251_decoding(
            latin1_byte_seq(s),
        )[k] == s[k] by {
            assert(is_ascii_char(s[k]));
            lemma_ascii_char_byte(s[k]);
        }
    }
    lemma_trimmed_no_edge_white_space_if(s);
}

/// A repair fails on a character out of the byte range exactly when the text holds a
/// character beyond Latin-1; the error names the first such character and its codepoint.
pub proof fn law_range_error_iff_beyond_latin1(s: Seq<char>, issue: EncodingIssue)
    ensures
        (spec_fix_encoding(s, issue) is Err && spec_fix_encoding(s, issue)->Err_0 is CodepointOutOfRange)
            <==> !all_latin1(s),
        spec_fix_encoding(s, issue) matches Err(FixError::CodepointOutOfRange { ch, codepoint })
            ==> codepoint == ch as u32 && exists|i: int|
            is_first_beyond_latin1(s, i) && s[i] == ch,
{
    if !all_latin1(s) {
        let k = choose|k: int| 0 <= k < s.len() && is_beyond_latin1(#[trigger] s[k]);
        lemma_first_beyond_latin1_exists(s, k);
    }
}

/// Where some character is beyond Latin-1, a first one is.
proof fn lemma_first_beyond_latin1_exists(s: Seq<char>, k: int)
    requires
        0 <= k < s.len(),
        is_beyond_latin1(s[k]),
    ensures
        exists|i: int| is_first_beyond_latin1(s, i),
    decreases k,
{
    if exists|j: int| 0 <= j < k && is_beyond_latin1(#[trigger] s[j]) {
        let j = choose|j: int| 0 <= j < k && is_beyond_latin1(#[trigger] s[j]);
        lemma_first_beyond_latin1_exists(s, j);
    } else {
        assert(is_first_beyond_latin1(s, k));
    }
}

/// A repaired value never starts or ends with whitespace.
pub proof fn law_repair_has_no_edge_white_space(s: Seq<char>, issue: EncodingIssue)
    ensures
        spec_fix_encoding(s, issue) is Ok ==> !has_edge_white_space(
            spec_fix_encoding(s, issue)->Ok_0,
        ),
{
    if let Ok(bytes) = spec_latin1_bytes(s) {
        lemma_trimmed_has_no_edge_white_space(windows_1251_decoding(bytes));
    }
}

/// A dry run plans no patch and writes no file.
pub proof fn law_dry_run_writes_nothing(fields: Seq<TagValue>, patch_count: nat)
    ensures
        planned_patches(fields, true).len() == 0,
        !spec_should_write(true, patch_count),
{
}

/// Outside a dry run a file is written exactly when one of its values was repaired, so
/// a dry run counts as fixed exactly the files that a real run writes.
pub proof fn law_real_run_writes_exactly_repaired_files(fields: Seq<TagValue>)
    ensures
        spec_should_write(false, planned_patches(fields, false).len()) <==> repairs(fields).len()
            > 0,
{
}

/// Every present tag value is counted exactly once: as skipped, as an error, or as a repair.
pub proof fn law_every_present_value_counted_once(fields: Seq<TagValue>)
    ensures
        skipped_count(fields) + failed_count(fields) + repairs(fields).len() == present_count(
            fields,
        ),
    decreases fields.len(),
{
    if fields.len() > 0 {
        law_every_present_value_counted_once(fields.drop_last());
    }
}

/// The Latin Extended count adds up over concatenation, and one character counts one
/// exactly when its codepoint is in 0x80 to 0xFF: so it is the number of positions of
/// `s` holding such a character.
pub proof fn law_latin_ext_count_counts_each_char(s1: Seq<char>, s2: Seq<char>, c: char)
    ensures
        latin_ext_count(Seq::<char>::empty()) == 0,
        latin_ext_count(seq![c]) == if 0x80 <= c as u32 <= 0xFF {
            1nat
        } else {
            0nat
        },
        latin_ext_count(s1 + s2) == latin_ext_count(s1) + latin_ext_count(s2),
    decreases s2.len(),
{
    assert(seq![c].drop_last() =~= Seq::<char>::empty());
    if s2.len() > 0 {
        law_latin_ext_count_counts_each_char(s1, s2.drop_last(), c);
        assert((s1 + s2).drop_last() =~= s1 + s2.drop_last());
        assert((s1 + s2).last() == s2.last());
    } else {
        assert(s1 + s2 =~= s1);
    }
}

/// Text made only of characters in 0x80 to 0xFF counts every character as Latin Extended.
proof fn lemma_all_latin_ext_count(s: Seq<char>)
    requires
        forall|i: int| 0 <= i < s.len() ==> 0x80 <= #[trigger] s[i] as u32 <= 0xFF,
    ensures
        latin_ext_count(s) == s.len(),
    decreases s.len(),
{
    if s.len() > 0 {
        let t = s.drop_last();
        assert forall|i: int| 0 <= i < t.len() implies 0x80 <= #[trigger] t[i] as u32 <= 0xFF by {
            assert(t[i] == s[i]);
        }
        lemma_all_latin_ext_count(t);
        assert(0x80 <= s[s.len() - 1] as u32 <= 0xFF);
    }
}

/// Non-empty text made only of characters in 0x80 to 0xFF (such as "ÊÈÍÎ", the capitals
/// КИНО misread) is detected as Windows-1251 read as Latin-1.
pub proof fn law_latin_ext_text_is_detected(s: Seq<char>)
    requires
        s.len() > 0,
        forall|i: int| 0 <= i < s.len() ==> 0x80 <= #[trigger] s[i] as u32 <= 0xFF,
    ensures
        spec_detect(s) == Some(Win1251AsLatin1),
{
    lemma_all_latin_ext_count(s);
    assert(!exists|i: int| 0 <= i < s.len() && is_cyrillic(#[trigger] s[i])) by {
        assert forall|i: int| 0 <= i < s.len() implies !is_cyrillic(#[trigger] s[i]) by {
            assert(s[i] as u32 <= 0xFF);
        }
    }
    assert(!exists|i: int| 0 <= i < s.len() && is_beyond_latin1(#[trigger] s[i])) by {
        assert forall|i: int| 0 <= i < s.len() implies !is_beyond_latin1(#[trigger] s[i]) by {
            assert(s[i] as u32 <= 0xFF);
        }
    }
}

/// A value that is clean is one whose trimmed text shows no issue; any other value gets
/// the repair of the whole (untrimmed) value, whatever its length.
pub proof fn law_field_verdict_follows_detection(v: Seq<char>)
    ensures
        field_verdict(v) is None <==> spec_detect(trimmed(v)) is None,
        spec_detect(trimmed(v)) is Some ==> field_verdict(v) == Some(
            spec_fix_encoding(v, spec_detect(trimmed(v))->0),
        ),
{
}

/// A tag value whose characters are the bytes `b`, all in 0x80 to 0xFF (Windows-1251
/// text read as Latin-1, such as "Ìàìà"), and that is not all whitespace, is repaired
/// to the Windows-1251 decoding of `b`, trimmed.
pub proof fn law_misread_value_is_repaired(b: Seq<u8>)
    requires
        forall|i: int| 0 <= i < b.len() ==> #[trigger] b[i] >= 0x80,
        trimmed(byte_chars(b)).len() > 0,
    ensures
        field_verdict(byte_chars(b)) == Some(
            Ok::<Seq<char>, FixError>(trimmed(windows_1251_decoding(b))),
        ),
{
    let s = byte_chars(b);
    let ab = law_trim_removes_only_edge_white_space(s);
    let t = trimmed(s);
    assert forall|i: int| 0 <= i < t.len() implies 0x80 <= #[trigger] t[i] as u32 <= 0xFF by {
        assert(t[i] == s[ab.0 + i]);
        assert(b[ab.0 + i] >= 0x80);
        assert((b[ab.0 + i] as char) as u32 == b[ab.0 + i] as u32);
    }
    law_latin_ext_text_is_detected(t);
    law_repair_undoes_misread(b);
}

/// The repair of misread bytes keeps the decoded text whole but for whitespace at its two
/// ends: it is a slice of the decoding, with only whitespace cut off before and after.
pub proof fn law_repair_is_an_edge_trimmed_slice_of_the_decoding(b: Seq<u8>)
    ensures
        exists|x: int, y: int|
            #![trigger windows_1251_decoding(b).subrange(x, y)]
            0 <= x <= y <= b.len() && spec_fix_encoding(byte_chars(b), Win1251AsLatin1) == Ok::<
                Seq<char>,
                FixError,
            >(windows_1251_decoding(b).subrange(x, y)) && (forall|i: int|
                0 <= i < x ==> is_white_space(#[trigger] windows_1251_decoding(b)[i])) && (forall|
                i: int,
            |
                y <= i < b.len() ==> is_white_space(#[trigger] windows_1251_decoding(b)[i])),
{
    law_repair_undoes_misread(b);
    let ab = law_trim_removes_only_edge_white_space(windows_1251_decoding(b));
    assert(windows_1251_decoding(b).subrange(ab.0, ab.1) == trimmed(windows_1251_decoding(b)));
}

/// `r` is the repair of value `i` of `fields`, with that value's field.
pub open spec fn repair_comes_from(fields: Seq<TagValue>, r: (TagField, Seq<char>), i: int) -> bool {
    0 <= i < fields.len() && fields[i].field == r.0 && repair_of(fields[i]) == Some(r.1)
}

/// `r` is the repair of some value of `fields`, with that value's field.
pub open spec fn has_repair_source(fields: Seq<TagValue>, r: (TagField, Seq<char>)) -> bool {
    exists|i: int| #[trigger] repair_comes_from(fields, r, i)
}

/// The value that the repair at position `k` comes from.
proof fn lemma_repair_source(fields: Seq<TagValue>, k: int) -> (i: int)
    requires
        0 <= k < repairs(fields).len(),
    ensures
        repair_comes_from(fields, repairs(fields)[k], i),
    decreases fields.len(),
{
    let p = fields.drop_last();
    let n = fields.len() - 1;
    match repair_of(fields.last()) {
        Some(r) => {
            assert(repairs(fields) == repairs(p).push((fields.last().field, r)));
            if k < repairs(p).len() {
                let i = lemma_repair_source(p, k);
                assert(p[i] == fields[i]);
                i
            } else {
                n
            }
        },
        None => {
            assert(repairs(fields) == repairs(p));
            let i = lemma_repair_source(p, k);
            assert(p[i] == fields[i]);
            i
        },
    }
}

/// Each repair found in a file's values carries the field of the value it repairs.
pub proof fn law_each_repair_keeps_its_field(fields: Seq<TagValue>)
    ensures
        forall|k: int|
            0 <= k < repairs(fields).len() ==> has_repair_source(fields, #[trigger] repairs(fields)[k]),
{
    assert forall|k: int| 0 <= k < repairs(fields).len() implies has_repair_source(
        fields,
        #[trigger] repairs(fields)[k],
    ) by {
        let i = lemma_repair_source(fields, k);
    }
}

/// Every repair found in a file's values appears among the repairs, with its field.
pub proof fn law_every_repair_is_listed(fields: Seq<TagValue>)
    ensures
        forall|i: int|
            0 <= i < fields.len() && #[trigger] repair_of(fields[i]) is Some ==> exists|k: int|
                0 <= k < repairs(fields).len() && #[trigger] repairs(fields)[k] == (
                    fields[i].field,
                    repair_of(fields[i])->0,
                ),
    decreases fields.len(),
{
    if fields.len() > 0 {
        let p = fields.drop_last();
        law_every_repair_is_listed(p);
        let n = fields.len() - 1;
        assert forall|i: int|
            0 <= i < fields.len() && #[trigger] repair_of(fields[i]) is Some implies exists|k: int|
                0 <= k < repairs(fields).len() && #[trigger] repairs(fields)[k] == (
                    fields[i].field,
                    repair_of(fields[i])->0,
                ) by {
            if i < n {
                assert(p[i] == fields[i]);
                assert(repair_of(p[i]) is Some);
                let k = choose|k: int|
                    0 <= k < repairs(p).len() && #[trigger] repairs(p)[k] == (
                        p[i].field,
                        repair_of(p[i])->0,
                    );
                assert(repairs(fields)[k] == repairs(p)[k]);
            } else {
                let k = repairs(p).len() as int;
                assert(fields[i] == fields.last());
                assert(repairs(fields)[k] == (fields[i].field, repair_of(fields[i])->0));
            }
        }
    }
}

/// Outside a dry run, every repaired value gets a patch and every patch is the repair of
/// a value, written to that value's field: the number of patches is the number of
/// present values that were neither clean nor failed.
pub proof fn law_real_run_plans_every_repair(fields: Seq<TagValue>)
    ensures
        planned_patches(fields, false).len() + skipped_count(fields) + failed_count(fields)
            == present_count(fields),
        forall|k: int|
            0 <= k < planned_patches(fields, false).len() ==> has_repair_source(
                fields,
                #[trigger] planned_patches(fields, false)[k],
            ),
        forall|i: int|
            0 <= i < fields.len() && #[trigger] repair_of(fields[i]) is Some ==> exists|k: int|
                0 <= k < planned_patches(fields, false).len() && #[trigger] planned_patches(
                    fields,
                    false,
                )[k] == (fields[i].field, repair_of(fields[i])->0),
{
    law_every_present_value_counted_once(fields);
    law_each_repair_keeps_its_field(fields);
    law_every_repair_is_listed(fields);
}

} // verus!
