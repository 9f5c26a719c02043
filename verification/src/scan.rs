//! The decisions of a scan over tagged audio files: which tag values need a repair,
//! which repairs are written back, and how each file is counted.
use vstd::prelude::*;
use crate::detect::{detect_encoding_issue, spec_detect};
use crate::fixing::{fix_encoding, spec_fix_encoding};
use crate::text::{trim, trimmed};
use crate::types::FixError;

verus! {

/// Counters of a scan.
pub struct ScanStats {
    /// Files whose tags could be read.
    pub processed: u64,
    /// Files with at least one repaired tag (saved, or to be saved in a dry run).
    pub fixed: u64,
    /// Tag values that need no repair.
    pub skipped: u64,
    /// Files that could not be read or written, and tag values that could not be repaired.
    pub errors: u64,
}

impl ScanStats {
    /// All counters at zero.
    pub fn new() -> (s: Self)
        ensures
            s.processed == 0,
            s.fixed == 0,
            s.skipped == 0,
            s.errors == 0,
    {
        ScanStats { processed: 0, fixed: 0, skipped: 0, errors: 0 }
    }
}

impl Default for ScanStats {
    fn default() -> (s: Self)
        ensures
            s.processed == 0,
            s.fixed == 0,
            s.skipped == 0,
            s.errors == 0,
    {
        ScanStats::new()
    }
}

/// The text tags that are checked, in the order in which they are checked.
#[derive(Debug, Clone, Copy, PartialEq, Eq, Structural)]
pub enum TagField {
    Title,
    Artist,
    Album,
    Genre,
    Comment,
}

/// The name of a tag field as it appears in reports.
pub open spec fn field_name(f: TagField) -> Seq<char> {
    match f {
        TagField::Title => "title"@,
        TagField::Artist => "artist"@,
        TagField::Album => "album"@,
        TagField::Genre => "genre"@,
        TagField::Comment => "comment"@,
    }
}


impl TagField {
    /// The name of this field as it appears in reports.
    pub fn name(&self) -> (res: &'static str)
        ensures
            res@ == field_name(*self),
    {
        match self {
            TagField::Title => "title",
            TagField::Artist => "artist",
            TagField::Album => "album",
            TagField::Genre => "genre",
            TagField::Comment => "comment",
        }
    }
}

/// The value of one tag field of a file, where the tag has one.
pub struct TagValue {
    pub field: TagField,
    pub value: Option<String>,
}

/// A repaired value for one tag field.
pub struct Patch {
    pub field: TagField,
    pub fixed_value: String,
}

/// A patch seen as its field and the characters of its value.
pub open spec fn patch_view(p: Patch) -> (TagField, Seq<char>) {
    (p.field, p.fixed_value@)
}

/// A list of patches seen through [`patch_view`].
pub open spec fn patches_view(ps: Seq<Patch>) -> Seq<(TagField, Seq<char>)> {
    ps.map_values(|p: Patch| patch_view(p))
}

/// The verdict on one tag value: `None` where the trimmed value shows no encoding
/// issue, else the repair of the (untrimmed) value.
pub open spec fn field_verdict(value: Seq<char>) -> Option<Result<Seq<char>, FixError>> {
    match spec_detect(trimmed(value)) {
        None => None,
        Some(issue) => Some(spec_fix_encoding(value, issue)),
    }
}

/// A present value that needs no repair.
pub open spec fn is_skipped(t: TagValue) -> bool {
    match t.value {
        Some(v) => field_verdict(v@) is None,
        None => false,
    }
}

/// A present value whose repair failed.
pub open spec fn is_failed(t: TagValue) -> bool {
    match t.value {
        Some(v) => match field_verdict(v@) {
            Some(Err(_)) => true,
            _ => false,
        },
        None => false,
    }
}

/// The repaired value of a present value that needed and got a repair.
pub open spec fn repair_of(t: TagValue) -> Option<Seq<char>> {
    match t.value {
        Some(v) => match field_verdict(v@) {
            Some(Ok(fixed)) => Some(fixed),
            _ => None,
        },
        None => None,
    }
}

/// The number of values in `fields` that need no repair.
pub open spec fn skipped_count(fields: Seq<TagValue>) -> nat
    decreases fields.len(),
{
    if fields.len() == 0 {
        0
    } else {
        skipped_count(fields.drop_last()) + if is_skipped(fields.last()) {
            1nat
        } else {
            0nat
        }
    }
}

/// The number of values in `fields` whose repair failed.
pub open spec fn failed_count(fields: Seq<TagValue>) -> nat
    decreases fields.len(),
{
    if fields.len() == 0 {
        0
    } else {
        failed_count(fields.drop_last()) + if is_failed(fields.last()) {
            1nat
        } else {
            0nat
        }
    }
}

/// The number of values present in `fields`.
pub open spec fn present_count(fields: Seq<TagValue>) -> nat
    decreases fields.len(),
{
    if fields.len() == 0 {
        0
    } else {
        present_count(fields.drop_last()) + if fields.last().value is Some {
            1nat
        } else {
            0nat
        }
    }
}

/// The repairs found in `fields`, in order, each with its field.
pub open spec fn repairs(fields: Seq<TagValue>) -> Seq<(TagField, Seq<char>)>
    decreases fields.len(),
{
    if fields.len() == 0 {
        Seq::empty()
    } else {
        match repair_of(fields.last()) {
            Some(fixed) => repairs(fields.drop_last()).push((fields.last().field, fixed)),
            None => repairs(fields.drop_last()),
        }
    }
}

/// The patches planned for `fields`: none in a dry run, else every repair found.
pub open spec fn planned_patches(fields: Seq<TagValue>, dry_run: bool) -> Seq<
    (TagField, Seq<char>),
> {
    if dry_run {
        Seq::empty()
    } else {
        repairs(fields)
    }
}

/// Whether a file is written back: only outside a dry run and where patches were planned.
pub open spec fn spec_should_write(dry_run: bool, patch_count: nat) -> bool {
    !dry_run && patch_count > 0
}

/// Each present value length fits the repair's limits.
pub open spec fn values_fit(fields: Seq<TagValue>) -> bool {
    forall|i: int|
        0 <= i < fields.len() ==> match (#[trigger] fields[i]).value {
            Some(v) => v@.len() <= usize::MAX / 8,
            None => true,
        }
}

/// What checking one tag value found.
pub enum FieldOutcome {
    /// The tag has no such value.
    Absent,
    /// The value needs no repair.
    Clean,
    /// The value needs a repair, which failed.
    Failed(FixError),
    /// The value was repaired into this text.
    Fixed(String),
}

/// `o` is what checking `value` finds.
pub open spec fn outcome_of_value(o: FieldOutcome, value: Seq<char>) -> bool {
    match field_verdict(value) {
        None => o is Clean,
        Some(Err(e)) => o == FieldOutcome::Failed(e),
        Some(Ok(fixed)) => o matches FieldOutcome::Fixed(s) && s@ == fixed,
    }
}

/// `o` is what checking the tag value `t` finds.
pub open spec fn outcome_of(o: FieldOutcome, t: TagValue) -> bool {
    match t.value {
        None => o is Absent,
        Some(v) => outcome_of_value(o, v@),
    }
}

/// Checks one tag value: counts it as skipped where it needs no repair, as an error
/// where its repair fails, and otherwise records a patch (unless in a dry run).
pub fn check_tag_value(
    field: TagField,
    value: &str,
    dry_run: bool,
    stats: &mut ScanStats,
    patches: &mut Vec<Patch>,
) -> (outcome: FieldOutcome)
    requires
        old(stats).skipped < u64::MAX,
        old(stats).errors < u64::MAX,
        value@.len() <= usize::MAX / 8,
    ensures
        outcome_of_value(outcome, value@),
        final(stats).processed == old(stats).processed,
        final(stats).fixed == old(stats).fixed,
        match field_verdict(value@) {
            None => {
                &&& final(stats).skipped == old(stats).skipped + 1
                &&& final(stats).errors == old(stats).errors
                &&& final(patches)@ == old(patches)@
            },
            Some(Err(_)) => {
                &&& final(stats).skipped == old(stats).skipped
                &&& final(stats).errors == old(stats).errors + 1
                &&& final(patches)@ == old(patches)@
            },
            Some(Ok(fixed)) => {
                &&& final(stats).skipped == old(stats).skipped
                &&& final(stats).errors == old(stats).errors
                &&& patches_view(final(patches)@) == if dry_run {
                    patches_view(old(patches)@)
                } else {
                    patches_view(old(patches)@).push((field, fixed))
                }
            },
        },
{
    let trimmed_value = trim(value);
    match detect_encoding_issue(trimmed_value.as_str()) {
        None => {
            stats.skipped = stats.skipped + 1;
            FieldOutcome::Clean
        },
        Some(issue) => match fix_encoding(value, &issue) {
            Err(e) => {
                stats.errors = stats.errors + 1;
                FieldOutcome::Failed(e)
            },
            Ok(fixed) => {
                if !dry_run {
                    let ghost before = patches@;
                    patches.push(Patch { field, fixed_value: fixed.clone() });
                    assert(patches_view(patches@) =~= patches_view(before).push((field, fixed@)));
                }
                FieldOutcome::Fixed(fixed)
            },
        },
    }
}

/// The result of checking every value of one file's tag.
pub struct FilePlan {
    /// The patches to write back, in field order; none in a dry run.
    pub patches: Vec<Patch>,
    /// Whether any value was repaired.
    pub had_fix: bool,
    /// What checking each value found, in the order of the values.
    pub outcomes: Vec<FieldOutcome>,
}

/// Counting never exceeds the number of values.
proof fn lemma_counts_bounded(fields: Seq<TagValue>)
    ensures
        skipped_count(fields) <= fields.len(),
        failed_count(fields) <= fields.len(),
    decreases fields.len(),
{
    if fields.len() > 0 {
        lemma_counts_bounded(fields.drop_last());
    }
}

/// Checks every value of one file's tag, in order, as [`check_tag_value`] does; returns
/// the patches to write (none in a dry run), whether any value was repaired, and what
/// was found for each value.
pub fn plan_file_fixes(fields: &Vec<TagValue>, dry_run: bool, stats: &mut ScanStats) -> (res:
    FilePlan)
    requires
        old(stats).skipped + fields@.len() <= u64::MAX,
        old(stats).errors + fields@.len() <= u64::MAX,
        values_fit(fields@),
    ensures
        final(stats).processed == old(stats).processed,
        final(stats).fixed == old(stats).fixed,
        final(stats).skipped == old(stats).skipped + skipped_count(fields@),
        final(stats).errors == old(stats).errors + failed_count(fields@),
        patches_view(res.patches@) == planned_patches(fields@, dry_run),
        res.had_fix == (repairs(fields@).len() > 0),
        res.outcomes@.len() == fields@.len(),
        forall|i: int| 0 <= i < fields@.len() ==> outcome_of(#[trigger] res.outcomes@[i], fields@[i]),
{
    let mut patches: Vec<Patch> = Vec::new();
    let mut outcomes: Vec<FieldOutcome> = Vec::new();
    let mut had_fix = false;
    let n = fields.len();
    let mut i: usize = 0;
    while i < n
        invariant
            n == fields@.len(),
            i <= n,
            values_fit(fields@),
            stats.processed == old(stats).processed,
            stats.fixed == old(stats).fixed,
            stats.skipped == old(stats).skipped + skipped_count(fields@.take(i as int)),
            stats.errors == old(stats).errors + failed_count(fields@.take(i as int)),
            old(stats).skipped + n <= u64::MAX,
            old(stats).errors + n <= u64::MAX,
            patches_view(patches@) == planned_patches(fields@.take(i as int), dry_run),
            had_fix == (repairs(fields@.take(i as int)).len() > 0),
            outcomes@.len() == i,
            forall|k: int| 0 <= k < i ==> outcome_of(#[trigger] outcomes@[k], fields@[k]),
        decreases n - i,
    {
        let ghost prefix = fields@.take(i as int);
        assert(fields@.take(i + 1).drop_last() =~= prefix);
        assert(fields@.take(i + 1).last() == fields@[i as int]);
        proof {
            lemma_counts_bounded(prefix);
        }
        let field = &fields[i];
        match &field.value {
            Some(value) => {
                assert(value@.len() <= usize::MAX / 8) by {
                    assert(match fields@[i as int].value {
                        Some(v) => v@.len() <= usize::MAX / 8,
                        None => true,
                    });
                }
                let outcome = check_tag_value(field.field, value.as_str(), dry_run, stats, &mut patches);
                let fixed_here = match &outcome {
                    FieldOutcome::Fixed(_) => true,
                    _ => false,
                };
                had_fix = had_fix || fixed_here;
                outcomes.push(outcome);
            },
            None => {
                outcomes.push(FieldOutcome::Absent);
            },
        }
        i = i + 1;
    }
    assert(fields@.take(n as int) =~= fields@);
    FilePlan { patches, had_fix, outcomes }
}

/// Whether a file's planned patches are written back: only outside a dry run and where
/// there is at least one patch.
pub fn should_write(dry_run: bool, patches: &Vec<Patch>) -> (res: bool)
    ensures
        res == spec_should_write(dry_run, patches@.len()),
{
    !dry_run && patches.len() > 0
}

/// Counts a file whose tags were read (`read_ok`) as processed, and one that could not
/// be read as an error.
pub fn record_read(stats: &mut ScanStats, read_ok: bool)
    requires
        read_ok ==> old(stats).processed < u64::MAX,
        !read_ok ==> old(stats).errors < u64::MAX,
    ensures
        final(stats).fixed == old(stats).fixed,
        final(stats).skipped == old(stats).skipped,
        final(stats).processed == old(stats).processed + if read_ok {
            1int
        } else {
            0int
        },
        final(stats).errors == old(stats).errors + if read_ok {
            0int
        } else {
            1int
        },
{
    if read_ok {
        stats.processed = stats.processed + 1;
    } else {
        stats.errors = stats.errors + 1;
    }
}

/// What came of writing a file's patches back.
#[derive(Debug, Clone, Copy, PartialEq, Eq, Structural)]
pub enum WriteOutcome {
    /// The file could not be opened again for writing.
    ReopenFailed,
    /// The file held no tag that could take the patches.
    NoWritableTag,
    /// The patched file could not be saved.
    SaveFailed,
    /// The patched file was saved.
    Saved,
}

/// Counts a file whose patches were written: fixed when saved, an error otherwise.
pub fn record_write(stats: &mut ScanStats, outcome: WriteOutcome)
    requires
        outcome == WriteOutcome::Saved ==> old(stats).fixed < u64::MAX,
        outcome != WriteOutcome::Saved ==> old(stats).errors < u64::MAX,
    ensures
        final(stats).processed == old(stats).processed,
        final(stats).skipped == old(stats).skipped,
        final(stats).fixed == old(stats).fixed + if outcome == WriteOutcome::Saved {
            1int
        } else {
            0int
        },
        final(stats).errors == old(stats).errors + if outcome == WriteOutcome::Saved {
            0int
        } else {
            1int
        },
{
    match outcome {
        WriteOutcome::Saved => {
            stats.fixed = stats.fixed + 1;
        },
        _ => {
            stats.errors = stats.errors + 1;
        },
    }
}

/// Counts a file that is not written back: fixed where one of its values had a repair
/// (as happens in a dry run), unchanged otherwise.
pub fn record_unwritten(stats: &mut ScanStats, had_fix: bool)
    requires
        had_fix ==> old(stats).fixed < u64::MAX,
    ensures
        final(stats).processed == old(stats).processed,
        final(stats).skipped == old(stats).skipped,
        final(stats).errors == old(stats).errors,
        final(stats).fixed == old(stats).fixed + if had_fix {
            1int
        } else {
            0int
        },
{
    if had_fix {
        stats.fixed = stats.fixed + 1;
    }
}

/// Which tag of a file is read or patched.
#[derive(Debug, Clone, Copy, PartialEq, Eq, Structural)]
pub enum TagSelection {
    /// The file's primary tag.
    Primary,
    /// The first tag of the file; `id3v1_only` where it is an ID3v1 tag, which
    /// cannot hold UTF-8 and is upgraded to ID3v2 before writing.
    First { id3v1_only: bool },
    /// The file has no tag.
    Missing,
}

/// Selects the primary tag where there is one, else the first tag (`first_is_id3v1`
/// tells whether there is one and whether it is ID3v1), else none.
pub fn select_tag(has_primary: bool, first_is_id3v1: Option<bool>) -> (res: TagSelection)
    ensures
        has_primary ==> res == TagSelection::Primary,
        !has_primary && first_is_id3v1 is Some ==> res == (TagSelection::First {
            id3v1_only: first_is_id3v1->0,
        }),
        !has_primary && first_is_id3v1 is None ==> res == TagSelection::Missing,
{
    if has_primary {
        TagSelection::Primary
    } else {
        match first_is_id3v1 {
            Some(id3v1) => TagSelection::First { id3v1_only: id3v1 },
            None => TagSelection::Missing,
        }
    }
}

} // verus!
