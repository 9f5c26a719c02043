use fix_music_tags::types::FixError;
use fix_music_tags::scan::{
    plan_file_fixes, record_read, FieldOutcome, record_unwritten, record_write, select_tag, should_write,
    ScanStats, TagField, TagSelection, TagValue, WriteOutcome,
};

fn value(field: TagField, v: Option<&str>) -> TagValue {
    TagValue { field, value: v.map(|s| s.to_string()) }
}

fn sample_fields() -> Vec<TagValue> {
    vec![
        value(TagField::Title, Some("Îäèíàêîâûå ñíû")),
        value(TagField::Artist, Some("Олег Митяев")),
        value(TagField::Album, None),
        value(TagField::Genre, Some("Çàïàõ\u{3000}")),
        value(TagField::Comment, Some("Çàïàõ ñíåãà")),
    ]
}

fn counts(s: &ScanStats) -> (u64, u64, u64, u64) {
    (s.processed, s.fixed, s.skipped, s.errors)
}

#[test]
fn plan_counts_and_patches() {
    let mut stats = ScanStats::new();
    let plan = plan_file_fixes(&sample_fields(), false, &mut stats);
    let (patches, had_fix) = (plan.patches, plan.had_fix);
    assert!(had_fix);
    // Artist skipped; genre fails (its trailing ideographic space is beyond Latin-1);
    // title and comment repaired.
    assert_eq!(plan.outcomes.len(), 5);
    assert!(matches!(&plan.outcomes[0], FieldOutcome::Fixed(s) if s == "Одинаковые сны"));
    assert!(matches!(plan.outcomes[1], FieldOutcome::Clean));
    assert!(matches!(plan.outcomes[2], FieldOutcome::Absent));
    assert!(matches!(
        plan.outcomes[3],
        FieldOutcome::Failed(FixError::CodepointOutOfRange { ch: '\u{3000}', codepoint: 0x3000 })
    ));
    assert!(matches!(&plan.outcomes[4], FieldOutcome::Fixed(s) if s == "Запах снега"));
    assert_eq!(counts(&stats), (0, 0, 1, 1));
    assert_eq!(patches.len(), 2);
    assert_eq!(patches[0].field, TagField::Title);
    assert_eq!(patches[0].fixed_value, "Одинаковые сны");
    assert_eq!(patches[1].field, TagField::Comment);
    assert_eq!(patches[1].fixed_value, "Запах снега");
    assert!(should_write(false, &patches));
}

#[test]
fn dry_run_plans_no_patch_but_counts_the_same() {
    let mut stats = ScanStats::default();
    let plan = plan_file_fixes(&sample_fields(), true, &mut stats);
    let (patches, had_fix) = (plan.patches, plan.had_fix);
    assert!(matches!(&plan.outcomes[0], FieldOutcome::Fixed(s) if s == "Одинаковые сны"));
    assert!(had_fix);
    assert!(patches.is_empty());
    assert_eq!(counts(&stats), (0, 0, 1, 1));
    assert!(!should_write(true, &patches));
    record_unwritten(&mut stats, had_fix);
    assert_eq!(counts(&stats), (0, 1, 1, 1));
}

#[test]
fn detection_uses_the_trimmed_value_and_repair_the_whole() {
    // Trimmed, the value is Latin-1 mojibake; the trailing ideographic space is beyond
    // Latin-1, so the repair of the untrimmed value fails.
    let fields = vec![value(TagField::Title, Some("Îäèíàêîâûå\u{3000}"))];
    let mut stats = ScanStats::new();
    let plan = plan_file_fixes(&fields, false, &mut stats);
    let (patches, had_fix) = (plan.patches, plan.had_fix);
    assert!(!had_fix);
    assert!(patches.is_empty());
    assert_eq!(counts(&stats), (0, 0, 0, 1));
}

#[test]
fn clean_file_has_nothing_to_write() {
    let fields = vec![
        value(TagField::Title, Some("Track 01")),
        value(TagField::Artist, Some("Pink Floyd")),
    ];
    let mut stats = ScanStats::new();
    let plan = plan_file_fixes(&fields, false, &mut stats);
    let (patches, had_fix) = (plan.patches, plan.had_fix);
    assert!(!had_fix);
    assert!(!should_write(false, &patches));
    assert_eq!(counts(&stats), (0, 0, 2, 0));
}

#[test]
fn comment_repairs_are_planned_like_the_others() {
    let fields = vec![value(TagField::Comment, Some("Çàïàõ ñíåãà"))];
    let mut stats = ScanStats::new();
    let plan = plan_file_fixes(&fields, false, &mut stats);
    assert_eq!(plan.patches.len(), 1);
    assert_eq!(plan.patches[0].field, TagField::Comment);
    assert_eq!(plan.patches[0].fixed_value, "Запах снега");
    assert!(should_write(false, &plan.patches));
}

#[test]
fn recording_outcomes() {
    let mut stats = ScanStats::new();
    record_read(&mut stats, true);
    record_read(&mut stats, false);
    assert_eq!(counts(&stats), (1, 0, 0, 1));
    record_write(&mut stats, WriteOutcome::Saved);
    record_write(&mut stats, WriteOutcome::SaveFailed);
    record_write(&mut stats, WriteOutcome::ReopenFailed);
    record_write(&mut stats, WriteOutcome::NoWritableTag);
    assert_eq!(counts(&stats), (1, 1, 0, 4));
    record_unwritten(&mut stats, false);
    assert_eq!(counts(&stats), (1, 1, 0, 4));
}

#[test]
fn tag_selection() {
    assert_eq!(select_tag(true, Some(true)), TagSelection::Primary);
    assert_eq!(select_tag(false, Some(true)), TagSelection::First { id3v1_only: true });
    assert_eq!(select_tag(false, Some(false)), TagSelection::First { id3v1_only: false });
    assert_eq!(select_tag(false, None), TagSelection::Missing);
}

#[test]
fn field_names() {
    let names: Vec<&str> = [
        TagField::Title,
        TagField::Artist,
        TagField::Album,
        TagField::Genre,
        TagField::Comment,
    ]
    .iter()
    .map(|f| f.name())
    .collect();
    assert_eq!(names, vec!["title", "artist", "album", "genre", "comment"]);
}
