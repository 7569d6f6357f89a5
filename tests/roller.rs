use std::io::Read;

use log_roll::date::Date;
use log_roll::roller::{
    archive_path, compression_for_extension, make_temp_file_name, move_step, select_compression,
    stamp_pattern, ArchiveSearch, BackgroundState, BuildError, Compression, FixedWindowRoller,
    FixedWindowRollerConfig, FixedWindowRollerDeserializer, MoveStep, RenameOutcome, SlotStep,
};

fn gunzip(data: &[u8]) -> Vec<u8> {
    let mut d = flate2::read::GzDecoder::new(data);
    let mut out = Vec::new();
    d.read_to_end(&mut out).unwrap();
    out
}

fn date(year: i32, month: u32, day: u32) -> Date {
    Date { year, month, day }
}

#[test]
fn unsupported_gzip() {
    let pattern = "/tmp/rolls/{}.gz";
    assert!(select_compression(pattern, false).is_err());
}

#[test]
fn supported_gzip() {
    let pattern = "/tmp/rolls/{}.gz";
    let roller = FixedWindowRoller::builder().build(pattern, 2).unwrap();
    assert_eq!(roller.compression(), Compression::Gzip);

    let contents = (0..10000).map(|i| i as u8).collect::<Vec<_>>();
    let archived = roller.compression().compress_bytes(&contents).unwrap();
    assert_ne!(archived, contents);

    let template = roller.archive_template(1).unwrap();
    assert_eq!(archive_path(&template, 0), "/tmp/rolls/0.gz");
    assert_eq!(contents, gunzip(&archived));
}

#[test]
fn gzip_selected_only_for_gz_extension() {
    assert_eq!(select_compression("a/{}.gz", true), Ok(Compression::Gzip));
    assert_eq!(select_compression("a/{}.gz", false), Err(BuildError::GzipUnsupported));
    assert_eq!(select_compression("a/foo.{}.log", false), Ok(Compression::Plain));
    assert_eq!(select_compression("a/{}.gzip", true), Ok(Compression::Plain));
    assert_eq!(select_compression("a/{}", true), Ok(Compression::Plain));
}

#[test]
fn first_roll_lands_at_base_index() {
    let roller = FixedWindowRoller::builder().base(0).build("archive/foo.{}.log", 5).unwrap();
    assert_eq!(roller.compression(), Compression::Plain);
    assert_eq!(roller.count(), 5);
    assert!(!roller.deletes_only());
    let template = roller.archive_template_on(date(2024, 5, 17), 0).unwrap();
    assert_eq!(template, "archive/foo.{}.log");
    let search = ArchiveSearch::start(template, roller.base());
    assert_eq!(search.candidate(), "archive/foo.0.log");
}

#[test]
fn occupied_slot_moves_to_next_index() {
    let roller = FixedWindowRoller::builder().build("archive/foo.{}.log", 5).unwrap();
    let template = roller.archive_template_on(date(2024, 5, 17), 0).unwrap();
    let mut search = ArchiveSearch::start(template, roller.base());
    let first = search.candidate();
    assert!(search.advance());
    assert_eq!(search.index(), 1);
    assert_eq!(search.candidate(), "archive/foo.1.log");
    assert_ne!(search.candidate(), first);
}

#[test]
fn search_stops_at_largest_index() {
    let mut search = ArchiveSearch::start("a.{}".to_string(), u32::MAX);
    assert_eq!(search.candidate(), "a.4294967295");
    assert!(!search.advance());
    assert_eq!(search.index(), u32::MAX);
}

#[test]
fn gzip_round_trip_of_pseudo_random_bytes() {
    let roller = FixedWindowRoller::builder().build("archive/foo.{}.gz", 5).unwrap();
    let mut x: u32 = 12345;
    let contents: Vec<u8> = (0..10000)
        .map(|_| {
            x = x.wrapping_mul(1103515245).wrapping_add(12345);
            (x >> 16) as u8
        })
        .collect();
    let archived = roller.compression().compress_bytes(&contents).unwrap();
    let template = roller.archive_template_on(date(2024, 5, 17), 0).unwrap();
    assert_eq!(archive_path(&template, 0), "archive/foo.0.gz");
    assert_eq!(gunzip(&archived), contents);
}

#[test]
fn gzip_round_trip_of_empty_file() {
    let archived = Compression::Gzip.compress_bytes(&Vec::new()).unwrap();
    assert!(!archived.is_empty());
    assert!(gunzip(&archived).is_empty());
}

#[test]
fn plain_compression_keeps_bytes() {
    let data = vec![1u8, 2, 3];
    assert_eq!(Compression::Plain.compress_bytes(&data), Some(data.clone()));
}

#[test]
fn pattern_without_placeholder_is_rejected() {
    let r = FixedWindowRoller::builder().build("archive/foo.log", 5);
    assert_eq!(r.unwrap_err(), BuildError::MissingPlaceholder);
    let r = FixedWindowRoller::builder().build("archive/foo.{yyyy-mm}.log", 5);
    assert_eq!(r.unwrap_err(), BuildError::MissingPlaceholder);
    assert!(!std::path::Path::new("archive").exists());
}

#[test]
fn zero_count_only_deletes() {
    let roller = FixedWindowRoller::builder().build("archive/foo.{}.log", 0).unwrap();
    assert!(roller.deletes_only());
    let roller = FixedWindowRoller::builder().build("archive/foo.{}.log", 1).unwrap();
    assert!(!roller.deletes_only());
}

#[test]
fn roll_type_one_uses_previous_day() {
    let roller = FixedWindowRoller::builder()
        .build("logs/{yyyy-mm}/{yyyy-mm-dd}.{}.log", 3)
        .unwrap();
    let today = date(2024, 3, 1);
    assert_eq!(
        roller.archive_template_on(today, 0).unwrap(),
        "logs/2024-03/2024-03-01.{}.log"
    );
    assert_eq!(
        roller.archive_template_on(today, 1).unwrap(),
        "logs/2024-02/2024-02-29.{}.log"
    );
    assert_eq!(
        roller.archive_template_on(date(2023, 1, 1), 1).unwrap(),
        "logs/2022-12/2022-12-31.{}.log"
    );
    assert_eq!(
        roller.archive_template_on(date(2023, 3, 1), 1).unwrap(),
        "logs/2023-02/2023-02-28.{}.log"
    );
    assert_eq!(
        roller.archive_template_on(date(2023, 5, 10), 1).unwrap(),
        "logs/2023-05/2023-05-09.{}.log"
    );
}

#[test]
fn roll_type_one_before_earliest_date_is_none() {
    let roller = FixedWindowRoller::builder().build("{yyyy-mm-dd}.{}", 3).unwrap();
    assert!(roller.archive_template_on(date(-262143, 1, 1), 1).is_none());
    assert!(roller.archive_template_on(date(-262143, 1, 1), 0).is_some());
}

#[test]
fn current_date_template_is_filled() {
    let roller = FixedWindowRoller::builder().build("{yyyy-mm-dd}.{}", 3).unwrap();
    let t = roller.archive_template(0).unwrap();
    assert!(!t.contains("{yyyy-mm-dd}"));
    assert!(t.ends_with(".{}"));
    assert_eq!(t.len(), "2024-01-01.{}".len());
}

#[test]
fn stamping_replaces_every_token() {
    let d = date(987, 11, 5);
    assert_eq!(
        stamp_pattern("{yyyy-mm}/{yyyy-mm}-{yyyy-mm-dd}.{}", d),
        "0987-11/0987-11-0987-11-05.{}"
    );
}

#[test]
fn archive_path_replaces_each_placeholder() {
    assert_eq!(archive_path("a{}/b.{}.log", 42), "a42/b.42.log");
    assert_eq!(archive_path("a{{}}", 7), "a{7}");
    assert_eq!(archive_path("plain", 7), "plain");
}

#[test]
fn temp_name_sets_extension() {
    assert_eq!(make_temp_file_name("logs/foo.log", 1700000000), "logs/foo.1700000000");
    assert_eq!(make_temp_file_name("logs/foo", 5), "logs/foo.5");
}

#[test]
fn missing_source_counts_as_moved() {
    assert_eq!(move_step(RenameOutcome::SourceMissing), MoveStep::Done);
    assert_eq!(move_step(RenameOutcome::Renamed), MoveStep::Done);
    assert_eq!(move_step(RenameOutcome::Failed), MoveStep::CopyThenRemove);
}

#[test]
fn second_rotation_waits_for_first() {
    let mut s = BackgroundState::new();
    assert!(s.try_begin());
    assert!(!s.try_begin());
    s.finish();
    assert!(s.try_begin());
}

#[test]
fn deserializer_applies_base() {
    let config = FixedWindowRollerConfig {
        pattern: "archive/foo.{}.log".to_string(),
        base: Some(3),
        count: 5,
    };
    let roller = FixedWindowRollerDeserializer.deserialize(config).unwrap();
    assert_eq!(roller.base(), 3);
    assert_eq!(roller.count(), 5);
    assert_eq!(roller.pattern(), "archive/foo.{}.log");
    let config = FixedWindowRollerConfig {
        pattern: "archive/foo.log".to_string(),
        base: None,
        count: 5,
    };
    assert_eq!(
        FixedWindowRollerDeserializer.deserialize(config).unwrap_err(),
        BuildError::MissingPlaceholder
    );
}

#[test]
fn extension_decides_compression() {
    assert_eq!(compression_for_extension(Some("gz"), true), Ok(Compression::Gzip));
    assert_eq!(compression_for_extension(Some("gz"), false), Err(BuildError::GzipUnsupported));
    assert_eq!(compression_for_extension(Some("log"), false), Ok(Compression::Plain));
    assert_eq!(compression_for_extension(Some("g"), true), Ok(Compression::Plain));
    assert_eq!(compression_for_extension(None, true), Ok(Compression::Plain));
}

#[test]
fn slot_steps_through_occupied_indices() {
    let mut search = ArchiveSearch::start("archive/foo.{}.log".to_string(), 0);
    assert_eq!(search.on_slot(true), SlotStep::Advanced);
    assert_eq!(search.on_slot(true), SlotStep::Advanced);
    assert_eq!(search.on_slot(false), SlotStep::Use);
    assert_eq!(search.candidate(), "archive/foo.2.log");
    let mut last = ArchiveSearch::start("a.{}".to_string(), u32::MAX);
    assert_eq!(last.on_slot(true), SlotStep::Exhausted);
    assert_eq!(last.index(), u32::MAX);
}

#[test]
fn years_outside_four_digits_carry_a_sign() {
    assert_eq!(stamp_pattern("{yyyy-mm-dd}", date(12345, 1, 2)), "+12345-01-02");
    assert_eq!(stamp_pattern("{yyyy-mm}", date(-5, 3, 4)), "-0005-03");
}
