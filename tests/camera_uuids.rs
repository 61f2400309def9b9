use camera_uuids::args::{parse_count, validate_args, ArgError};
use camera_uuids::category::{is_record_file, record_pattern, select_record_files, Category};
use camera_uuids::date::{record_file_name, CalendarDate};
use camera_uuids::identifier::{generate_batch, identifier_text, new_identifier};
use camera_uuids::pipeline::{
    collect_history, combined, find_collision, has_duplicates, prepare_record, RunError,
};
use camera_uuids::record::{parse_record, render_record};

fn is_canonical(s: &str) -> bool {
    let chars: Vec<char> = s.chars().collect();
    if chars.len() != 36 {
        return false;
    }
    chars.iter().enumerate().all(|(i, c)| {
        if i == 8 || i == 13 || i == 18 || i == 23 {
            *c == '-'
        } else {
            c.is_ascii_digit() || ('a'..='f').contains(c)
        }
    })
}

fn strings(v: &[&str]) -> Vec<String> {
    v.iter().map(|s| s.to_string()).collect()
}

fn date(y: i32, m: u32, d: u32) -> CalendarDate {
    CalendarDate::new(y, m, d).unwrap()
}

#[test]
fn generated_batch_has_count_canonical_identifiers() {
    for count in [1usize, 2, 5, 50] {
        let batch = generate_batch(count);
        assert_eq!(batch.len(), count);
        assert!(batch.iter().all(|s| is_canonical(s)));
    }
    assert!(generate_batch(0).is_empty());
}

#[test]
fn new_identifier_is_version_four_text() {
    let id = new_identifier();
    assert!(is_canonical(&id));
    assert_eq!(id.chars().nth(14), Some('4'));
}

#[test]
fn identifier_text_is_lowercase_hyphenated_big_endian() {
    assert_eq!(
        identifier_text(0x936DA01F9ABD4D9D80C702AF85C822A8),
        "936da01f-9abd-4d9d-80c7-02af85c822a8"
    );
    assert_eq!(identifier_text(0), "00000000-0000-0000-0000-000000000000");
    assert_eq!(identifier_text(u128::MAX), "ffffffff-ffff-ffff-ffff-ffffffffffff");
}

#[test]
fn duplicate_in_batch_fails_before_writing() {
    let mut batch = generate_batch(4);
    let copy = batch[1].clone();
    batch.push(copy);
    assert!(has_duplicates(&batch));
    let r = prepare_record(&batch, &Vec::new(), Category::Hyrax, date(2024, 5, 6));
    assert_eq!(r.err(), Some(RunError::DuplicateInBatch));
}

#[test]
fn scanner_reads_files_of_every_category() {
    let paths = strings(&[
        "cams/hyrax_2020_01_01.txt",
        "cams/bagheera_2020_01_01.txt",
        "cams/readme.md",
        "cams/lion_2020_01_01.txt",
    ]);
    let selected = select_record_files(&paths);
    assert_eq!(selected, strings(&["cams/hyrax_2020_01_01.txt", "cams/bagheera_2020_01_01.txt"]));
    let hyrax = b"11111111-1111-4111-8111-111111111111\n22222222-2222-4222-8222-222222222222\n33333333-3333-4333-8333-333333333333\n".to_vec();
    let bagheera = b"44444444-4444-4444-8444-444444444444\n55555555-5555-4555-8555-555555555555\n".to_vec();
    let history = collect_history(&vec![hyrax, bagheera]);
    assert_eq!(history.len(), 5);
    assert_eq!(history[0], "11111111-1111-4111-8111-111111111111");
    assert_eq!(history[4], "55555555-5555-4555-8555-555555555555");
}

#[test]
fn record_file_pattern() {
    assert_eq!(record_pattern(), "(?:hyrax|bagheera|hornet|bumblebee|coati).*txt");
    assert!(is_record_file("dir/coati_2021_02_03.txt"));
    assert!(is_record_file("hornet-old.txt.bak"));
    assert!(!is_record_file("dir/coati_2021_02_03.csv"));
    assert!(!is_record_file("dir/other.txt"));
    assert!(!is_record_file("hyrax\ntxt"));
}

#[test]
fn collision_with_history_fails_before_writing() {
    let batch = generate_batch(3);
    let mut history = strings(&["aaaaaaaa-aaaa-4aaa-8aaa-aaaaaaaaaaaa"]);
    history.push(batch[2].clone());
    assert!(find_collision(&batch, &history));
    let r = prepare_record(&batch, &history, Category::Coati, date(2024, 5, 6));
    assert_eq!(r.err(), Some(RunError::Collision));
}

#[test]
fn duplicate_within_history_counts_as_collision() {
    let batch = generate_batch(2);
    let history = strings(&["x", "y", "x"]);
    assert!(!has_duplicates(&batch));
    let r = prepare_record(&batch, &history, Category::Coati, date(2024, 5, 6));
    assert_eq!(r.err(), Some(RunError::Collision));
}

#[test]
fn end_to_end_five_hornet_identifiers() {
    let batch = generate_batch(5);
    let record = prepare_record(&batch, &Vec::new(), Category::Hornet, date(2026, 10, 18)).unwrap();
    assert_eq!(record.name, "hornet_2026_10_18.txt");
    let text = String::from_utf8(record.content.clone()).unwrap();
    let lines: Vec<&str> = text.lines().collect();
    assert_eq!(lines.len(), 5);
    assert!(text.ends_with('\n'));
    let mut sorted = lines.clone();
    sorted.sort();
    sorted.dedup();
    assert_eq!(sorted.len(), 5);
    assert!(lines.iter().all(|l| is_canonical(l)));
}

#[test]
fn written_record_reads_back_as_written() {
    let batch = generate_batch(7);
    let content = render_record(&batch);
    assert_eq!(content.len(), 7 * 37);
    assert_eq!(parse_record(&content), batch);
    assert_eq!(collect_history(&vec![content]), batch);
}

#[test]
fn record_lines_skip_empty_invalid_and_carriage_returns() {
    let content = b"abc\r\n\n\r\n\xff\xfe\ndef\nlast".to_vec();
    assert_eq!(parse_record(&content), strings(&["abc", "def", "last"]));
    assert!(parse_record(b"").is_empty());
    assert!(parse_record(b"\n\n").is_empty());
    assert_eq!(parse_record("é\n".as_bytes()), strings(&["é"]));
}

#[test]
fn combined_keeps_batch_then_history() {
    let c = combined(&strings(&["a", "b"]), &strings(&["c"]));
    assert_eq!(c, strings(&["a", "b", "c"]));
}

#[test]
fn arguments_are_rejected() {
    let ok = |c: &str, k: &str| strings(&["generate_uuids", c, k, "dir"]);
    assert_eq!(validate_args(&ok("abc", "hyrax"), true).err(), Some(ArgError::InvalidCount));
    assert_eq!(validate_args(&ok("-3", "hyrax"), true).err(), Some(ArgError::InvalidCount));
    assert_eq!(validate_args(&ok("0", "hyrax"), true).err(), Some(ArgError::InvalidCount));
    assert_eq!(validate_args(&ok("3", "lion"), true).err(), Some(ArgError::UnknownCategory));
    assert_eq!(validate_args(&ok("3", "hyrax"), false).err(), Some(ArgError::MissingDirectory));
    assert_eq!(
        validate_args(&strings(&["generate_uuids", "3", "hyrax"]), true).err(),
        Some(ArgError::Usage)
    );
    assert_eq!(
        validate_args(&strings(&["generate_uuids", "3", "hyrax", "d", "e"]), true).err(),
        Some(ArgError::Usage)
    );
}

#[test]
fn arguments_are_accepted() {
    let args = strings(&["generate_uuids", "12", "bumblebee", "cams"]);
    let inv = validate_args(&args, true).unwrap();
    assert_eq!(inv.count, 12);
    assert_eq!(inv.category, Category::Bumblebee);
    assert_eq!(inv.directory, "cams");
}

#[test]
fn count_parsing() {
    assert_eq!(parse_count("5"), Some(5));
    assert_eq!(parse_count("+7"), Some(7));
    assert_eq!(parse_count("007"), Some(7));
    assert_eq!(parse_count(""), None);
    assert_eq!(parse_count("+"), None);
    assert_eq!(parse_count("0"), None);
    assert_eq!(parse_count("1.5"), None);
    assert_eq!(parse_count(" 5"), None);
    assert_eq!(parse_count("18446744073709551615"), Some(usize::MAX));
    assert_eq!(parse_count("18446744073709551616"), None);
    assert_eq!(parse_count("99999999999999999999x"), None);
}

#[test]
fn category_names() {
    for (name, c) in [
        ("hyrax", Category::Hyrax),
        ("bagheera", Category::Bagheera),
        ("hornet", Category::Hornet),
        ("bumblebee", Category::Bumblebee),
        ("coati", Category::Coati),
    ] {
        assert_eq!(Category::from_name(name), Some(c));
        assert_eq!(c.name(), name);
    }
    assert_eq!(Category::from_name("Hyrax"), None);
    assert_eq!(Category::from_name(""), None);
}

#[test]
fn dates_and_file_names() {
    assert!(CalendarDate::new(2024, 2, 29).is_some());
    assert!(CalendarDate::new(2023, 2, 29).is_none());
    assert!(CalendarDate::new(1900, 2, 29).is_none());
    assert!(CalendarDate::new(2000, 2, 29).is_some());
    assert!(CalendarDate::new(2024, 4, 31).is_none());
    assert!(CalendarDate::new(2024, 13, 1).is_none());
    assert!(CalendarDate::new(-1, 1, 1).is_none());
    assert!(CalendarDate::new(10000, 1, 1).is_none());
    assert_eq!(record_file_name(Category::Coati, date(5, 1, 2)), "coati_0005_01_02.txt");
    assert_eq!(record_file_name(Category::Hyrax, date(2020, 12, 31)), "hyrax_2020_12_31.txt");
    let today = CalendarDate::today().unwrap();
    assert!(today.year >= 2020);
}
