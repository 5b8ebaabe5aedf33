use apacheta::catalog::{capture_time, catalog_entry, parse_photos, Photo, PhotoSource};
use apacheta::correlate::find_photos;
use apacheta::instant::Instant;

const EIGHT: i64 = 1_717_228_800;
const NOON: i64 = EIGHT + 4 * 3600;

fn photo(path: &str, captured_at: i64) -> Photo {
    Photo { path: path.to_string(), captured_at }
}

fn at(secs: i64) -> Instant {
    Instant { secs, nanos: 0 }
}

fn source(path: &str, tag: Option<&str>) -> PhotoSource {
    PhotoSource { path: path.to_string(), capture_tag: tag.map(|t| t.to_string()) }
}

#[test]
fn capture_time_reads_the_colon_layout() {
    assert_eq!(capture_time("2024:06:01 08:00:00"), Some(EIGHT));
    assert_eq!(capture_time("1970:01:01 00:00:00"), Some(0));
    assert_eq!(capture_time("1969:12:31 23:59:59"), Some(-1));
}

#[test]
fn capture_time_refuses_other_layouts() {
    assert_eq!(capture_time("2024-06-01 08:00:00"), None);
    assert_eq!(capture_time("2024:06:01"), None);
    assert_eq!(capture_time("2024:13:01 08:00:00"), None);
    assert_eq!(capture_time("2024:06:01 24:00:00"), None);
    assert_eq!(capture_time(""), None);
    assert_eq!(capture_time("yesterday"), None);
}

#[test]
fn catalog_entry_needs_a_capture_time() {
    let path = "in/a.jpg".to_string();
    assert_eq!(catalog_entry(&path, Some(7)), Some(photo("in/a.jpg", 7)));
    assert_eq!(catalog_entry(&path, None), None);
}

#[test]
fn parse_photos_skips_files_without_a_readable_time() {
    let sources = vec![
        source("in/a.jpg", Some("2024:06:01 12:00:00")),
        source("in/notes.txt", None),
        source("in/b.jpg", Some("not a date")),
        source("in/c.jpg", Some("2024:06:01 08:00:00")),
    ];
    let photos = parse_photos(&sources);
    assert_eq!(photos, vec![photo("in/a.jpg", NOON), photo("in/c.jpg", EIGHT)]);
}

#[test]
fn parse_photos_of_nothing_is_empty() {
    assert_eq!(parse_photos(&Vec::new()), Vec::<Photo>::new());
}

#[test]
fn window_is_closed_at_both_ends() {
    let catalog = vec![
        photo("before.jpg", EIGHT - 1),
        photo("start.jpg", EIGHT),
        photo("end.jpg", NOON),
        photo("after.jpg", NOON + 1),
    ];
    let matched = find_photos(&catalog, at(EIGHT), at(NOON)).unwrap();
    assert_eq!(matched, vec![photo("start.jpg", EIGHT), photo("end.jpg", NOON)]);
}

#[test]
fn window_ignores_fractions_of_a_second() {
    let catalog = vec![photo("start.jpg", EIGHT), photo("end.jpg", NOON)];
    let start = Instant { secs: EIGHT, nanos: 999_999_999 };
    let end = Instant { secs: NOON, nanos: 0 };
    let matched = find_photos(&catalog, start, end).unwrap();
    assert_eq!(matched.len(), 2);
}

#[test]
fn morning_track_matches_three_of_five() {
    let sources = vec![
        source("in/e.jpg", Some("2024:06:01 12:00:01")),
        source("in/c.jpg", Some("2024:06:01 10:00:00")),
        source("in/a.jpg", Some("2024:06:01 07:59:59")),
        source("in/d.jpg", Some("2024:06:01 12:00:00")),
        source("in/b.jpg", Some("2024:06:01 08:00:00")),
    ];
    let catalog = parse_photos(&sources);
    let matched = find_photos(&catalog, at(EIGHT), at(NOON)).unwrap();
    let times: Vec<i64> = matched.iter().map(|p| p.captured_at).collect();
    assert_eq!(times, vec![EIGHT, EIGHT + 2 * 3600, NOON]);
    let paths: Vec<&str> = matched.iter().map(|p| p.path.as_str()).collect();
    assert_eq!(paths, vec!["in/b.jpg", "in/c.jpg", "in/d.jpg"]);
}

#[test]
fn no_photo_in_the_window_is_no_match() {
    let catalog = vec![photo("a.jpg", EIGHT - 1), photo("b.jpg", NOON + 1)];
    assert_eq!(find_photos(&catalog, at(EIGHT), at(NOON)), None);
    assert_eq!(find_photos(&Vec::new(), at(EIGHT), at(NOON)), None);
}

#[test]
fn reversed_window_matches_nothing() {
    let catalog = vec![photo("a.jpg", EIGHT + 5)];
    assert_eq!(find_photos(&catalog, at(NOON), at(EIGHT)), None);
}

#[test]
fn catalog_order_does_not_matter_without_ties() {
    let one = vec![photo("a.jpg", EIGHT + 3), photo("b.jpg", EIGHT + 1), photo("c.jpg", EIGHT + 2)];
    let other = vec![photo("c.jpg", EIGHT + 2), photo("a.jpg", EIGHT + 3), photo("b.jpg", EIGHT + 1)];
    let first = find_photos(&one, at(EIGHT), at(NOON)).unwrap();
    let second = find_photos(&other, at(EIGHT), at(NOON)).unwrap();
    assert_eq!(first, second);
    assert_eq!(
        first,
        vec![photo("b.jpg", EIGHT + 1), photo("c.jpg", EIGHT + 2), photo("a.jpg", EIGHT + 3)]
    );
}

#[test]
fn photos_of_one_second_keep_catalog_order() {
    let catalog = vec![
        photo("late.jpg", EIGHT + 9),
        photo("z.jpg", EIGHT + 5),
        photo("a.jpg", EIGHT + 5),
        photo("early.jpg", EIGHT + 1),
        photo("m.jpg", EIGHT + 5),
    ];
    let matched = find_photos(&catalog, at(EIGHT), at(NOON)).unwrap();
    let paths: Vec<&str> = matched.iter().map(|p| p.path.as_str()).collect();
    assert_eq!(paths, vec!["early.jpg", "z.jpg", "a.jpg", "m.jpg", "late.jpg"]);
}

#[test]
fn find_photos_leaves_the_catalog_alone() {
    let catalog = vec![photo("b.jpg", EIGHT + 2), photo("a.jpg", EIGHT + 1)];
    let copy = catalog.clone();
    let _ = find_photos(&catalog, at(EIGHT), at(NOON));
    assert_eq!(catalog, copy);
}
