use apacheta::article::{sort_articles, TrackArticle};
use apacheta::geocode::{country_of, find_entry, geocoding_query, reverse_geocoding, ReverseGeocoding};
use apacheta::geometry::Coordinate;
use apacheta::instant::Instant;
use apacheta::track::{article_gpx_info, Segment, Track, TrackError, TrackLog, TrackPoint};

fn point(lon: i64, lat: i64, secs: Option<i64>) -> TrackPoint {
    TrackPoint {
        position: Coordinate { lon, lat },
        time: secs.map(|s| Instant { secs: s, nanos: 0 }),
    }
}

fn log_of(name: Option<&str>, points: Vec<TrackPoint>) -> TrackLog {
    TrackLog {
        tracks: vec![Track { name: name.map(|n| n.to_string()), segments: vec![Segment { points }] }],
    }
}

fn article(title: &str, secs: i64, nanos: u32) -> TrackArticle {
    TrackArticle {
        title: title.to_string(),
        underscored_title: title.to_string(),
        photos_number: 1,
        country: String::new(),
        start_time: Instant { secs, nanos },
        end_time: Instant { secs: secs + 60, nanos },
        coordinate_avg: Coordinate { lon: 0, lat: 0 },
    }
}

#[test]
fn summary_of_a_named_track() {
    let log = log_of(
        Some("Tour du lac"),
        vec![point(6_000_000_000, 45_000_000_000, Some(100)), point(6_000_000_004, 45_000_000_002, None), point(6_000_000_002, 45_000_000_004, Some(200))],
    );
    let (article, route) = article_gpx_info(&log, "logs/2024-06-01.gpx").unwrap();
    assert_eq!(article.title, "Tour du lac");
    assert_eq!(article.underscored_title, "Tour_du_lac");
    assert_eq!(article.photos_number, 0);
    assert_eq!(article.country, "");
    assert_eq!(article.start_time, Instant { secs: 100, nanos: 0 });
    assert_eq!(article.end_time, Instant { secs: 200, nanos: 0 });
    assert_eq!(article.coordinate_avg, Coordinate { lon: 6_000_000_002, lat: 45_000_000_002 });
    assert_eq!(
        route,
        vec![
            Coordinate { lon: 6_000_000_000, lat: 45_000_000_000 },
            Coordinate { lon: 6_000_000_004, lat: 45_000_000_002 },
            Coordinate { lon: 6_000_000_002, lat: 45_000_000_004 },
        ]
    );
}

#[test]
fn unnamed_track_takes_the_stem_of_its_file() {
    let log = log_of(None, vec![point(1, 2, Some(5))]);
    let (article, _) = article_gpx_info(&log, "logs/morning walk.gpx").unwrap();
    assert_eq!(article.title, "morning walk");
    assert_eq!(article.underscored_title, "morning_walk");
    assert_eq!(article.start_time, article.end_time);
}

#[test]
fn window_comes_from_first_and_last_point_not_from_extremes() {
    let log = log_of(Some("t"), vec![point(0, 0, Some(50)), point(0, 0, Some(10)), point(0, 0, Some(900)), point(0, 0, Some(60))]);
    let (article, _) = article_gpx_info(&log, "t.gpx").unwrap();
    assert_eq!(article.start_time.secs, 50);
    assert_eq!(article.end_time.secs, 60);
}

#[test]
fn only_the_first_segment_of_the_first_track_counts() {
    let log = TrackLog {
        tracks: vec![
            Track {
                name: Some("first".to_string()),
                segments: vec![
                    Segment { points: vec![point(1, 1, Some(1))] },
                    Segment { points: vec![point(9, 9, Some(9))] },
                ],
            },
            Track {
                name: Some("second".to_string()),
                segments: vec![Segment { points: vec![point(7, 7, Some(7))] }],
            },
        ],
    };
    let (article, route) = article_gpx_info(&log, "t.gpx").unwrap();
    assert_eq!(route, vec![Coordinate { lon: 1, lat: 1 }]);
    assert_eq!(article.end_time.secs, 1);
    assert_eq!(article.title, "first");
}

#[test]
fn log_without_track_is_an_error() {
    let log = TrackLog { tracks: Vec::new() };
    assert_eq!(article_gpx_info(&log, "t.gpx"), Err(TrackError::NoTrack));
}

#[test]
fn track_without_segment_is_an_error() {
    let log = TrackLog { tracks: vec![Track { name: Some("t".to_string()), segments: Vec::new() }] };
    assert_eq!(article_gpx_info(&log, "t.gpx"), Err(TrackError::NoSegment));
}

#[test]
fn segment_without_point_is_an_error() {
    let log = log_of(Some("t"), Vec::new());
    assert_eq!(article_gpx_info(&log, "t.gpx"), Err(TrackError::NoPoints));
}

#[test]
fn missing_time_at_either_end_is_an_error() {
    let first = log_of(Some("t"), vec![point(0, 0, None), point(0, 0, Some(5))]);
    assert_eq!(article_gpx_info(&first, "t.gpx"), Err(TrackError::MissingTime));
    let last = log_of(Some("t"), vec![point(0, 0, Some(5)), point(0, 0, None)]);
    assert_eq!(article_gpx_info(&last, "t.gpx"), Err(TrackError::MissingTime));
}

#[test]
fn track_that_ends_before_it_starts_is_an_error() {
    let log = log_of(Some("t"), vec![point(0, 0, Some(5)), point(0, 0, Some(4))]);
    assert_eq!(article_gpx_info(&log, "t.gpx"), Err(TrackError::TimeReversed));
    let mut by_nanos = log_of(Some("t"), vec![point(0, 0, Some(5)), point(0, 0, Some(5))]);
    by_nanos.tracks[0].segments[0].points[0].time = Some(Instant { secs: 5, nanos: 2 });
    by_nanos.tracks[0].segments[0].points[1].time = Some(Instant { secs: 5, nanos: 1 });
    assert_eq!(article_gpx_info(&by_nanos, "t.gpx"), Err(TrackError::TimeReversed));
}

#[test]
fn track_without_any_title_is_an_error() {
    let log = log_of(None, vec![point(0, 0, Some(5))]);
    assert_eq!(article_gpx_info(&log, "logs/"), Err(TrackError::NoTitle));
}

#[test]
fn title_that_names_no_directory_is_an_error() {
    for title in ["", ".", ".."] {
        let log = log_of(Some(title), vec![point(0, 0, Some(5))]);
        assert_eq!(article_gpx_info(&log, "t.gpx"), Err(TrackError::UnusableTitle));
    }
    let dots = log_of(Some("..."), vec![point(0, 0, Some(5))]);
    assert_eq!(article_gpx_info(&dots, "t.gpx").unwrap().0.underscored_title, "...");
    let blank = log_of(Some(" "), vec![point(0, 0, Some(5))]);
    assert_eq!(article_gpx_info(&blank, "t.gpx").unwrap().0.underscored_title, "_");
    let hidden = log_of(None, vec![point(0, 0, Some(5))]);
    assert_eq!(article_gpx_info(&hidden, "logs/..gpx"), Err(TrackError::UnusableTitle));
}

#[test]
fn defects_are_reported_in_order() {
    let log = log_of(None, vec![point(0, 0, None)]);
    assert_eq!(article_gpx_info(&log, ""), Err(TrackError::MissingTime));
}

#[test]
fn index_is_ordered_by_start() {
    let articles = vec![article("c", 300, 0), article("a", 100, 0), article("b", 200, 0)];
    let index = sort_articles(&articles);
    let titles: Vec<&str> = index.iter().map(|a| a.title.as_str()).collect();
    assert_eq!(titles, vec!["a", "b", "c"]);
}

#[test]
fn index_orders_by_nanoseconds_within_a_second() {
    let articles = vec![article("late", 100, 2), article("early", 100, 1), article("before", 99, 999_999_999)];
    let index = sort_articles(&articles);
    let titles: Vec<&str> = index.iter().map(|a| a.title.as_str()).collect();
    assert_eq!(titles, vec!["before", "early", "late"]);
}

#[test]
fn index_keeps_the_order_of_equal_starts() {
    let articles = vec![article("x", 5, 0), article("first", 1, 0), article("second", 1, 0), article("third", 1, 0), article("w", 0, 0)];
    let index = sort_articles(&articles);
    let titles: Vec<&str> = index.iter().map(|a| a.title.as_str()).collect();
    assert_eq!(titles, vec!["w", "first", "second", "third", "x"]);
    assert_eq!(sort_articles(&Vec::new()), Vec::<TrackArticle>::new());
}

#[test]
fn geocoding_request_asks_for_the_country_in_french() {
    let centroid = Coordinate { lon: 2_500_000_000, lat: 48_500_000_000 };
    let query = geocoding_query(&centroid);
    let expected: Vec<(String, String)> = [
        ("format", "json"),
        ("lat", "48.5"),
        ("lon", "2.5"),
        ("accept-language", "fr"),
        ("zoom", "0"),
    ]
    .iter()
    .map(|(k, v)| (k.to_string(), v.to_string()))
    .collect();
    assert_eq!(query, expected);
    assert_eq!(
        reverse_geocoding(&centroid),
        Some(
            "https://nominatim.openstreetmap.org/reverse.php?format=json&lat=48.5&lon=2.5&accept-language=fr&zoom=0"
                .to_string()
        )
    );
}

#[test]
fn geocoding_request_of_a_western_southern_place() {
    let centroid = Coordinate { lon: -70_250_000_000, lat: -33_000_000_001 };
    assert_eq!(
        reverse_geocoding(&centroid),
        Some(
            "https://nominatim.openstreetmap.org/reverse.php?format=json&lat=-33.000000001&lon=-70.25&accept-language=fr&zoom=0"
                .to_string()
        )
    );
}

#[test]
fn place_is_the_country_of_the_answer() {
    let answer = ReverseGeocoding {
        address: vec![
            ("country_code".to_string(), "fr".to_string()),
            ("country".to_string(), "France".to_string()),
            ("country".to_string(), "Shadow".to_string()),
        ],
    };
    assert_eq!(find_entry(&answer.address, "country"), Some("France".to_string()));
    assert_eq!(find_entry(&answer.address, "city"), None);
    assert_eq!(country_of(&Some(answer)), "France");
}

#[test]
fn place_is_empty_without_an_answer_or_a_country() {
    assert_eq!(country_of(&None), "");
    let answer = ReverseGeocoding { address: vec![("state".to_string(), "Savoie".to_string())] };
    assert_eq!(country_of(&Some(answer)), "");
    assert_eq!(country_of(&Some(ReverseGeocoding::default())), "");
}
