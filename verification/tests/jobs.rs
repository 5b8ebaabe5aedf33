use apacheta::catalog::Photo;
use apacheta::geocode::ReverseGeocoding;
use apacheta::geometry::Coordinate;
use apacheta::instant::Instant;
use apacheta::pipeline::{generate_article, is_slug_taken, Action, ArticleJob, Event, SkipReason, Stage, THUMBNAIL_SIDE};
use apacheta::run::{Run, SkippedTrack};
use apacheta::track::{Segment, Track, TrackError, TrackLog, TrackPoint};

const EIGHT: i64 = 1_717_228_800;
const NOON: i64 = EIGHT + 4 * 3600;

fn photo(path: &str, captured_at: i64) -> Photo {
    Photo { path: path.to_string(), captured_at }
}

fn morning(name: &str) -> TrackLog {
    let at = |secs: i64, lon: i64| TrackPoint {
        position: Coordinate { lon, lat: 45_000_000_000 },
        time: Some(Instant { secs, nanos: 0 }),
    };
    TrackLog {
        tracks: vec![Track {
            name: Some(name.to_string()),
            segments: vec![Segment { points: vec![at(EIGHT, 6_000_000_000), at(NOON, 6_000_000_002)] }],
        }],
    }
}

fn five_photos() -> Vec<Photo> {
    vec![
        photo("in/a.jpg", EIGHT - 1),
        photo("in/b.jpg", EIGHT),
        photo("in/c.jpg", EIGHT + 2 * 3600),
        photo("in/d.jpg", NOON),
        photo("in/e.jpg", NOON + 1),
    ]
}

fn start(name: &str, catalog: &Vec<Photo>) -> ArticleJob {
    generate_article(&morning(name), "logs/m.gpx", "out", &Vec::new(), catalog).unwrap()
}

fn france() -> Event {
    Event::Geocoded(ReverseGeocoding { address: vec![("country".to_string(), "France".to_string())] })
}

fn run_all(job: &mut ArticleJob, fail: &dyn Fn(Action) -> bool) -> Vec<Action> {
    let mut done = Vec::new();
    let mut due = job.pending();
    while let Some(action) = due {
        done.push(action);
        assert!(done.len() < 100);
        let event = if fail(action) {
            Event::Failed
        } else if action == Action::Geocode {
            france()
        } else {
            Event::Succeeded
        };
        due = job.step(event);
    }
    done
}

#[test]
fn morning_track_publishes_three_photos() {
    let mut job = start("Tour du lac", &five_photos());
    assert_eq!(job.stage, Stage::Directories);
    assert_eq!(job.pending(), Some(Action::CreateDirectories));
    let paths: Vec<&str> = job.photos.iter().map(|p| p.path.as_str()).collect();
    assert_eq!(paths, vec!["in/b.jpg", "in/c.jpg", "in/d.jpg"]);
    let done = run_all(&mut job, &|_| false);
    assert_eq!(
        done,
        vec![
            Action::CreateDirectories,
            Action::CopyPhoto(0),
            Action::MakeThumbnail(0),
            Action::StripMetadata(0),
            Action::CopyPhoto(1),
            Action::MakeThumbnail(1),
            Action::StripMetadata(1),
            Action::CopyPhoto(2),
            Action::MakeThumbnail(2),
            Action::StripMetadata(2),
            Action::Geocode,
            Action::RenderPage,
        ]
    );
    assert_eq!(job.stage, Stage::Assembled);
    assert_eq!(job.copied_photos(), vec!["1.jpg", "2.jpg", "3.jpg"]);
    let article = job.finished_article().unwrap();
    assert_eq!(article.title, "Tour du lac");
    assert_eq!(article.underscored_title, "Tour_du_lac");
    assert_eq!(article.photos_number, 3);
    assert_eq!(article.country, "France");
    assert_eq!(article.start_time, Instant { secs: EIGHT, nanos: 0 });
    assert_eq!(article.end_time, Instant { secs: NOON, nanos: 0 });
    assert_eq!(article.coordinate_avg, Coordinate { lon: 6_000_000_001, lat: 45_000_000_000 });
}

#[test]
fn job_names_the_files_of_each_photo() {
    let job = start("Tour du lac", &five_photos());
    assert_eq!(job.photo_directory(), "out/static/photos/Tour_du_lac");
    assert_eq!(job.thumbnail_directory(), "out/static/photos/Tour_du_lac/thumbnails");
    assert_eq!(job.source_file(1), Some("in/c.jpg".to_string()));
    assert_eq!(job.target_file(1), Some("out/static/photos/Tour_du_lac/2.jpg".to_string()));
    assert_eq!(
        job.thumbnail_file(2),
        Some("out/static/photos/Tour_du_lac/thumbnails/3.jpg".to_string())
    );
    assert_eq!(job.published_name(0), Some("1.jpg".to_string()));
    assert_eq!(job.source_file(3), None);
    assert_eq!(job.target_file(3), None);
    assert_eq!(job.thumbnail_file(3), None);
    assert_eq!(job.published_name(3), None);
    assert_eq!(job.page_file(), "out/tracks/Tour_du_lac.html");
    assert_eq!(THUMBNAIL_SIDE, 300);
}

#[test]
fn track_without_photos_is_skipped_whole() {
    let catalog = vec![photo("in/a.jpg", EIGHT - 1), photo("in/e.jpg", NOON + 1)];
    let started = generate_article(&morning("t"), "logs/m.gpx", "out", &Vec::new(), &catalog);
    assert_eq!(started, Err(SkipReason::NoPhotos));
    let mut run = Run::new();
    assert_eq!(run.begin(&morning("t"), "logs/m.gpx", "out", &catalog), Err(SkipReason::NoPhotos));
    assert!(run.claimed.is_empty());
    assert!(run.finish().is_empty());
    assert_eq!(
        run.skipped,
        vec![SkippedTrack { gpx_file: "logs/m.gpx".to_string(), reason: SkipReason::NoPhotos }]
    );
}

#[test]
fn defective_track_is_skipped_with_its_defect() {
    let log = TrackLog { tracks: Vec::new() };
    let started = generate_article(&log, "logs/m.gpx", "out", &Vec::new(), &five_photos());
    assert_eq!(started, Err(SkipReason::BadTrack(TrackError::NoTrack)));
}

#[test]
fn job_remembers_its_file() {
    let job = start("t", &five_photos());
    assert_eq!(job.gpx_file, "logs/m.gpx");
    assert_eq!(job.site_output, "out");
}

#[test]
fn failed_geocoding_leaves_the_place_empty() {
    let mut job = start("t", &five_photos());
    let done = run_all(&mut job, &|a| a == Action::Geocode);
    assert_eq!(&done[done.len() - 2..], &[Action::Geocode, Action::RenderPage]);
    assert_eq!(job.stage, Stage::Assembled);
    assert_eq!(job.page().country, "");
    let article = job.finished_article().unwrap();
    assert_eq!(article.country, "");
    assert_eq!(article.photos_number, 3);
    let mut run = Run::new();
    assert!(run.collect(&job));
    assert_eq!(run.finish().len(), 1);
}

#[test]
fn answer_without_country_leaves_the_place_empty() {
    let mut job = start("t", &five_photos());
    let mut due = job.pending();
    while due != Some(Action::Geocode) {
        due = job.step(Event::Succeeded);
    }
    let answer = ReverseGeocoding { address: vec![("state".to_string(), "Savoie".to_string())] };
    assert_eq!(job.step(Event::Geocoded(answer)), Some(Action::RenderPage));
    assert_eq!(job.finished_article(), None);
    assert_eq!(job.step(Event::Succeeded), None);
    assert_eq!(job.finished_article().unwrap().country, "");
}

#[test]
fn failed_copy_costs_one_photo_and_keeps_the_numbers() {
    let mut job = start("t", &five_photos());
    let done = run_all(&mut job, &|a| a == Action::CopyPhoto(1));
    assert_eq!(
        done,
        vec![
            Action::CreateDirectories,
            Action::CopyPhoto(0),
            Action::MakeThumbnail(0),
            Action::StripMetadata(0),
            Action::CopyPhoto(1),
            Action::CopyPhoto(2),
            Action::MakeThumbnail(2),
            Action::StripMetadata(2),
            Action::Geocode,
            Action::RenderPage,
        ]
    );
    assert_eq!(job.copied_photos(), vec!["1.jpg", "3.jpg"]);
    assert_eq!(job.published, vec![0, 2]);
    assert_eq!(job.finished_article().unwrap().photos_number, 2);
    assert_eq!(job.page().copied_photos, vec!["1.jpg", "3.jpg"]);
}

#[test]
fn failed_thumbnail_costs_one_photo_and_its_copy_is_discarded() {
    let mut job = start("t", &five_photos());
    let done = run_all(&mut job, &|a| a == Action::MakeThumbnail(0));
    assert_eq!(
        &done[1..5],
        &[Action::CopyPhoto(0), Action::MakeThumbnail(0), Action::DiscardPhoto(0), Action::CopyPhoto(1)]
    );
    assert_eq!(job.copied_photos(), vec!["2.jpg", "3.jpg"]);
    assert_eq!(job.stage, Stage::Assembled);
    assert_eq!(job.finished_article().unwrap().photos_number, 2);
}

#[test]
fn failed_stripping_costs_one_photo_and_its_copy_is_discarded() {
    let mut job = start("t", &five_photos());
    let done = run_all(&mut job, &|a| a == Action::StripMetadata(2));
    assert_eq!(
        &done[7..],
        &[
            Action::CopyPhoto(2),
            Action::MakeThumbnail(2),
            Action::StripMetadata(2),
            Action::DiscardPhoto(2),
            Action::Geocode,
            Action::RenderPage,
        ]
    );
    assert_eq!(job.copied_photos(), vec!["1.jpg", "2.jpg"]);
    assert_eq!(job.stage, Stage::Assembled);
    assert_eq!(job.finished_article().unwrap().photos_number, 2);
}

#[test]
fn photo_is_published_only_when_its_metadata_is_gone() {
    let mut job = start("t", &five_photos());
    assert_eq!(job.step(Event::Succeeded), Some(Action::CopyPhoto(0)));
    assert_eq!(job.step(Event::Succeeded), Some(Action::MakeThumbnail(0)));
    assert_eq!(job.step(Event::Succeeded), Some(Action::StripMetadata(0)));
    assert!(job.published.is_empty());
    assert_eq!(job.step(Event::Succeeded), Some(Action::CopyPhoto(1)));
    assert_eq!(job.published, vec![0]);
}

#[test]
fn failed_discarding_changes_nothing() {
    let mut job = start("t", &five_photos());
    let done = run_all(&mut job, &|a| matches!(a, Action::MakeThumbnail(1) | Action::DiscardPhoto(_)));
    assert!(done.contains(&Action::DiscardPhoto(1)));
    assert_eq!(job.copied_photos(), vec!["1.jpg", "3.jpg"]);
    assert_eq!(job.stage, Stage::Assembled);
}

#[test]
fn every_photo_failing_still_gives_an_article() {
    let mut job = start("t", &five_photos());
    run_all(&mut job, &|a| matches!(a, Action::CopyPhoto(_)));
    assert_eq!(job.stage, Stage::Assembled);
    assert_eq!(job.finished_article().unwrap().photos_number, 0);
    assert!(job.copied_photos().is_empty());
}

#[test]
fn missing_directory_costs_the_track() {
    let mut job = start("t", &five_photos());
    assert_eq!(job.step(Event::Failed), None);
    assert_eq!(job.stage, Stage::Skipped(SkipReason::NoDirectory));
    assert_eq!(job.finished_article(), None);
    assert_eq!(job.step(Event::Succeeded), None);
    assert_eq!(job.stage, Stage::Skipped(SkipReason::NoDirectory));
    let mut run = Run::new();
    assert!(!run.collect(&job));
    assert!(run.articles.is_empty());
    assert_eq!(
        run.skipped,
        vec![SkippedTrack { gpx_file: "logs/m.gpx".to_string(), reason: SkipReason::NoDirectory }]
    );
}

#[test]
fn missing_page_costs_the_track() {
    let mut job = start("t", &five_photos());
    let done = run_all(&mut job, &|a| a == Action::RenderPage);
    assert_eq!(done.last(), Some(&Action::RenderPage));
    assert_eq!(job.stage, Stage::Skipped(SkipReason::NotRendered));
    assert_eq!(job.finished_article(), None);
}

#[test]
fn assembled_job_asks_for_nothing_more() {
    let mut job = start("t", &five_photos());
    run_all(&mut job, &|_| false);
    let article = job.finished_article();
    assert_eq!(job.step(france()), None);
    assert_eq!(job.step(Event::Failed), None);
    assert_eq!(job.stage, Stage::Assembled);
    assert_eq!(job.finished_article(), article);
}

#[test]
fn photo_without_extension_is_passed_over() {
    let catalog = vec![photo("in/first", EIGHT + 1), photo("in/second.png", EIGHT + 2), photo("in/.third", EIGHT + 3)];
    let mut job = start("t", &catalog);
    let done = run_all(&mut job, &|_| false);
    assert_eq!(
        done,
        vec![
            Action::CreateDirectories,
            Action::CopyPhoto(1),
            Action::MakeThumbnail(1),
            Action::StripMetadata(1),
            Action::Geocode,
            Action::RenderPage,
        ]
    );
    assert_eq!(job.copied_photos(), vec!["2.png"]);
}

#[test]
fn page_shows_the_track() {
    let mut job = start("Tour du lac", &five_photos());
    let mut due = job.pending();
    while due != Some(Action::RenderPage) {
        due = job.step(if due == Some(Action::Geocode) { france() } else { Event::Succeeded });
    }
    let page = job.page();
    assert_eq!(page.country, "France");
    assert_eq!(page.article_title, "Tour du lac");
    assert_eq!(page.track_coordinates.len(), 2);
    assert_eq!(page.lon_avg, 6_000_000_001);
    assert_eq!(page.lat_avg, 45_000_000_000);
    assert_eq!(page.start_time, "2024-06-01 08:00:00 UTC");
    assert_eq!(page.end_time, "2024-06-01 12:00:00 UTC");
    assert_eq!(page.static_dir, "../static");
    assert_eq!(page.copied_photos, vec!["1.jpg", "2.jpg", "3.jpg"]);
    assert_eq!(page.photo_target_dir_relative, "static/photos/Tour_du_lac");
    assert_eq!(
        job.geocoding_url(),
        Some(
            "https://nominatim.openstreetmap.org/reverse.php?format=json&lat=45&lon=6.000000001&accept-language=fr&zoom=0"
                .to_string()
        )
    );
}

#[test]
fn second_track_with_the_same_slug_is_refused() {
    let catalog = five_photos();
    let mut run = Run::new();
    let first = run.begin(&morning("Tour du lac"), "logs/a.gpx", "out", &catalog);
    assert!(first.is_ok());
    assert_eq!(run.claimed, vec!["Tour_du_lac"]);
    let second = run.begin(&morning("Tour/du lac"), "logs/b.gpx", "out", &catalog);
    assert_eq!(second, Err(SkipReason::SlugTaken));
    assert_eq!(run.claimed, vec!["Tour_du_lac"]);
    let third = run.begin(&morning("Tour du col"), "logs/c.gpx", "out", &catalog);
    assert!(third.is_ok());
    assert_eq!(run.claimed, vec!["Tour_du_lac", "Tour_du_col"]);
}

#[test]
fn run_collects_each_article_once_and_orders_them() {
    let catalog = five_photos();
    let mut run = Run::new();
    let mut late = run.begin(&morning("late"), "logs/a.gpx", "out", &catalog).unwrap();
    run_all(&mut late, &|_| false);
    late.article.start_time = Instant { secs: EIGHT + 10, nanos: 0 };
    late.article.end_time = Instant { secs: NOON, nanos: 0 };
    let mut early = run.begin(&morning("early"), "logs/b.gpx", "out", &catalog).unwrap();
    run_all(&mut early, &|_| false);
    assert!(run.collect(&late));
    assert!(run.collect(&early));
    assert!(run.skipped.is_empty());
    assert!(!run.collect(&late));
    assert_eq!(
        run.skipped,
        vec![SkippedTrack { gpx_file: "logs/a.gpx".to_string(), reason: SkipReason::SlugTaken }]
    );
    let index = run.finish();
    let titles: Vec<&str> = index.iter().map(|a| a.title.as_str()).collect();
    assert_eq!(titles, vec!["early", "late"]);
}

#[test]
fn unfinished_job_is_not_collected() {
    let mut run = Run::new();
    let job = run.begin(&morning("t"), "logs/a.gpx", "out", &five_photos()).unwrap();
    assert!(!run.collect(&job));
    assert!(run.articles.is_empty() && run.skipped.is_empty());
}

#[test]
fn cancelled_run_starts_no_track() {
    let catalog = five_photos();
    let mut run = Run::new();
    let mut first = run.begin(&morning("first"), "logs/a.gpx", "out", &catalog).unwrap();
    run.cancel();
    assert_eq!(run.begin(&morning("second"), "logs/b.gpx", "out", &catalog), Err(SkipReason::Cancelled));
    assert_eq!(run.claimed, vec!["first"]);
    assert_eq!(
        run.skipped,
        vec![SkippedTrack { gpx_file: "logs/b.gpx".to_string(), reason: SkipReason::Cancelled }]
    );
    run_all(&mut first, &|_| false);
    assert!(run.collect(&first));
    assert_eq!(run.finish().len(), 1);
}

#[test]
fn new_run_is_empty() {
    let run = Run::new();
    assert!(run.claimed.is_empty() && run.articles.is_empty() && run.skipped.is_empty());
    assert!(!run.cancelled);
    assert!(run.finish().is_empty());
}

#[test]
fn same_inputs_give_the_same_course() {
    let mut one = start("t", &five_photos());
    let mut two = start("t", &five_photos());
    let first = run_all(&mut one, &|a| a == Action::CopyPhoto(0));
    let second = run_all(&mut two, &|a| a == Action::CopyPhoto(0));
    assert_eq!(first, second);
    assert_eq!(one, two);
    assert_eq!(one.copied_photos(), two.copied_photos());
}

#[test]
fn only_failure_counts_as_failure() {
    assert!(Event::Succeeded.is_ok());
    assert!(france().is_ok());
    assert!(!Event::Failed.is_ok());
}

#[test]
fn each_stage_has_its_action() {
    let mut job = start("t", &five_photos());
    job.next = 1;
    let due = |stage: Stage, job: &mut ArticleJob| {
        job.stage = stage;
        job.pending()
    };
    assert_eq!(due(Stage::Directories, &mut job), Some(Action::CreateDirectories));
    assert_eq!(due(Stage::Copying, &mut job), Some(Action::CopyPhoto(1)));
    assert_eq!(due(Stage::Thumbnailing, &mut job), Some(Action::MakeThumbnail(1)));
    assert_eq!(due(Stage::Stripping, &mut job), Some(Action::StripMetadata(1)));
    assert_eq!(due(Stage::Discarding, &mut job), Some(Action::DiscardPhoto(1)));
    assert_eq!(due(Stage::Geocoding, &mut job), Some(Action::Geocode));
    assert_eq!(due(Stage::Rendering, &mut job), Some(Action::RenderPage));
    assert_eq!(due(Stage::Assembled, &mut job), None);
    assert_eq!(due(Stage::Skipped(SkipReason::NotRendered), &mut job), None);
}

#[test]
fn slug_is_taken_only_by_the_same_text() {
    let claimed = vec!["a_b".to_string(), "c".to_string()];
    assert!(is_slug_taken(&claimed, "a_b"));
    assert!(is_slug_taken(&claimed, "c"));
    assert!(!is_slug_taken(&claimed, "a_"));
    assert!(!is_slug_taken(&Vec::new(), "a_b"));
}
