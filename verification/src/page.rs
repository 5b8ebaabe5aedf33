//! What the renderer is handed for the page of one track.

use vstd::prelude::*;
use crate::geometry::Coordinate;
use crate::instant::Instant;

verus! {

/// The template of a track's page.
pub const TRACK_TEMPLATE: &'static str = "track_article.html";

/// The template of the index page.
pub const INDEX_TEMPLATE: &'static str = "index.html";

/// Where a track's page finds the static files of the site.
pub const TRACK_STATIC_DIR: &'static str = "../static";

/// Where the index page finds the static files of the site.
pub const INDEX_STATIC_DIR: &'static str = "static";

/// The name of the index page.
pub const INDEX_NAME: &'static str = "index";

/// The values that the page of one track shows.
#[derive(Debug, PartialEq, Eq)]
pub struct TrackPage {
    /// The route, point by point.
    pub track_coordinates: Vec<Coordinate>,
    pub article_title: String,
    /// The longitude of the centroid.
    pub lon_avg: i64,
    /// The latitude of the centroid.
    pub lat_avg: i64,
    /// The start of the track, written out.
    pub start_time: String,
    /// The end of the track, written out.
    pub end_time: String,
    pub static_dir: String,
    /// The names of the published photos, in match order.
    pub copied_photos: Vec<String>,
    /// The directory of the published photos, from the root of the site.
    pub photo_target_dir_relative: String,
    /// The place the track lies in; empty where it could not be resolved.
    pub country: String,
}

/// The text that shows the instant `secs` seconds and `nanos` nanoseconds
/// after the epoch as a date and time in UTC, or `None` where the calendar
/// does not reach that instant.
pub uninterp spec fn utc_display(secs: i64, nanos: u32) -> Option<Seq<char>>;

/// `chrono::DateTime::from_timestamp`, followed by the text that the date
/// and time displays as. The first call fails on an instant outside the
/// calendar's range or with too many nanoseconds; the contract claims only
/// that the outcome is fixed by the two numbers.
#[verifier::external_body]
fn utc_text(secs: i64, nanos: u32) -> (r: Option<String>)
    ensures
        match r {
            Some(text) => utc_display(secs, nanos) == Some(text@),
            None => utc_display(secs, nanos) is None,
        },
{
    match chrono::DateTime::from_timestamp(secs, nanos) {
        Some(found) => Some(found.to_string()),
        None => None,
    }
}

/// How a page writes `instant`: as its date and time, or not at all where
/// the calendar does not reach it.
pub open spec fn display_of(instant: Instant) -> Seq<char> {
    match utc_display(instant.secs, instant.nanos) {
        Some(text) => text,
        None => Seq::empty(),
    }
}

/// Writes `instant` for a page.
pub fn display_time(instant: &Instant) -> (r: String)
    ensures
        r@ == display_of(*instant),
{
    match utc_text(instant.secs, instant.nanos) {
        Some(text) => text,
        None => String::new(),
    }
}

} // verus!
