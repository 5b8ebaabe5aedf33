//! Track logs and what an article needs of them.

use vstd::prelude::*;
use crate::article::TrackArticle;
use crate::geometry::{centroid, centroid_of, Coordinate};
use crate::instant::Instant;
use crate::paths::{file_stem, path_file_stem};
use crate::slug::{is_directory_name, names_directory, slug_of, slugify};

verus! {

/// One recorded point of a track.
#[derive(Clone, Copy, Debug, PartialEq, Eq)]
pub struct TrackPoint {
    pub position: Coordinate,
    /// When the point was recorded, where the log says so.
    pub time: Option<Instant>,
}

/// A run of points recorded without interruption.
#[derive(Debug, PartialEq, Eq)]
pub struct Segment {
    pub points: Vec<TrackPoint>,
}

/// One track of a log.
#[derive(Debug, PartialEq, Eq)]
pub struct Track {
    /// The name that the track declares.
    pub name: Option<String>,
    pub segments: Vec<Segment>,
}

/// The content of a track log file, as far as the site uses it.
#[derive(Debug, PartialEq, Eq)]
pub struct TrackLog {
    pub tracks: Vec<Track>,
}

/// Why a track log yields no article.
#[derive(Clone, Copy, Debug, PartialEq, Eq, Structural)]
pub enum TrackError {
    /// The log holds no track.
    NoTrack,
    /// Its first track holds no segment.
    NoSegment,
    /// The first segment of its first track holds no point.
    NoPoints,
    /// The first or the last point carries no time.
    MissingTime,
    /// The last point was recorded before the first.
    TimeReversed,
    /// The track declares no name and the path of the log names no file to
    /// take one from.
    NoTitle,
    /// The slug of the title names no directory of its own.
    UnusableTitle,
}

/// The points that a log contributes: those of the first segment of its
/// first track.
pub open spec fn route_of(log: TrackLog) -> Seq<TrackPoint>
    recommends
        log.tracks@.len() > 0,
        log.tracks@[0].segments@.len() > 0,
{
    log.tracks@[0].segments@[0].points@
}

/// What is wrong with the log read from `gpx_file`, the first defect in the
/// order of `TrackError`, or `None` for a log that yields an article.
pub open spec fn defect_of(log: TrackLog, gpx_file: Seq<char>) -> Option<TrackError> {
    if log.tracks@.len() == 0 {
        Some(TrackError::NoTrack)
    } else if log.tracks@[0].segments@.len() == 0 {
        Some(TrackError::NoSegment)
    } else if route_of(log).len() == 0 {
        Some(TrackError::NoPoints)
    } else {
        match (route_of(log).first().time, route_of(log).last().time) {
            (Some(start), Some(end)) => {
                if !start.le(end) {
                    Some(TrackError::TimeReversed)
                } else if log.tracks@[0].name is None && file_stem(gpx_file) is None {
                    Some(TrackError::NoTitle)
                } else if !names_directory(slug_of(title_of(log, gpx_file))) {
                    Some(TrackError::UnusableTitle)
                } else {
                    None
                }
            },
            _ => Some(TrackError::MissingTime),
        }
    }
}

/// The title of the track: the name that the first track declares, else the
/// stem of the file that the log was read from.
pub open spec fn title_of(log: TrackLog, gpx_file: Seq<char>) -> Seq<char>
    recommends
        log.tracks@.len() > 0,
        log.tracks@[0].name is Some || file_stem(gpx_file) is Some,
{
    match log.tracks@[0].name {
        Some(name) => name@,
        None => file_stem(gpx_file).unwrap(),
    }
}

/// The positions of `points`, in their order.
pub open spec fn positions_of(points: Seq<TrackPoint>) -> Seq<Coordinate> {
    Seq::new(points.len(), |i: int| points[i].position)
}

/// Whether `article` and `route` are what the log read from `gpx_file`
/// yields before any photo is matched: the title and its slug, the times of
/// the first and the last point as they stand in the log, the positions of
/// all points in their order and their centroid, no photo and no place yet.
pub open spec fn describes(
    article: TrackArticle,
    route: Seq<Coordinate>,
    log: TrackLog,
    gpx_file: Seq<char>,
) -> bool {
    &&& article.title@ == title_of(log, gpx_file)
    &&& article.underscored_title@ == slug_of(article.title@)
    &&& article.photos_number == 0
    &&& article.country@ == Seq::<char>::empty()
    &&& Some(article.start_time) == route_of(log).first().time
    &&& Some(article.end_time) == route_of(log).last().time
    &&& article.coordinate_avg == centroid_of(route)
    &&& route == positions_of(route_of(log))
    &&& route.len() > 0
}

fn positions(points: &Vec<TrackPoint>) -> (r: Vec<Coordinate>)
    ensures
        r@ == positions_of(points@),
{
    let mut out: Vec<Coordinate> = Vec::new();
    let mut i: usize = 0;
    while i < points.len()
        invariant
            i <= points@.len(),
            out@ == positions_of(points@).take(i as int),
        decreases points@.len() - i,
    {
        out.push(points[i].position);
        i += 1;
        assert(out@ =~= positions_of(points@).take(i as int));
    }
    assert(out@ =~= positions_of(points@));
    out
}

/// Summarises the track log `log`, read from the file `gpx_file`: the
/// article as it stands before photos are matched, and the route. Only the
/// first segment of the first track is used. A log with a defect yields the
/// error that names it, and nothing else does.
pub fn article_gpx_info(log: &TrackLog, gpx_file: &str) -> (r: Result<
    (TrackArticle, Vec<Coordinate>),
    TrackError,
>)
    ensures
        match r {
            Ok((article, route)) => defect_of(*log, gpx_file@) is None && describes(
                article,
                route@,
                *log,
                gpx_file@,
            ) && article.wf(),
            Err(e) => defect_of(*log, gpx_file@) == Some(e),
        },
{
    if log.tracks.len() == 0 {
        return Err(TrackError::NoTrack);
    }
    let track = &log.tracks[0];
    if track.segments.len() == 0 {
        return Err(TrackError::NoSegment);
    }
    let points = &track.segments[0].points;
    if points.len() == 0 {
        return Err(TrackError::NoPoints);
    }
    let (start_time, end_time) = match (points[0].time, points[points.len() - 1].time) {
        (Some(start), Some(end)) => (start, end),
        _ => {
            return Err(TrackError::MissingTime);
        },
    };
    if !start_time.is_le(&end_time) {
        return Err(TrackError::TimeReversed);
    }
    let title = match &track.name {
        Some(name) => name.clone(),
        None => match path_file_stem(gpx_file) {
            Some(stem) => stem,
            None => {
                return Err(TrackError::NoTitle);
            },
        },
    };
    let underscored_title = slugify(title.as_str());
    if !is_directory_name(underscored_title.as_str()) {
        return Err(TrackError::UnusableTitle);
    }
    let route = positions(points);
    let coordinate_avg = centroid(&route);
    Ok(
        (
            TrackArticle {
                title,
                underscored_title,
                photos_number: 0,
                country: String::new(),
                start_time,
                end_time,
                coordinate_avg,
            },
            route,
        ),
    )
}

} // verus!
