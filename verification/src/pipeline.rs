//! The work on one track, from its matched photos to its article.
//!
//! The pipeline decides and the caller acts: a job names the one action that
//! is due, the caller performs it and reports how it went, and the job moves
//! on. Materialising the photos takes the stages from `Directories` to
//! `Discarding`; then the place is looked up, the page is rendered with it,
//! and the article is assembled. A photo is published when it has been
//! copied, has its thumbnail and has lost its metadata; what goes wrong on
//! the way costs that photo, whose copy is then discarded. A failed lookup
//! costs the name of the place. Only a missing directory or page costs the
//! track.

use vstd::prelude::*;
use vstd::string::*;
use crate::article::TrackArticle;
use crate::catalog::Photo;
use crate::correlate::{any_in_window, find_photos, is_matched_set, lemma_matched_set_unique};
use crate::geocode::{
    country_of, place_of, query_of, reverse_geocoding, url_with_params, ReverseGeocoding, GEOCODER,
};
use crate::geometry::Coordinate;
use crate::page::{display_of, display_time, TrackPage, TRACK_STATIC_DIR};
use crate::paths::{
    extension, file_in, file_path, page_path, page_path_of, path_extension, photo_dir,
    photo_dir_of, photo_name, photo_name_of, relative_photo_dir, relative_photo_dir_of,
    thumbnail_dir, thumbnail_dir_of, tracks_dir, tracks_dir_of,
};
use crate::slug::slug_of;
use crate::text::same_text;
use crate::track::{
    article_gpx_info, defect_of, describes, route_of, title_of, TrackError, TrackLog,
};

verus! {

/// The side of the square that a thumbnail fits in, in pixels.
pub const THUMBNAIL_SIDE: u32 = 300;

/// Why a track was given up.
#[derive(Clone, Copy, Debug, PartialEq, Eq, Structural)]
pub enum SkipReason {
    /// The track log has a defect.
    BadTrack(TrackError),
    /// No photo of the catalog was taken during the track.
    NoPhotos,
    /// An earlier track of the run has the same slug and owns its output.
    SlugTaken,
    /// The directories for the photos could not be made.
    NoDirectory,
    /// The page could not be rendered.
    NotRendered,
    /// The run was called off before the track's turn.
    Cancelled,
}

/// Where the work on a track stands.
#[derive(Clone, Copy, Debug, PartialEq, Eq, Structural)]
pub enum Stage {
    /// The directories for the photos are to be made.
    Directories,
    /// The photo at `next` is to be copied.
    Copying,
    /// The copy of the photo at `next` is to get its thumbnail.
    Thumbnailing,
    /// The copy of the photo at `next` is to lose its metadata.
    Stripping,
    /// The copy of the photo at `next` is to be removed: it has no thumbnail
    /// or still carries its metadata.
    Discarding,
    /// The place of the centroid is to be looked up.
    Geocoding,
    /// The page is to be rendered.
    Rendering,
    /// The article is complete.
    Assembled,
    /// The track was given up.
    Skipped(SkipReason),
}

/// What the caller is to do next. A number is the position of a photo in
/// the matched set, from zero.
#[derive(Clone, Copy, Debug, PartialEq, Eq, Structural)]
pub enum Action {
    CreateDirectories,
    CopyPhoto(usize),
    MakeThumbnail(usize),
    StripMetadata(usize),
    DiscardPhoto(usize),
    Geocode,
    RenderPage,
}

/// How the action that was due went.
#[derive(Debug, PartialEq, Eq)]
pub enum Event {
    Succeeded,
    Failed,
    /// The geocoder answered.
    Geocoded(ReverseGeocoding),
}

impl Event {
    /// Whether the action did what it was to do.
    pub open spec fn ok(self) -> bool {
        !(self is Failed)
    }

    /// The geocoder's answer, where the event brings one.
    pub open spec fn answer(self) -> Option<ReverseGeocoding> {
        match self {
            Event::Geocoded(found) => Some(found),
            _ => None,
        }
    }

    /// Decides `ok`.
    pub fn is_ok(&self) -> (r: bool)
        ensures
            r == self.ok(),
    {
        match self {
            Event::Failed => false,
            _ => true,
        }
    }
}

/// Whether the photo at `position` can be published: it exists and its file
/// has an extension to publish it under.
pub open spec fn publishable(photos: Seq<Photo>, position: int) -> bool {
    0 <= position < photos.len() && extension(photos[position].path@) is Some
}

/// The first position from `from` on whose photo can be published, or the
/// number of photos where there is none.
pub open spec fn next_publishable(photos: Seq<Photo>, from: int) -> int
    decreases photos.len() - from,
{
    if from < 0 || from >= photos.len() {
        photos.len() as int
    } else if publishable(photos, from) {
        from
    } else {
        next_publishable(photos, from + 1)
    }
}

/// `next_publishable` skips only photos that cannot be published.
pub proof fn lemma_next_publishable(photos: Seq<Photo>, from: int)
    requires
        0 <= from,
    ensures
        from <= next_publishable(photos, from) || photos.len() <= from,
        next_publishable(photos, from) <= photos.len(),
        next_publishable(photos, from) < photos.len() ==> publishable(
            photos,
            next_publishable(photos, from),
        ),
        forall|p: int| from <= p < next_publishable(photos, from) ==> !publishable(photos, p),
    decreases photos.len() - from,
{
    if from < photos.len() && !publishable(photos, from) {
        lemma_next_publishable(photos, from + 1);
    }
}

/// The name under which the photo at `position` is published: its number in
/// the matched set, counted from one, and its own extension. The number
/// does not depend on what became of the photos before it.
pub open spec fn name_at(photos: Seq<Photo>, position: int) -> Option<Seq<char>> {
    if publishable(photos, position) {
        Some(photo_name_of(position as nat, extension(photos[position].path@).unwrap()))
    } else {
        None
    }
}

/// The names of the photos at the positions `published`, in that order.
pub open spec fn names_of(photos: Seq<Photo>, published: Seq<usize>) -> Seq<Seq<char>>
    decreases published.len(),
{
    if published.len() == 0 {
        Seq::empty()
    } else {
        let rest = names_of(photos, published.drop_last());
        match name_at(photos, published.last() as int) {
            Some(name) => rest.push(name),
            None => rest,
        }
    }
}

/// Where every position of `published` can be published, each gets a name,
/// and the name is that of its position: a photo that failed leaves a gap
/// in the numbers and moves no other photo.
pub proof fn lemma_names_follow_positions(photos: Seq<Photo>, published: Seq<usize>)
    requires
        forall|i: int| 0 <= i < published.len() ==> publishable(photos, #[trigger] published[i] as int),
    ensures
        names_of(photos, published).len() == published.len(),
        forall|i: int|
            0 <= i < published.len() ==> Some(#[trigger] names_of(photos, published)[i]) == name_at(
                photos,
                published[i] as int,
            ),
    decreases published.len(),
{
    if published.len() > 0 {
        let rest = published.drop_last();
        assert forall|i: int| 0 <= i < rest.len() implies publishable(
            photos,
            #[trigger] rest[i] as int,
        ) by {
            assert(rest[i] == published[i]);
        }
        lemma_names_follow_positions(photos, rest);
        assert(publishable(photos, published[published.len() - 1] as int));
        assert forall|i: int| 0 <= i < published.len() implies Some(
            #[trigger] names_of(photos, published)[i],
        ) == name_at(photos, published[i] as int) by {
            if i < rest.len() {
                assert(names_of(photos, published)[i] == names_of(photos, rest)[i]);
                assert(rest[i] == published[i]);
            }
        }
    }
}

/// The action that is due at `stage` with the photo at `next` in hand.
pub open spec fn pending_of(stage: Stage, next: usize) -> Option<Action> {
    match stage {
        Stage::Directories => Some(Action::CreateDirectories),
        Stage::Copying => Some(Action::CopyPhoto(next)),
        Stage::Thumbnailing => Some(Action::MakeThumbnail(next)),
        Stage::Stripping => Some(Action::StripMetadata(next)),
        Stage::Discarding => Some(Action::DiscardPhoto(next)),
        Stage::Geocoding => Some(Action::Geocode),
        Stage::Rendering => Some(Action::RenderPage),
        Stage::Assembled => None,
        Stage::Skipped(_) => None,
    }
}

/// Whether a track with the slug `slug` would write where a track of
/// `claimed` already writes.
pub open spec fn slug_taken(claimed: Seq<String>, slug: Seq<char>) -> bool {
    exists|i: int| 0 <= i < claimed.len() && (#[trigger] claimed[i])@ == slug
}

/// Why no work starts on the log read from `gpx_file`, or `None` where it
/// does: a defect of the log; else no photo taken between its first and its
/// last point; else a slug that is taken.
pub open spec fn start_failure(
    log: TrackLog,
    gpx_file: Seq<char>,
    claimed: Seq<String>,
    catalog: Seq<Photo>,
) -> Option<SkipReason> {
    match defect_of(log, gpx_file) {
        Some(defect) => Some(SkipReason::BadTrack(defect)),
        None => {
            if !any_in_window(
                catalog,
                route_of(log).first().time.unwrap(),
                route_of(log).last().time.unwrap(),
            ) {
                Some(SkipReason::NoPhotos)
            } else if slug_taken(claimed, slug_of(title_of(log, gpx_file))) {
                Some(SkipReason::SlugTaken)
            } else {
                None
            }
        },
    }
}

/// The work on one track.
#[derive(Debug, PartialEq, Eq)]
pub struct ArticleJob {
    /// The file that the track log was read from.
    pub gpx_file: String,
    pub stage: Stage,
    /// The position of the photo in hand; the number of photos once all are
    /// done.
    pub next: usize,
    /// The positions of the photos published so far.
    pub published: Vec<usize>,
    /// The article; its place and its number of photos are filled in when
    /// the place has been looked up.
    pub article: TrackArticle,
    pub route: Vec<Coordinate>,
    /// The matched set.
    pub photos: Vec<Photo>,
    /// The root of the site.
    pub site_output: String,
}

impl ArticleJob {
    /// The position behind the photo in hand.
    pub open spec fn after_photo(self) -> int {
        if self.next < self.photos@.len() {
            self.next + 1
        } else {
            self.photos@.len() as int
        }
    }

    /// The stage when the photos from `from` on are still to do: copying
    /// where one of them can be published, else the lookup of the place.
    pub open spec fn stage_from(self, from: int) -> Stage {
        if next_publishable(self.photos@, from) < self.photos@.len() {
            Stage::Copying
        } else {
            Stage::Geocoding
        }
    }

    /// The stage that follows when the action that was due went well
    /// (`ok`) or not. A failed copy passes over the photo; after a failed
    /// thumbnail or a failed stripping its copy is discarded first. How the
    /// discarding and the lookup went changes nothing in the course.
    pub open spec fn stage_after(self, ok: bool) -> Stage {
        match self.stage {
            Stage::Directories => if ok {
                self.stage_from(0)
            } else {
                Stage::Skipped(SkipReason::NoDirectory)
            },
            Stage::Copying => if ok {
                Stage::Thumbnailing
            } else {
                self.stage_from(self.after_photo())
            },
            Stage::Thumbnailing => if ok {
                Stage::Stripping
            } else {
                Stage::Discarding
            },
            Stage::Stripping => if ok {
                self.stage_from(self.after_photo())
            } else {
                Stage::Discarding
            },
            Stage::Discarding => self.stage_from(self.after_photo()),
            Stage::Geocoding => Stage::Rendering,
            Stage::Rendering => if ok {
                Stage::Assembled
            } else {
                Stage::Skipped(SkipReason::NotRendered)
            },
            Stage::Assembled => Stage::Assembled,
            Stage::Skipped(reason) => Stage::Skipped(reason),
        }
    }

    /// The photo in hand after the action that was due.
    pub open spec fn next_after(self, ok: bool) -> int {
        match self.stage {
            Stage::Directories => if ok {
                next_publishable(self.photos@, 0)
            } else {
                self.next as int
            },
            Stage::Copying => if ok {
                self.next as int
            } else {
                next_publishable(self.photos@, self.after_photo())
            },
            Stage::Stripping => if ok {
                next_publishable(self.photos@, self.after_photo())
            } else {
                self.next as int
            },
            Stage::Discarding => next_publishable(self.photos@, self.after_photo()),
            _ => self.next as int,
        }
    }

    /// The published positions after the action that was due: a photo is
    /// published when its copy has lost its metadata, the last of the three
    /// things that are done to it.
    pub open spec fn published_after(self, ok: bool) -> Seq<usize> {
        if self.stage is Stripping && ok {
            self.published@.push(self.next)
        } else {
            self.published@
        }
    }

    /// The place of the article after `event`: the geocoder's country, or
    /// none where the lookup failed.
    pub open spec fn country_after(self, event: Event) -> Seq<char> {
        if self.stage is Geocoding {
            place_of(event.answer())
        } else {
            self.article.country@
        }
    }

    /// The article's number of photos after the action that was due.
    pub open spec fn photos_number_after(self) -> usize {
        if self.stage is Geocoding {
            self.published@.len() as usize
        } else {
            self.article.photos_number
        }
    }

    /// Whether the job is well formed: there are photos and a route, the
    /// photo in hand can be published, and the published positions rise,
    /// can each be published and lie before the photo in hand.
    pub open spec fn wf(self) -> bool {
        &&& self.article.wf()
        &&& self.photos@.len() > 0
        &&& self.route@.len() > 0
        &&& self.next <= self.photos@.len()
        &&& (self.stage is Copying || self.stage is Thumbnailing || self.stage is Stripping
            || self.stage is Discarding) ==> publishable(self.photos@, self.next as int)
        &&& self.stage is Directories ==> self.next == 0 && self.published@.len() == 0
        &&& (self.stage is Geocoding || self.stage is Rendering || self.stage is Assembled)
            ==> self.next == self.photos@.len()
        &&& forall|i: int, j: int|
            0 <= i < j < self.published@.len() ==> self.published@[i] < self.published@[j]
        &&& forall|i: int|
            0 <= i < self.published@.len() ==> publishable(
                self.photos@,
                (#[trigger] self.published@[i]) as int,
            ) && self.published@[i] < self.next
        &&& (self.stage is Rendering || self.stage is Assembled) ==> self.article.photos_number
            == self.published@.len()
    }

    /// Whether `other` is the same job but for its course: the same track,
    /// photos and site.
    pub open spec fn same_subject(self, other: ArticleJob) -> bool {
        &&& self.gpx_file == other.gpx_file
        &&& self.article.title == other.article.title
        &&& self.article.underscored_title == other.article.underscored_title
        &&& self.article.start_time == other.article.start_time
        &&& self.article.end_time == other.article.end_time
        &&& self.article.coordinate_avg == other.article.coordinate_avg
        &&& self.route == other.route
        &&& self.photos == other.photos
        &&& self.site_output == other.site_output
    }

    /// Names the action that is due, if any.
    pub fn pending(&self) -> (action: Option<Action>)
        ensures
            action == pending_of(self.stage, self.next),
    {
        match self.stage {
            Stage::Directories => Some(Action::CreateDirectories),
            Stage::Copying => Some(Action::CopyPhoto(self.next)),
            Stage::Thumbnailing => Some(Action::MakeThumbnail(self.next)),
            Stage::Stripping => Some(Action::StripMetadata(self.next)),
            Stage::Discarding => Some(Action::DiscardPhoto(self.next)),
            Stage::Geocoding => Some(Action::Geocode),
            Stage::Rendering => Some(Action::RenderPage),
            Stage::Assembled => None,
            Stage::Skipped(_) => None,
        }
    }

    fn first_publishable(&self, from: usize) -> (r: usize)
        ensures
            r == next_publishable(self.photos@, from as int),
            r <= self.photos@.len(),
    {
        let mut at: usize = from;
        while at < self.photos.len()
            invariant
                next_publishable(self.photos@, from as int) == next_publishable(
                    self.photos@,
                    at as int,
                ),
            decreases self.photos@.len() - at,
        {
            if path_extension(self.photos[at].path.as_str()).is_some() {
                return at;
            }
            at += 1;
        }
        self.photos.len()
    }

    /// Takes note of how the action that was due went, moves on, and names
    /// the action that is due now. A job that is assembled or skipped stays
    /// as it is and asks for nothing.
    pub fn step(&mut self, event: Event) -> (action: Option<Action>)
        ensures
            final(self).stage == old(self).stage_after(event.ok()),
            final(self).next == old(self).next_after(event.ok()),
            final(self).published@ == old(self).published_after(event.ok()),
            final(self).article.country@ == old(self).country_after(event),
            final(self).article.photos_number == old(self).photos_number_after(),
            final(self).same_subject(*old(self)),
            action == pending_of(final(self).stage, final(self).next),
            old(self).wf() ==> final(self).wf(),
    {
        let ok = event.is_ok();
        let after: usize = if self.next < self.photos.len() {
            self.next + 1
        } else {
            self.photos.len()
        };
        proof {
            lemma_next_publishable(self.photos@, 0);
            lemma_next_publishable(self.photos@, after as int);
        }
        match self.stage {
            Stage::Directories => {
                if ok {
                    let at = self.first_publishable(0);
                    self.next = at;
                    self.stage = if at < self.photos.len() {
                        Stage::Copying
                    } else {
                        Stage::Geocoding
                    };
                } else {
                    self.stage = Stage::Skipped(SkipReason::NoDirectory);
                }
            },
            Stage::Copying => {
                if ok {
                    self.stage = Stage::Thumbnailing;
                } else {
                    let at = self.first_publishable(after);
                    self.next = at;
                    self.stage = if at < self.photos.len() {
                        Stage::Copying
                    } else {
                        Stage::Geocoding
                    };
                }
            },
            Stage::Thumbnailing => {
                self.stage = if ok {
                    Stage::Stripping
                } else {
                    Stage::Discarding
                };
            },
            Stage::Stripping => {
                if ok {
                    self.published.push(self.next);
                    let at = self.first_publishable(after);
                    self.next = at;
                    self.stage = if at < self.photos.len() {
                        Stage::Copying
                    } else {
                        Stage::Geocoding
                    };
                } else {
                    self.stage = Stage::Discarding;
                }
            },
            Stage::Discarding => {
                let at = self.first_publishable(after);
                self.next = at;
                self.stage = if at < self.photos.len() {
                    Stage::Copying
                } else {
                    Stage::Geocoding
                };
            },
            Stage::Geocoding => {
                let place = match event {
                    Event::Geocoded(found) => country_of(&Some(found)),
                    _ => String::new(),
                };
                self.article.country = place;
                self.article.photos_number = self.published.len();
                self.stage = Stage::Rendering;
            },
            Stage::Rendering => {
                if ok {
                    self.stage = Stage::Assembled;
                } else {
                    self.stage = Stage::Skipped(SkipReason::NotRendered);
                }
            },
            Stage::Assembled => {},
            Stage::Skipped(_) => {},
        }
        self.pending()
    }

    /// The directory that receives the photos of the track.
    pub fn photo_directory(&self) -> (r: String)
        ensures
            r@ == photo_dir_of(self.site_output@, self.article.underscored_title@),
    {
        photo_dir(self.site_output.as_str(), self.article.underscored_title.as_str())
    }

    /// The directory that receives the thumbnails.
    pub fn thumbnail_directory(&self) -> (r: String)
        ensures
            r@ == thumbnail_dir_of(
                photo_dir_of(self.site_output@, self.article.underscored_title@),
            ),
    {
        thumbnail_dir(self.photo_directory().as_str())
    }

    /// The name under which the photo at `position` is published, where it
    /// can be.
    pub fn published_name(&self, position: usize) -> (r: Option<String>)
        ensures
            match r {
                Some(name) => name_at(self.photos@, position as int) == Some(name@),
                None => name_at(self.photos@, position as int) is None,
            },
    {
        if position < self.photos.len() {
            match path_extension(self.photos[position].path.as_str()) {
                Some(ext) => Some(photo_name(position, ext.as_str())),
                None => None,
            }
        } else {
            None
        }
    }

    /// The file that the photo at `position` is copied from, where there is
    /// such a photo.
    pub fn source_file(&self, position: usize) -> (r: Option<String>)
        ensures
            match r {
                Some(path) => position < self.photos@.len() && path == self.photos@[position as int].path,
                None => position >= self.photos@.len(),
            },
    {
        if position < self.photos.len() {
            Some(self.photos[position].path.clone())
        } else {
            None
        }
    }

    /// The file that the photo at `position` is copied to, and later
    /// stripped in: its published name in the photo directory.
    pub fn target_file(&self, position: usize) -> (r: Option<String>)
        ensures
            match r {
                Some(path) => name_at(self.photos@, position as int) is Some && path@ == file_in(
                    photo_dir_of(self.site_output@, self.article.underscored_title@),
                    name_at(self.photos@, position as int).unwrap(),
                ),
                None => name_at(self.photos@, position as int) is None,
            },
    {
        match self.published_name(position) {
            Some(name) => Some(file_path(self.photo_directory().as_str(), name.as_str())),
            None => None,
        }
    }

    /// The file that receives the thumbnail of the photo at `position`: its
    /// published name in the thumbnail directory.
    pub fn thumbnail_file(&self, position: usize) -> (r: Option<String>)
        ensures
            match r {
                Some(path) => name_at(self.photos@, position as int) is Some && path@ == file_in(
                    thumbnail_dir_of(
                        photo_dir_of(self.site_output@, self.article.underscored_title@),
                    ),
                    name_at(self.photos@, position as int).unwrap(),
                ),
                None => name_at(self.photos@, position as int) is None,
            },
    {
        match self.published_name(position) {
            Some(name) => Some(file_path(self.thumbnail_directory().as_str(), name.as_str())),
            None => None,
        }
    }

    /// The names of the photos published so far, in match order.
    pub fn copied_photos(&self) -> (r: Vec<String>)
        ensures
            r.deep_view() == names_of(self.photos@, self.published@),
    {
        let mut names: Vec<String> = Vec::new();
        let mut i: usize = 0;
        while i < self.published.len()
            invariant
                i <= self.published@.len(),
                names.deep_view() == names_of(self.photos@, self.published@.take(i as int)),
            decreases self.published@.len() - i,
        {
            proof {
                assert(self.published@.take(i + 1).drop_last() =~= self.published@.take(i as int));
            }
            let ghost before = names.deep_view();
            match self.published_name(self.published[i]) {
                Some(name) => {
                    names.push(name);
                    assert(names.deep_view() =~= before.push(name@));
                },
                None => {},
            }
            i += 1;
        }
        assert(self.published@.take(self.published@.len() as int) =~= self.published@);
        names
    }

    /// The file that receives the page of the track: the slug, as a page, in
    /// the directory of the tracks.
    pub fn page_file(&self) -> (r: String)
        ensures
            r@ == page_path_of(tracks_dir_of(self.site_output@), self.article.underscored_title@),
    {
        page_path(
            tracks_dir(self.site_output.as_str()).as_str(),
            self.article.underscored_title.as_str(),
        )
    }

    /// The values that the page of the track shows.
    pub fn page(&self) -> (r: TrackPage)
        ensures
            r.track_coordinates@ == self.route@,
            r.article_title@ == self.article.title@,
            r.lon_avg == self.article.coordinate_avg.lon,
            r.lat_avg == self.article.coordinate_avg.lat,
            r.start_time@ == display_of(self.article.start_time),
            r.end_time@ == display_of(self.article.end_time),
            r.static_dir@ == TRACK_STATIC_DIR@,
            r.copied_photos.deep_view() == names_of(self.photos@, self.published@),
            r.photo_target_dir_relative@ == relative_photo_dir_of(self.article.underscored_title@),
            r.country@ == self.article.country@,
    {
        TrackPage {
            track_coordinates: self.route.clone(),
            article_title: self.article.title.clone(),
            lon_avg: self.article.coordinate_avg.lon,
            lat_avg: self.article.coordinate_avg.lat,
            start_time: display_time(&self.article.start_time),
            end_time: display_time(&self.article.end_time),
            static_dir: String::from_str(TRACK_STATIC_DIR),
            copied_photos: self.copied_photos(),
            photo_target_dir_relative: relative_photo_dir(self.article.underscored_title.as_str()),
            country: self.article.country.clone(),
        }
    }

    /// The URL of the request that looks up the place of the centroid.
    pub fn geocoding_url(&self) -> (r: Option<String>)
        ensures
            match r {
                Some(url) => url_with_params(GEOCODER@, query_of(self.article.coordinate_avg))
                    == Some(url@),
                None => url_with_params(GEOCODER@, query_of(self.article.coordinate_avg)) is None,
            },
    {
        reverse_geocoding(&self.article.coordinate_avg)
    }

    /// The article, once it is assembled: no article comes of a track that
    /// was given up or is still under way.
    pub fn finished_article(&self) -> (r: Option<TrackArticle>)
        ensures
            r is Some <==> self.stage is Assembled,
            r matches Some(article) ==> article == self.article,
    {
        match self.stage {
            Stage::Assembled => Some(self.article.clone()),
            _ => None,
        }
    }
}

/// How many actions a job at `stage`, with the photo at `next` of `count`
/// in hand, may still ask for at most.
pub open spec fn steps_left(stage: Stage, next: int, count: int) -> int {
    match stage {
        Stage::Directories => 4 * count + 4,
        Stage::Copying => 4 * (count - next) + 3,
        Stage::Thumbnailing => 4 * (count - next) + 2,
        Stage::Stripping => 4 * (count - next) + 1,
        Stage::Discarding => 4 * (count - next),
        Stage::Geocoding => 2,
        Stage::Rendering => 1,
        Stage::Assembled => 0,
        Stage::Skipped(_) => 0,
    }
}

/// A job that is assembled or skipped is at its end: whatever is reported
/// to it, it stays where it is and asks for nothing. No article comes of a
/// skipped track.
pub proof fn lemma_end_is_final(job: ArticleJob, ok: bool)
    requires
        job.stage is Assembled || job.stage is Skipped,
    ensures
        job.stage_after(ok) == job.stage,
        job.next_after(ok) == job.next,
        job.published_after(ok) == job.published@,
        pending_of(job.stage, job.next) is None,
{
}

/// What goes wrong with one photo never costs the track: from copying,
/// thumbnailing, stripping and discarding the job goes on, whether the
/// action failed or not. A photo for which one of them failed is not
/// published, and after a failed thumbnail or stripping its copy is
/// discarded.
pub proof fn lemma_photo_failure_is_absorbed(job: ArticleJob, ok: bool)
    requires
        job.stage is Copying || job.stage is Thumbnailing || job.stage is Stripping
            || job.stage is Discarding,
    ensures
        !(job.stage_after(ok) is Skipped),
        !ok ==> job.published_after(ok) == job.published@,
        (job.stage is Thumbnailing || job.stage is Stripping) && !ok ==> job.stage_after(ok)
            == Stage::Discarding && job.next_after(ok) == job.next,
        job.stage is Discarding ==> job.published_after(ok) == job.published@,
        job.stage is Copying && !ok ==> job.next_after(ok) > job.next || job.next_after(ok)
            == job.photos@.len(),
{
    lemma_next_publishable(job.photos@, job.after_photo());
}

/// Every report brings a well-formed job that is under way nearer to its
/// end, so the work on a track always finishes.
pub proof fn lemma_step_makes_progress(job: ArticleJob, ok: bool)
    requires
        job.wf(),
        !(job.stage is Assembled || job.stage is Skipped),
    ensures
        0 <= steps_left(job.stage_after(ok), job.next_after(ok), job.photos@.len() as int)
            < steps_left(job.stage, job.next as int, job.photos@.len() as int),
{
    lemma_next_publishable(job.photos@, 0);
    lemma_next_publishable(job.photos@, job.after_photo());
}

/// What a track log and a catalog start is fixed by the two: whenever the
/// work on the same log starts over the same catalog, it has the same title,
/// slug, times, route, centroid and matched photos, and so gives each photo
/// the same name.
pub proof fn lemma_same_inputs_same_work(
    first: ArticleJob,
    second: ArticleJob,
    log: TrackLog,
    gpx_file: Seq<char>,
    catalog: Seq<Photo>,
)
    requires
        describes(first.article, first.route@, log, gpx_file),
        describes(second.article, second.route@, log, gpx_file),
        is_matched_set(first.photos@, catalog, first.article.start_time, first.article.end_time),
        is_matched_set(
            second.photos@,
            catalog,
            second.article.start_time,
            second.article.end_time,
        ),
    ensures
        first.article.title@ == second.article.title@,
        first.article.underscored_title@ == second.article.underscored_title@,
        first.article.start_time == second.article.start_time,
        first.article.end_time == second.article.end_time,
        first.article.coordinate_avg == second.article.coordinate_avg,
        first.route@ == second.route@,
        first.photos@ == second.photos@,
        forall|position: int|
            name_at(first.photos@, position) == name_at(second.photos@, position),
{
    lemma_matched_set_unique(
        first.photos@,
        second.photos@,
        catalog,
        first.article.start_time,
        first.article.end_time,
    );
}

/// The course of the work is fixed by the matched photos and the reports:
/// two jobs over the same photos that stand at the same point and get
/// reports that say the same go on to the same point, with the same photos
/// published under the same names, the same place and the same number of
/// photos.
pub proof fn lemma_same_reports_same_course(
    first: ArticleJob,
    second: ArticleJob,
    report: Event,
    other_report: Event,
)
    requires
        first.photos@ == second.photos@,
        first.stage == second.stage,
        first.next == second.next,
        first.published@ == second.published@,
        first.article.country@ == second.article.country@,
        first.article.photos_number == second.article.photos_number,
        report.ok() == other_report.ok(),
        place_of(report.answer()) == place_of(other_report.answer()),
    ensures
        first.stage_after(report.ok()) == second.stage_after(other_report.ok()),
        first.next_after(report.ok()) == second.next_after(other_report.ok()),
        first.published_after(report.ok()) == second.published_after(other_report.ok()),
        names_of(first.photos@, first.published_after(report.ok())) == names_of(
            second.photos@,
            second.published_after(other_report.ok()),
        ),
        first.country_after(report) == second.country_after(other_report),
        first.photos_number_after() == second.photos_number_after(),
{
}

/// A sound track during which no photo of the catalog was taken is skipped
/// whole, whatever its slug: no work starts on it, so nothing of it is
/// written and no article comes of it.
pub proof fn lemma_no_photo_no_work(
    log: TrackLog,
    gpx_file: Seq<char>,
    claimed: Seq<String>,
    catalog: Seq<Photo>,
)
    requires
        defect_of(log, gpx_file) is None,
        !any_in_window(
            catalog,
            route_of(log).first().time.unwrap(),
            route_of(log).last().time.unwrap(),
        ),
    ensures
        start_failure(log, gpx_file, claimed, catalog) == Some(SkipReason::NoPhotos),
{
}

/// A slug that is claimed blocks every later track that has it, before
/// anything of that track is written: two tracks never share an output.
pub proof fn lemma_claimed_slug_blocks(
    log: TrackLog,
    gpx_file: Seq<char>,
    claimed: Seq<String>,
    catalog: Seq<Photo>,
)
    requires
        slug_taken(claimed, slug_of(title_of(log, gpx_file))),
    ensures
        start_failure(log, gpx_file, claimed, catalog) is Some,
{
}

/// Decides whether `slug` is among `claimed`.
pub fn is_slug_taken(claimed: &Vec<String>, slug: &str) -> (r: bool)
    ensures
        r == slug_taken(claimed@, slug@),
{
    let mut i: usize = 0;
    while i < claimed.len()
        invariant
            i <= claimed@.len(),
            forall|j: int| 0 <= j < i ==> (#[trigger] claimed@[j])@ != slug@,
        decreases claimed@.len() - i,
    {
        if same_text(claimed[i].as_str(), slug) {
            return true;
        }
        i += 1;
    }
    false
}

/// Starts the work on the track log `log`, read from the file `gpx_file`,
/// for the site under `target_dir`: summarises the track, matches the photos
/// of `photo_list` to its time window and, where there are some, hands back
/// the job that publishes them, with the directories as the first thing to
/// make. A track without a photo is skipped whole: no job, and so no
/// directory, page or article. So is one whose slug is among `claimed`,
/// before anything of it is written.
pub fn generate_article(
    log: &TrackLog,
    gpx_file: &str,
    target_dir: &str,
    claimed: &Vec<String>,
    photo_list: &Vec<Photo>,
) -> (r: Result<ArticleJob, SkipReason>)
    ensures
        match r {
            Ok(job) => {
                &&& start_failure(*log, gpx_file@, claimed@, photo_list@) is None
                &&& job.gpx_file@ == gpx_file@
                &&& job.stage == Stage::Directories
                &&& job.next == 0
                &&& job.published@.len() == 0
                &&& describes(job.article, job.route@, *log, gpx_file@)
                &&& is_matched_set(
                    job.photos@,
                    photo_list@,
                    job.article.start_time,
                    job.article.end_time,
                )
                &&& job.site_output@ == target_dir@
                &&& job.wf()
            },
            Err(reason) => start_failure(*log, gpx_file@, claimed@, photo_list@) == Some(reason),
        },
{
    let (article, route) = match article_gpx_info(log, gpx_file) {
        Ok(found) => found,
        Err(defect) => {
            return Err(SkipReason::BadTrack(defect));
        },
    };
    let photos = match find_photos(photo_list, article.start_time, article.end_time) {
        Some(matched) => matched,
        None => {
            return Err(SkipReason::NoPhotos);
        },
    };
    if is_slug_taken(claimed, article.underscored_title.as_str()) {
        return Err(SkipReason::SlugTaken);
    }
    Ok(
        ArticleJob {
            gpx_file: String::from_str(gpx_file),
            stage: Stage::Directories,
            next: 0,
            published: Vec::new(),
            article,
            route,
            photos,
            site_output: String::from_str(target_dir),
        },
    )
}

} // verus!
