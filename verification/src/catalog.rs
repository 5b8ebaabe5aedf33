//! The photo catalog: one entry for each image file that carries a capture
//! time which can be read.

use vstd::prelude::*;

verus! {

/// A photograph: the file it was read from and the second at which it was
/// taken, counted from the Unix epoch as if its local clock showed UTC.
#[derive(Debug, PartialEq, Eq)]
pub struct Photo {
    pub path: String,
    pub captured_at: i64,
}

impl Clone for Photo {
    fn clone(&self) -> (r: Photo)
        ensures
            r == *self,
    {
        Photo { path: self.path.clone(), captured_at: self.captured_at }
    }
}

/// What was read from one image file: its path, and the text of its capture
/// time tag where the file has one.
#[derive(Debug, PartialEq, Eq)]
pub struct PhotoSource {
    pub path: String,
    pub capture_tag: Option<String>,
}

/// The metadata tag that holds a photo's capture time.
pub const CAPTURE_TAG: &'static str = "Exif.Image.DateTime";

/// The layout of a capture time: year, month and day joined by colons, a
/// space, then hour, minute and second joined by colons.
pub const CAPTURE_FORMAT: &'static str = "%Y:%m:%d %H:%M:%S";

/// The second that `text` names when it is read as a date and time of the
/// layout `format`, or `None` where it does not name one.
pub uninterp spec fn naive_timestamp(text: Seq<char>, format: Seq<char>) -> Option<i64>;

/// `chrono::NaiveDateTime::parse_from_str`, followed by the timestamp of the
/// date and time it found. The call reads `text` against `format` and fails
/// on a text that does not fit or names no real date and time; the contract
/// claims only that the outcome is fixed by the two texts, and only for the
/// one layout that the catalog reads.
#[verifier::external_body]
fn parse_naive_timestamp(text: &str, format: &str) -> (r: Option<i64>)
    requires
        format@ == CAPTURE_FORMAT@,
    ensures
        r == naive_timestamp(text@, format@),
{
    match chrono::NaiveDateTime::parse_from_str(text, format) {
        Ok(found) => Some(found.and_utc().timestamp()),
        Err(_) => None,
    }
}

/// The capture time that a source yields: that of its tag, where it has one
/// that can be read.
pub open spec fn capture_time_of(source: PhotoSource) -> Option<i64> {
    match source.capture_tag {
        Some(tag) => naive_timestamp(tag@, CAPTURE_FORMAT@),
        None => None,
    }
}

/// The catalog entry that a file's path and the outcome of reading its
/// capture time make: none without a capture time.
pub open spec fn entry_of(path: String, captured_at: Option<i64>) -> Option<Photo> {
    match captured_at {
        Some(t) => Some(Photo { path, captured_at: t }),
        None => None,
    }
}

/// The catalog made of `sources`: the entries of those that yield a capture
/// time, in the order of the sources.
pub open spec fn catalog_of(sources: Seq<PhotoSource>) -> Seq<Photo>
    decreases sources.len(),
{
    if sources.len() == 0 {
        Seq::empty()
    } else {
        let rest = catalog_of(sources.drop_last());
        let last = sources.last();
        match entry_of(last.path, capture_time_of(last)) {
            Some(photo) => rest.push(photo),
            None => rest,
        }
    }
}

/// Reads the text of a capture time tag.
pub fn capture_time(tag: &str) -> (r: Option<i64>)
    ensures
        r == naive_timestamp(tag@, CAPTURE_FORMAT@),
{
    parse_naive_timestamp(tag, CAPTURE_FORMAT)
}

/// Makes the catalog entry for the file at `path`, given the outcome of
/// reading its capture time.
pub fn catalog_entry(path: &String, captured_at: Option<i64>) -> (r: Option<Photo>)
    ensures
        r == entry_of(*path, captured_at),
{
    match captured_at {
        Some(t) => Some(Photo { path: path.clone(), captured_at: t }),
        None => None,
    }
}

/// Builds the catalog from what was read of each file. A file without a
/// capture time that can be read is left out; it never stops the others.
pub fn parse_photos(sources: &Vec<PhotoSource>) -> (photos: Vec<Photo>)
    ensures
        photos@ == catalog_of(sources@),
{
    let mut photos: Vec<Photo> = Vec::new();
    let mut i: usize = 0;
    while i < sources.len()
        invariant
            i <= sources@.len(),
            photos@ == catalog_of(sources@.take(i as int)),
        decreases sources@.len() - i,
    {
        let source = &sources[i];
        let captured_at = match &source.capture_tag {
            Some(tag) => capture_time(tag.as_str()),
            None => None,
        };
        proof {
            assert(sources@.take(i + 1).drop_last() =~= sources@.take(i as int));
            assert(sources@.take(i + 1).last() == sources@[i as int]);
        }
        match catalog_entry(&source.path, captured_at) {
            Some(photo) => photos.push(photo),
            None => {},
        }
        i += 1;
    }
    assert(sources@.take(sources@.len() as int) =~= sources@);
    photos
}

} // verus!
