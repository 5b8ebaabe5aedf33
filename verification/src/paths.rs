//! Paths as texts: the parts of a file's name, and where the site's files go.
//!
//! A path is read with `/` as its separator. The file name is what follows
//! the last separator; a path that ends in one names no file.

use vstd::prelude::*;
use vstd::string::*;
use crate::text::{decimal, decimal_string, join, last_index_of, lemma_last_index_of, rfind_char, same_text, slice_chars};

verus! {

/// The last component of `path`.
pub open spec fn file_name(path: Seq<char>) -> Seq<char> {
    path.subrange(last_index_of(path, '/') + 1, path.len() as int)
}

/// Whether `name` names a file: it is not empty and not the parent
/// directory `..`.
pub open spec fn names_file(name: Seq<char>) -> bool {
    name.len() > 0 && name != seq!['.', '.']
}

/// The extension of the file that `path` names: what follows the last dot
/// of the file name, where that dot is not the name's first character.
pub open spec fn extension(path: Seq<char>) -> Option<Seq<char>> {
    let name = file_name(path);
    let dot = last_index_of(name, '.');
    if names_file(name) && dot > 0 {
        Some(name.subrange(dot + 1, name.len() as int))
    } else {
        None
    }
}

/// The stem of the file that `path` names: the file name without its
/// extension and the dot before it.
pub open spec fn file_stem(path: Seq<char>) -> Option<Seq<char>> {
    let name = file_name(path);
    let dot = last_index_of(name, '.');
    if !names_file(name) {
        None
    } else if dot > 0 {
        Some(name.subrange(0, dot))
    } else {
        Some(name)
    }
}

/// The extension by which a track log is known.
pub open spec fn track_extension() -> Seq<char> {
    seq!['g', 'p', 'x']
}

/// Whether `path` names a track log.
pub open spec fn is_track_path(path: Seq<char>) -> bool {
    extension(path) == Some(track_extension())
}

/// The directory that receives the photos of the track with slug `slug`.
pub open spec fn photo_dir_of(site_output: Seq<char>, slug: Seq<char>) -> Seq<char> {
    site_output + "/static/photos/"@ + slug
}

/// The same directory as a page of the site refers to it.
pub open spec fn relative_photo_dir_of(slug: Seq<char>) -> Seq<char> {
    "static/photos/"@ + slug
}

/// The directory that receives the thumbnails beside the photos in `photo_dir`.
pub open spec fn thumbnail_dir_of(photo_dir: Seq<char>) -> Seq<char> {
    photo_dir + "/thumbnails"@
}

/// The name under which the photo at `position` in match order (from zero)
/// is published: its number from one, a dot, and its own extension.
pub open spec fn photo_name_of(position: nat, ext: Seq<char>) -> Seq<char> {
    decimal(position + 1).push('.') + ext
}

/// The file `name` inside `dir`.
pub open spec fn file_in(dir: Seq<char>, name: Seq<char>) -> Seq<char> {
    dir.push('/') + name
}

/// The directory that receives the pages of the tracks.
pub open spec fn tracks_dir_of(site_output: Seq<char>) -> Seq<char> {
    site_output + "/tracks"@
}

/// The page `name` inside `dir`.
pub open spec fn page_path_of(dir: Seq<char>, name: Seq<char>) -> Seq<char> {
    dir.push('/') + name + ".html"@
}

fn name_start(path: &str) -> (r: usize)
    ensures
        r as int == last_index_of(path@, '/') + 1,
        r <= path@.len() <= usize::MAX,
{
    let total = path.unicode_len();
    proof {
        lemma_last_index_of(path@, '/');
    }
    match rfind_char(path, '/') {
        Some(i) => i + 1,
        None => 0,
    }
}

fn is_parent_name(name: &str) -> (r: bool)
    ensures
        r == (name@ == seq!['.', '.']),
{
    let len = name.unicode_len();
    if len == 2 {
        let r = name.get_char(0) == '.' && name.get_char(1) == '.';
        assert(r ==> name@ =~= seq!['.', '.']);
        r
    } else {
        false
    }
}

/// Computes the extension of the file that `path` names.
pub fn path_extension(path: &str) -> (r: Option<String>)
    ensures
        r is Some == extension(path@) is Some,
        r matches Some(e) ==> extension(path@) == Some(e@),
{
    let total = path.unicode_len();
    let name = slice_chars(path, name_start(path), total);
    let len = name.as_str().unicode_len();
    proof {
        lemma_last_index_of(name@, '.');
    }
    if len == 0 || is_parent_name(name.as_str()) {
        return None;
    }
    match rfind_char(name.as_str(), '.') {
        Some(dot) => {
            if dot > 0 {
                Some(slice_chars(name.as_str(), dot + 1, len))
            } else {
                None
            }
        },
        None => None,
    }
}

/// Computes the stem of the file that `path` names.
pub fn path_file_stem(path: &str) -> (r: Option<String>)
    ensures
        r is Some == file_stem(path@) is Some,
        r matches Some(e) ==> file_stem(path@) == Some(e@),
{
    let total = path.unicode_len();
    let name = slice_chars(path, name_start(path), total);
    let len = name.as_str().unicode_len();
    proof {
        lemma_last_index_of(name@, '.');
    }
    if len == 0 || is_parent_name(name.as_str()) {
        return None;
    }
    match rfind_char(name.as_str(), '.') {
        Some(dot) => {
            if dot > 0 {
                Some(slice_chars(name.as_str(), 0, dot))
            } else {
                Some(name)
            }
        },
        None => Some(name),
    }
}

/// Decides whether `path` names a track log.
pub fn is_track_file(path: &str) -> (r: bool)
    ensures
        r == is_track_path(path@),
{
    match path_extension(path) {
        Some(e) => {
            proof {
                reveal_strlit("gpx");
                assert("gpx"@ =~= track_extension());
            }
            same_text(e.as_str(), "gpx")
        },
        None => false,
    }
}

/// Names the directory that receives the photos of the track with slug `slug`.
pub fn photo_dir(site_output: &str, slug: &str) -> (r: String)
    ensures
        r@ == photo_dir_of(site_output@, slug@),
{
    join(site_output, "/static/photos/").concat(slug)
}

/// Names that directory as a page of the site refers to it.
pub fn relative_photo_dir(slug: &str) -> (r: String)
    ensures
        r@ == relative_photo_dir_of(slug@),
{
    join("static/photos/", slug)
}

/// Names the directory of the thumbnails beside the photos in `photo_dir`.
pub fn thumbnail_dir(photo_dir: &str) -> (r: String)
    ensures
        r@ == thumbnail_dir_of(photo_dir@),
{
    join(photo_dir, "/thumbnails")
}

/// Names the published file of the photo at `position` in match order.
pub fn photo_name(position: usize, ext: &str) -> (r: String)
    requires
        position < usize::MAX,
    ensures
        r@ == photo_name_of(position as nat, ext@),
{
    let mut out = decimal_string((position + 1) as u64);
    out.push('.');
    out.concat(ext)
}

/// Names the file `name` inside `dir`.
pub fn file_path(dir: &str, name: &str) -> (r: String)
    ensures
        r@ == file_in(dir@, name@),
{
    let mut out = String::from_str(dir);
    out.push('/');
    out.concat(name)
}

/// Names the directory that receives the pages of the tracks.
pub fn tracks_dir(site_output: &str) -> (r: String)
    ensures
        r@ == tracks_dir_of(site_output@),
{
    join(site_output, "/tracks")
}

/// Names the page `name` inside `dir`.
pub fn page_path(dir: &str, name: &str) -> (r: String)
    ensures
        r@ == page_path_of(dir@, name@),
{
    file_path(dir, name).concat(".html")
}

} // verus!
