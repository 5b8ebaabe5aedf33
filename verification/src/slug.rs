//! Slugs: the form of a track's title that names its page and its photo
//! directory.

use vstd::prelude::*;
use vstd::string::*;

verus! {

/// Whether `c` is white space: the characters of Unicode's `White_Space`
/// property.
pub open spec fn is_space(c: char) -> bool {
    let u = c as u32;
    ||| 0x09 <= u <= 0x0D
    ||| u == 0x20
    ||| u == 0x85
    ||| u == 0xA0
    ||| u == 0x1680
    ||| 0x2000 <= u <= 0x200A
    ||| u == 0x2028
    ||| u == 0x2029
    ||| u == 0x202F
    ||| u == 0x205F
    ||| u == 0x3000
}

/// Whether `c` may not stand in a slug: white space, the two path
/// separators and the angle brackets.
pub open spec fn is_unsafe(c: char) -> bool {
    is_space(c) || c == '/' || c == '\\' || c == '<' || c == '>'
}

/// What stands in the slug in place of `c`.
pub open spec fn slug_char(c: char) -> char {
    if is_unsafe(c) {
        '_'
    } else {
        c
    }
}

/// The slug of `title`: the title with every unsafe character replaced by an
/// underscore, character for character.
pub open spec fn slug_of(title: Seq<char>) -> Seq<char> {
    Seq::new(title.len(), |i: int| slug_char(title[i]))
}

/// Whether `s` is free of unsafe characters.
pub open spec fn is_safe(s: Seq<char>) -> bool {
    forall|i: int| 0 <= i < s.len() ==> !is_unsafe(#[trigger] s[i])
}

/// Whether `slug` names a directory of its own: it is not empty and is
/// neither the directory it would stand in (`.`) nor the one above (`..`).
pub open spec fn names_directory(slug: Seq<char>) -> bool {
    slug.len() > 0 && slug != seq!['.'] && slug != seq!['.', '.']
}

/// A slug holds no white space, no path separator and no angle bracket.
pub proof fn lemma_slug_is_safe(title: Seq<char>)
    ensures
        is_safe(slug_of(title)),
        slug_of(title).len() == title.len(),
{
    assert(!is_unsafe('_'));
}

/// A text that is already safe is its own slug, so taking the slug twice
/// changes nothing more.
pub proof fn lemma_slug_of_safe(s: Seq<char>)
    requires
        is_safe(s),
    ensures
        slug_of(s) == s,
{
    assert(slug_of(s) =~= s);
}

fn replace_unsafe(c: char) -> (r: char)
    ensures
        r == slug_char(c),
{
    let u: u32 = c as u32;
    let space = (0x09 <= u && u <= 0x0D) || u == 0x20 || u == 0x85 || u == 0xA0 || u == 0x1680
        || (0x2000 <= u && u <= 0x200A) || u == 0x2028 || u == 0x2029 || u == 0x202F
        || u == 0x205F || u == 0x3000;
    if space || c == '/' || c == '\\' || c == '<' || c == '>' {
        '_'
    } else {
        c
    }
}

/// Decides whether `slug` names a directory of its own.
pub fn is_directory_name(slug: &str) -> (r: bool)
    ensures
        r == names_directory(slug@),
{
    let len = slug.unicode_len();
    if len == 0 {
        false
    } else if len == 1 {
        let dot = slug.get_char(0) == '.';
        assert(dot ==> slug@ =~= seq!['.']);
        !dot
    } else if len == 2 {
        let dots = slug.get_char(0) == '.' && slug.get_char(1) == '.';
        assert(dots ==> slug@ =~= seq!['.', '.']);
        !dots
    } else {
        true
    }
}

/// Computes the slug of `title`.
pub fn slugify(title: &str) -> (r: String)
    ensures
        r@ == slug_of(title@),
        is_safe(r@),
{
    let len = title.unicode_len();
    let mut out = String::new();
    let mut i: usize = 0;
    while i < len
        invariant
            i <= len == title@.len(),
            out@ == slug_of(title@).subrange(0, i as int),
        decreases len - i,
    {
        out.push(replace_unsafe(title.get_char(i)));
        i += 1;
        assert(out@ =~= slug_of(title@).subrange(0, i as int));
    }
    proof {
        assert(out@ =~= slug_of(title@));
        lemma_slug_is_safe(title@);
    }
    out
}

} // verus!
