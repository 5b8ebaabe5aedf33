//! The order in which the files of a directory are taken.
//!
//! A directory hands out its files in no fixed order. A run takes them in
//! the order of their paths, so that the same directory always gives the
//! same run: which of two photos of one second comes first, and which of two
//! tracks that start together.

use vstd::prelude::*;
use vstd::seq_lib::to_multiset_insert;
use vstd::string::*;

verus! {

/// Whether the text `a` stands before `b` or is `b`, in the order of a
/// dictionary whose alphabet is the characters by their code points.
pub open spec fn text_le(a: Seq<char>, b: Seq<char>) -> bool
    decreases a.len(),
{
    if a.len() == 0 {
        true
    } else if b.len() == 0 {
        false
    } else if a[0] != b[0] {
        (a[0] as u32) < (b[0] as u32)
    } else {
        text_le(a.drop_first(), b.drop_first())
    }
}

/// Whether each text of `paths` stands before or with the next.
pub open spec fn is_ordered(paths: Seq<String>) -> bool {
    forall|i: int, j: int| 0 <= i < j < paths.len() ==> text_le(paths[i]@, paths[j]@)
}

/// Of two texts one stands before the other, or they are the same.
pub proof fn lemma_text_le_total(a: Seq<char>, b: Seq<char>)
    ensures
        text_le(a, b) || text_le(b, a),
        text_le(a, b) && text_le(b, a) ==> a == b,
    decreases a.len(),
{
    if a.len() > 0 && b.len() > 0 && a[0] == b[0] {
        lemma_text_le_total(a.drop_first(), b.drop_first());
        if text_le(a, b) && text_le(b, a) {
            assert(a =~= seq![a[0]] + a.drop_first());
            assert(b =~= seq![b[0]] + b.drop_first());
        }
    } else if a.len() == 0 && b.len() == 0 {
        assert(a =~= b);
    } else if a.len() > 0 && b.len() > 0 {
        vstd::utf8::char_u32_cast(a[0], a[0] as u32);
        vstd::utf8::char_u32_cast(b[0], b[0] as u32);
    }
}

/// What stands before a text stands before all that the text stands before.
pub proof fn lemma_text_le_transitive(a: Seq<char>, b: Seq<char>, c: Seq<char>)
    requires
        text_le(a, b),
        text_le(b, c),
    ensures
        text_le(a, c),
    decreases a.len(),
{
    if a.len() > 0 && b.len() > 0 && c.len() > 0 && a[0] == b[0] && b[0] == c[0] {
        lemma_text_le_transitive(a.drop_first(), b.drop_first(), c.drop_first());
    }
}

/// Decides `text_le`.
pub fn precedes(a: &str, b: &str) -> (r: bool)
    ensures
        r == text_le(a@, b@),
{
    let a_len = a.unicode_len();
    let b_len = b.unicode_len();
    let mut i: usize = 0;
    assert(a@.skip(0) =~= a@ && b@.skip(0) =~= b@);
    while i < a_len && i < b_len
        invariant
            i <= a_len == a@.len(),
            i <= b_len == b@.len(),
            text_le(a@, b@) == text_le(a@.skip(i as int), b@.skip(i as int)),
        decreases a_len - i,
    {
        let x = a.get_char(i);
        let y = b.get_char(i);
        proof {
            assert(a@.skip(i as int)[0] == x && b@.skip(i as int)[0] == y);
            assert(a@.skip(i as int).drop_first() =~= a@.skip(i + 1));
            assert(b@.skip(i as int).drop_first() =~= b@.skip(i + 1));
        }
        if x != y {
            return (x as u32) < (y as u32);
        }
        i += 1;
    }
    i == a_len
}

/// Puts the paths of a directory listing in order. The result holds every
/// path of the listing, as often as the listing does, each before or with
/// the next.
pub fn order_listing(listing: &Vec<String>) -> (ordered: Vec<String>)
    ensures
        is_ordered(ordered@),
        ordered@.to_multiset() == listing@.to_multiset(),
        ordered@.len() == listing@.len(),
{
    let mut ordered: Vec<String> = Vec::new();
    let mut i: usize = 0;
    assert(listing@.take(0) =~= ordered@);
    while i < listing.len()
        invariant
            i <= listing@.len(),
            ordered@.len() == i,
            is_ordered(ordered@),
            ordered@.to_multiset() == listing@.take(i as int).to_multiset(),
        decreases listing@.len() - i,
    {
        let path = &listing[i];
        let ghost before = ordered@;
        let mut at: usize = ordered.len();
        while at > 0 && !precedes(ordered[at - 1].as_str(), path.as_str())
            invariant
                at <= ordered@.len(),
                ordered@ == before,
                forall|j: int| at <= j < ordered@.len() ==> !text_le(ordered@[j]@, path@),
            decreases at,
        {
            at -= 1;
        }
        ordered.insert(at, path.clone());
        proof {
            assert forall|a: int, b: int| 0 <= a < b < ordered@.len() implies text_le(
                ordered@[a]@,
                ordered@[b]@,
            ) by {
                if b < at {
                    assert(ordered@[a] == before[a] && ordered@[b] == before[b]);
                } else if a > at {
                    assert(ordered@[a] == before[a - 1] && ordered@[b] == before[b - 1]);
                } else if a == at {
                    assert(ordered@[b] == before[b - 1]);
                    lemma_text_le_total(before[b - 1]@, path@);
                } else if b == at {
                    assert(ordered@[a] == before[a]);
                    if a < at - 1 {
                        assert(text_le(before[a]@, before[at - 1]@));
                        lemma_text_le_transitive(before[a]@, before[at - 1]@, path@);
                    }
                } else {
                    assert(ordered@[a] == before[a] && ordered@[b] == before[b - 1]);
                }
            }
            to_multiset_insert(before, at as int, *path);
            assert(listing@.take(i + 1) =~= listing@.take(i as int).push(*path));
            vstd::seq_lib::to_multiset_build(listing@.take(i as int), *path);
        }
        i += 1;
    }
    assert(listing@.take(listing@.len() as int) =~= listing@);
    ordered
}

} // verus!
