//! Matching photos to the time window of a track.
//!
//! A photo belongs to a window when the second at which it was taken lies
//! between the seconds of the window's two ends, both included. Fractions of
//! a second play no part.

use vstd::prelude::*;
use crate::catalog::Photo;
use crate::instant::Instant;
use crate::order::{
    distinct_keys, insert_stably, keys_of, lemma_stable_order_unique, lemma_with_key_empty,
    lemma_with_key_members, lemma_with_key_of_permutation, lemma_with_key_push, ordered_by,
    with_key,
};

verus! {

/// The key by which photos are ordered: the second of capture.
pub open spec fn capture_second() -> spec_fn(Photo) -> int {
    |p: Photo| p.captured_at as int
}

/// Whether the second `t` lies in the window from `start` to `end`.
pub open spec fn in_window(t: int, start: Instant, end: Instant) -> bool {
    start.secs <= t <= end.secs
}

/// Whether `catalog` holds a photo taken in the window.
pub open spec fn any_in_window(catalog: Seq<Photo>, start: Instant, end: Instant) -> bool {
    exists|i: int| 0 <= i < catalog.len() && in_window(#[trigger] catalog[i].captured_at as int, start, end)
}

/// Whether `matched` is the matched set of `catalog` for the window: its
/// capture times never fall, and for every second the photos it holds of
/// that second are those of the catalog, in catalog order, if the second
/// lies in the window, and none if it does not.
pub open spec fn is_matched_set(
    matched: Seq<Photo>,
    catalog: Seq<Photo>,
    start: Instant,
    end: Instant,
) -> bool {
    &&& ordered_by(matched, capture_second())
    &&& forall|t: int| #[trigger]
        with_key(matched, capture_second(), t) == if in_window(t, start, end) {
            with_key(catalog, capture_second(), t)
        } else {
            Seq::empty()
        }
}

/// The matched set holds exactly the photos of the catalog that were taken
/// in the window.
pub proof fn lemma_matched_members(
    matched: Seq<Photo>,
    catalog: Seq<Photo>,
    start: Instant,
    end: Instant,
    photo: Photo,
)
    requires
        is_matched_set(matched, catalog, start, end),
    ensures
        matched.contains(photo) <==> catalog.contains(photo) && in_window(
            photo.captured_at as int,
            start,
            end,
        ),
{
    let key = capture_second();
    let t = photo.captured_at as int;
    lemma_with_key_members(matched, key, t);
    lemma_with_key_members(catalog, key, t);
    let group = with_key(matched, key, t);
    if matched.contains(photo) {
        let i = choose|i: int| 0 <= i < matched.len() && matched[i] == photo;
        assert(group.contains(matched[i]));
        assert(group.len() > 0);
        let j = choose|j: int| 0 <= j < group.len() && group[j] == photo;
        assert(catalog.contains(with_key(catalog, key, t)[j]));
    }
    if catalog.contains(photo) && in_window(t, start, end) {
        let i = choose|i: int| 0 <= i < catalog.len() && catalog[i] == photo;
        assert(with_key(catalog, key, t).contains(catalog[i]));
        let j = choose|j: int| 0 <= j < group.len() && group[j] == photo;
        assert(matched.contains(group[j]));
    }
}

/// The window is closed at both ends: a photo of the catalog taken at the
/// very second of the window's start or of its end is matched, and one taken
/// a second before the start or a second after the end is not.
pub proof fn lemma_window_is_closed(
    matched: Seq<Photo>,
    catalog: Seq<Photo>,
    start: Instant,
    end: Instant,
    photo: Photo,
)
    requires
        is_matched_set(matched, catalog, start, end),
        catalog.contains(photo),
        start.secs <= end.secs,
    ensures
        photo.captured_at == start.secs || photo.captured_at == end.secs ==> matched.contains(
            photo,
        ),
        photo.captured_at == start.secs - 1 || photo.captured_at == end.secs + 1
            ==> !matched.contains(photo),
{
    lemma_matched_members(matched, catalog, start, end, photo);
}

/// A window has one matched set in a catalog.
pub proof fn lemma_matched_set_unique(
    first: Seq<Photo>,
    second: Seq<Photo>,
    catalog: Seq<Photo>,
    start: Instant,
    end: Instant,
)
    requires
        is_matched_set(first, catalog, start, end),
        is_matched_set(second, catalog, start, end),
    ensures
        first == second,
{
    let key = capture_second();
    assert forall|t: int| #[trigger] with_key(first, key, t) == with_key(second, key, t) by {
        assert(with_key(first, key, t) == if in_window(t, start, end) {
            with_key(catalog, key, t)
        } else {
            Seq::empty()
        });
    }
    lemma_stable_order_unique(first, second, key);
}

/// The order of the catalog does not matter where no two of its photos were
/// taken in the same second: the matched set of a catalog is also that of
/// every rearrangement of it.
pub proof fn lemma_catalog_order_is_irrelevant(
    matched: Seq<Photo>,
    rearranged_matched: Seq<Photo>,
    catalog: Seq<Photo>,
    rearranged: Seq<Photo>,
    start: Instant,
    end: Instant,
)
    requires
        catalog.to_multiset() == rearranged.to_multiset(),
        distinct_keys(catalog, capture_second()),
        is_matched_set(matched, catalog, start, end),
        is_matched_set(rearranged_matched, rearranged, start, end),
    ensures
        matched == rearranged_matched,
{
    let key = capture_second();
    assert forall|t: int| #[trigger]
        with_key(rearranged_matched, key, t) == if in_window(t, start, end) {
            with_key(catalog, key, t)
        } else {
            Seq::empty()
        } by {
        lemma_with_key_of_permutation(catalog, rearranged, key, t);
    }
    lemma_matched_set_unique(matched, rearranged_matched, catalog, start, end);
}

/// In a matched set a photo stands before every photo taken later, and
/// photos taken in the same second stand as they stood in the catalog.
pub proof fn lemma_matched_order(
    matched: Seq<Photo>,
    catalog: Seq<Photo>,
    start: Instant,
    end: Instant,
    t: int,
)
    requires
        is_matched_set(matched, catalog, start, end),
        in_window(t, start, end),
    ensures
        forall|i: int, j: int|
            0 <= i < j < matched.len() ==> matched[i].captured_at <= matched[j].captured_at,
        with_key(matched, capture_second(), t) == with_key(catalog, capture_second(), t),
{
    let key = capture_second();
    assert forall|i: int, j: int| 0 <= i < j < matched.len() implies matched[i].captured_at
        <= matched[j].captured_at by {
        assert(key(matched[i]) <= key(matched[j]));
    }
    assert(with_key(matched, key, t) == if in_window(t, start, end) {
        with_key(catalog, key, t)
    } else {
        Seq::empty()
    });
}

/// Selects the photos of the catalog that were taken in the window from
/// `start_time` to `end_time`, ordered by capture time, photos of the same
/// second in catalog order. `None` stands for no match: there is no empty
/// matched set.
pub fn find_photos(photos: &Vec<Photo>, start_time: Instant, end_time: Instant) -> (r: Option<
    Vec<Photo>,
>)
    ensures
        r is Some <==> any_in_window(photos@, start_time, end_time),
        r matches Some(matched) ==> matched@.len() > 0 && is_matched_set(
            matched@,
            photos@,
            start_time,
            end_time,
        ),
{
    let ghost key = capture_second();
    let mut matched: Vec<Photo> = Vec::new();
    let mut keys: Vec<i128> = Vec::new();
    let mut i: usize = 0;
    proof {
        assert(photos@.take(0) =~= Seq::<Photo>::empty());
        assert(matched@ =~= Seq::<Photo>::empty());
        assert forall|t: int| #[trigger]
            with_key(matched@, key, t) == if in_window(t, start_time, end_time) {
                with_key(photos@.take(0), key, t)
            } else {
                Seq::empty()
            } by {
            lemma_with_key_empty::<Photo>(key, t);
        }
    }
    while i < photos.len()
        invariant
            i <= photos@.len(),
            key == capture_second(),
            keys_of(matched@, keys@, key),
            is_matched_set(matched@, photos@.take(i as int), start_time, end_time),
        decreases photos@.len() - i,
    {
        let photo = &photos[i];
        let ghost before = matched@;
        let ghost seen = photos@.take(i as int);
        if start_time.secs <= photo.captured_at && photo.captured_at <= end_time.secs {
            insert_stably(&mut matched, &mut keys, photo.clone(), photo.captured_at as i128, Ghost(key));
        }
        proof {
            assert(photos@.take(i + 1) =~= seen.push(*photo));
            assert forall|t: int| #[trigger]
                with_key(matched@, key, t) == if in_window(t, start_time, end_time) {
                    with_key(photos@.take(i + 1), key, t)
                } else {
                    Seq::empty()
                } by {
                lemma_with_key_push(seen, *photo, key, t);
                assert(with_key(before, key, t) == if in_window(t, start_time, end_time) {
                    with_key(seen, key, t)
                } else {
                    Seq::empty()
                });
            }
        }
        i += 1;
    }
    proof {
        assert(photos@.take(photos@.len() as int) =~= photos@);
        if matched@.len() > 0 {
            let t = matched@[0].captured_at as int;
            lemma_with_key_members(matched@, key, t);
            lemma_with_key_members(photos@, key, t);
            assert(with_key(matched@, key, t).contains(matched@[0]));
            assert(with_key(matched@, key, t) == if in_window(t, start_time, end_time) {
                with_key(photos@, key, t)
            } else {
                Seq::empty()
            });
            let found = with_key(photos@, key, t)[0];
            let j = choose|j: int| 0 <= j < photos@.len() && photos@[j] == found;
            assert(in_window(photos@[j].captured_at as int, start_time, end_time));
        }
        if any_in_window(photos@, start_time, end_time) {
            let j = choose|j: int|
                0 <= j < photos@.len() && in_window(
                    #[trigger] photos@[j].captured_at as int,
                    start_time,
                    end_time,
                );
            let t = photos@[j].captured_at as int;
            lemma_with_key_members(photos@, key, t);
            assert(with_key(photos@, key, t).contains(photos@[j]));
            assert(with_key(matched@, key, t) == if in_window(t, start_time, end_time) {
                with_key(photos@, key, t)
            } else {
                Seq::empty()
            });
            lemma_with_key_members(matched@, key, t);
            assert(matched@.contains(with_key(matched@, key, t)[0]));
        }
    }
    if matched.len() > 0 {
        Some(matched)
    } else {
        None
    }
}

} // verus!
