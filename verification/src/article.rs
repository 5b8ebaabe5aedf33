//! Articles: what the site publishes of one track.

use vstd::prelude::*;
use crate::geometry::Coordinate;
use crate::instant::Instant;
use crate::order::{
    insert_stably, keys_of, lemma_stable_order_unique, lemma_with_key_push, stably_sorts,
    with_key,
};
use crate::slug::{names_directory, slug_of};

verus! {

/// The article of one track.
#[derive(Debug, PartialEq, Eq)]
pub struct TrackArticle {
    /// The title shown to the reader.
    pub title: String,
    /// The slug of the title, which names the page and the photo directory.
    pub underscored_title: String,
    /// How many photos were published with the track.
    pub photos_number: usize,
    /// The place the track lies in; empty where it could not be resolved.
    pub country: String,
    /// The time of the track's first point.
    pub start_time: Instant,
    /// The time of the track's last point.
    pub end_time: Instant,
    /// The centroid of the route.
    pub coordinate_avg: Coordinate,
}

impl TrackArticle {
    /// Whether the article is well formed: its slug is that of its title and
    /// names a directory of its own, and it does not end before it starts.
    pub open spec fn wf(self) -> bool {
        &&& self.underscored_title@ == slug_of(self.title@)
        &&& names_directory(self.underscored_title@)
        &&& self.start_time.le(self.end_time)
    }
}

impl Clone for TrackArticle {
    fn clone(&self) -> (r: TrackArticle)
        ensures
            r == *self,
    {
        TrackArticle {
            title: self.title.clone(),
            underscored_title: self.underscored_title.clone(),
            photos_number: self.photos_number,
            country: self.country.clone(),
            start_time: self.start_time,
            end_time: self.end_time,
            coordinate_avg: self.coordinate_avg,
        }
    }
}

/// The key by which the index orders articles: the start of the track.
pub open spec fn start_key() -> spec_fn(TrackArticle) -> int {
    |a: TrackArticle| a.start_time.key()
}

/// Whether `index` lists `articles` as the index page does: by start time,
/// the earliest first, articles that start at the same instant in the order
/// in which they were collected.
pub open spec fn is_index_of(index: Seq<TrackArticle>, articles: Seq<TrackArticle>) -> bool {
    stably_sorts(index, articles, start_key())
}

/// Whether no two of `articles` have the same slug.
pub open spec fn distinct_slugs(articles: Seq<TrackArticle>) -> bool {
    forall|i: int, j: int|
        0 <= i < j < articles.len() ==> (#[trigger] articles[i]).underscored_title@
            != (#[trigger] articles[j]).underscored_title@
}

/// Whether one of `articles` has the slug `slug`.
pub open spec fn slug_recorded(articles: Seq<TrackArticle>, slug: Seq<char>) -> bool {
    exists|i: int| 0 <= i < articles.len() && (#[trigger] articles[i]).underscored_title@ == slug
}

/// In an index no article stands before one that starts earlier.
pub proof fn lemma_index_is_chronological(index: Seq<TrackArticle>, articles: Seq<TrackArticle>)
    requires
        is_index_of(index, articles),
    ensures
        forall|i: int, j: int|
            0 <= i < j < index.len() ==> (#[trigger] index[i]).start_time.le(
                (#[trigger] index[j]).start_time,
            ),
{
    let key = start_key();
    assert forall|i: int, j: int| 0 <= i < j < index.len() implies (#[trigger] index[i]).start_time.le(
        (#[trigger] index[j]).start_time,
    ) by {
        assert(key(index[i]) <= key(index[j]));
        index[i].start_time.lemma_key_orders(index[j].start_time);
    }
}

/// Articles have one index: what the index page lists is fixed by the
/// articles and the order in which they were collected.
pub proof fn lemma_index_unique(
    first: Seq<TrackArticle>,
    second: Seq<TrackArticle>,
    articles: Seq<TrackArticle>,
)
    requires
        is_index_of(first, articles),
        is_index_of(second, articles),
    ensures
        first == second,
{
    let key = start_key();
    assert forall|k: int| #[trigger] with_key(first, key, k) == with_key(second, key, k) by {
        assert(with_key(first, key, k) == with_key(articles, key, k));
    }
    lemma_stable_order_unique(first, second, key);
}

/// Orders the collected articles for the index page.
pub fn sort_articles(articles: &Vec<TrackArticle>) -> (index: Vec<TrackArticle>)
    ensures
        is_index_of(index@, articles@),
        index@.len() == articles@.len(),
        distinct_slugs(articles@) ==> distinct_slugs(index@),
{
    let ghost key = start_key();
    let mut index: Vec<TrackArticle> = Vec::new();
    let mut keys: Vec<i128> = Vec::new();
    let mut i: usize = 0;
    proof {
        assert(articles@.take(0) =~= index@);
    }
    while i < articles.len()
        invariant
            i <= articles@.len(),
            key == start_key(),
            index@.len() == i,
            keys_of(index@, keys@, key),
            stably_sorts(index@, articles@.take(i as int), key),
            forall|j: int|
                0 <= j < index@.len() ==> articles@.take(i as int).contains(#[trigger] index@[j]),
            distinct_slugs(articles@) ==> distinct_slugs(index@),
        decreases articles@.len() - i,
    {
        let article = &articles[i];
        let ghost before = index@;
        let ghost seen = articles@.take(i as int);
        let at = insert_stably(
            &mut index,
            &mut keys,
            article.clone(),
            article.start_time.sort_key(),
            Ghost(key),
        );
        proof {
            assert(articles@.take(i + 1) =~= seen.push(*article));
            assert forall|t: int| #[trigger]
                with_key(index@, key, t) == with_key(articles@.take(i + 1), key, t) by {
                lemma_with_key_push(seen, *article, key, t);
                assert(with_key(before, key, t) == with_key(seen, key, t));
            }
            assert forall|j: int| 0 <= j < index@.len() implies articles@.take(i + 1).contains(
                #[trigger] index@[j],
            ) by {
                if j == at {
                    assert(articles@.take(i + 1)[i as int] == index@[j]);
                } else {
                    let b = if j < at {
                        j
                    } else {
                        j - 1
                    };
                    assert(index@[j] == before[b]);
                    let c = choose|c: int| 0 <= c < seen.len() && seen[c] == before[b];
                    assert(articles@.take(i + 1)[c] == index@[j]);
                }
            }
            if distinct_slugs(articles@) {
                assert forall|a: int, b: int| 0 <= a < b < index@.len() implies (
                #[trigger] index@[a]).underscored_title@ != (
                #[trigger] index@[b]).underscored_title@ by {
                    let pa = if a < at {
                        a
                    } else {
                        a - 1
                    };
                    let pb = if b < at {
                        b
                    } else {
                        b - 1
                    };
                    if a == at {
                        assert(index@[b] == before[pb]);
                        let c = choose|c: int| 0 <= c < seen.len() && seen[c] == before[pb];
                        assert(articles@[c] == index@[b] && articles@[i as int] == index@[a]);
                    } else if b == at {
                        assert(index@[a] == before[pa]);
                        let c = choose|c: int| 0 <= c < seen.len() && seen[c] == before[pa];
                        assert(articles@[c] == index@[a] && articles@[i as int] == index@[b]);
                    } else {
                        assert(index@[a] == before[pa] && index@[b] == before[pb]);
                    }
                }
            }
        }
        i += 1;
    }
    assert(articles@.take(articles@.len() as int) =~= articles@);
    index
}

} // verus!
