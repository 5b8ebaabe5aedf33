//! Stable ordering by an integer key, stated once for photos and articles.
//!
//! An output sorts an input stably when its keys never fall and when, for
//! every key, the items with that key are the same in both, in the same
//! order. The two conditions leave exactly one output for each input.

use vstd::prelude::*;

verus! {

/// The items of `s` whose key is `k`, in the order in which they stand in `s`.
pub open spec fn with_key<T>(s: Seq<T>, key: spec_fn(T) -> int, k: int) -> Seq<T> {
    s.filter(|x: T| key(x) == k)
}

/// Whether the keys of `s` never fall from one item to the next.
pub open spec fn ordered_by<T>(s: Seq<T>, key: spec_fn(T) -> int) -> bool {
    forall|i: int, j: int| 0 <= i < j < s.len() ==> key(s[i]) <= key(s[j])
}

/// Whether `out` is `input` sorted by key, with items of equal key left in
/// the order of `input`.
pub open spec fn stably_sorts<T>(out: Seq<T>, input: Seq<T>, key: spec_fn(T) -> int) -> bool {
    &&& ordered_by(out, key)
    &&& forall|k: int| #[trigger] with_key(out, key, k) == with_key(input, key, k)
}

/// Whether no two items of `s` share a key.
pub open spec fn distinct_keys<T>(s: Seq<T>, key: spec_fn(T) -> int) -> bool {
    forall|i: int, j: int| 0 <= i < j < s.len() ==> key(s[i]) != key(s[j])
}

/// Nothing has any key in an empty sequence.
pub proof fn lemma_with_key_empty<T>(key: spec_fn(T) -> int, k: int)
    ensures
        with_key(Seq::<T>::empty(), key, k) == Seq::<T>::empty(),
{
    reveal(Seq::filter);
}

/// Appending an item appends it to the items of its own key and touches no
/// other key.
pub proof fn lemma_with_key_push<T>(s: Seq<T>, x: T, key: spec_fn(T) -> int, k: int)
    ensures
        with_key(s.push(x), key, k) == if key(x) == k {
            with_key(s, key, k).push(x)
        } else {
            with_key(s, key, k)
        },
{
    reveal(Seq::filter);
    assert(s.push(x).drop_last() =~= s);
}

/// The items with key `k` are items of `s`, and each has key `k`.
pub proof fn lemma_with_key_members<T>(s: Seq<T>, key: spec_fn(T) -> int, k: int)
    ensures
        forall|i: int|
            0 <= i < with_key(s, key, k).len() ==> key(#[trigger] with_key(s, key, k)[i]) == k
                && s.contains(with_key(s, key, k)[i]),
        forall|i: int| 0 <= i < s.len() && key(s[i]) == k ==> with_key(s, key, k).contains(#[trigger] s[i]),
    decreases s.len(),
{
    if s.len() == 0 {
        lemma_with_key_empty(key, k);
        assert(s =~= Seq::<T>::empty());
    } else {
        let rest = s.drop_last();
        let x = s.last();
        lemma_with_key_members(rest, key, k);
        lemma_with_key_push(rest, x, key, k);
        assert(rest.push(x) =~= s);
        let f = with_key(s, key, k);
        let g = with_key(rest, key, k);
        assert forall|i: int| 0 <= i < f.len() implies key(#[trigger] f[i]) == k && s.contains(
            f[i],
        ) by {
            if i < g.len() {
                assert(f[i] == g[i]);
                let j = choose|j: int| 0 <= j < rest.len() && rest[j] == g[i];
                assert(s[j] == g[i]);
            } else {
                assert(f[i] == x);
                assert(s[s.len() - 1] == x);
            }
        }
        assert forall|i: int| 0 <= i < s.len() && key(s[i]) == k implies f.contains(
            #[trigger] s[i],
        ) by {
            if i < rest.len() {
                assert(rest[i] == s[i]);
                let j = choose|j: int| 0 <= j < g.len() && g[j] == rest[i];
                assert(f[j] == s[i]);
            } else {
                assert(f[f.len() - 1] == s[i]);
            }
        }
    }
}

/// Putting `x` in front of items that all have greater keys appends it to the
/// items of its own key and touches no other key.
pub proof fn lemma_with_key_insert<T>(s: Seq<T>, at: int, x: T, key: spec_fn(T) -> int, k: int)
    requires
        0 <= at <= s.len(),
        forall|j: int| at <= j < s.len() ==> key(s[j]) != key(x),
    ensures
        with_key(s.insert(at, x), key, k) == if key(x) == k {
            with_key(s, key, k).push(x)
        } else {
            with_key(s, key, k)
        },
    decreases s.len() - at,
{
    if at == s.len() {
        assert(s.insert(at, x) =~= s.push(x));
        lemma_with_key_push(s, x, key, k);
    } else {
        let rest = s.drop_last();
        let y = s.last();
        assert(s.insert(at, x) =~= rest.insert(at, x).push(y));
        assert(rest.push(y) =~= s);
        lemma_with_key_insert(rest, at, x, key, k);
        lemma_with_key_push(rest.insert(at, x), y, key, k);
        lemma_with_key_push(rest, y, key, k);
        assert(key(y) != key(x));
        if key(x) == k {
            assert(with_key(s.insert(at, x), key, k) == with_key(rest, key, k).push(x));
        }
    }
}

/// Where no two items share a key, at most one item has any given key.
pub proof fn lemma_distinct_keys_single<T>(s: Seq<T>, key: spec_fn(T) -> int, k: int)
    requires
        distinct_keys(s, key),
    ensures
        with_key(s, key, k).len() <= 1,
    decreases s.len(),
{
    if s.len() == 0 {
        lemma_with_key_empty(key, k);
        assert(s =~= Seq::<T>::empty());
    } else {
        let rest = s.drop_last();
        let x = s.last();
        assert(rest.push(x) =~= s);
        lemma_with_key_push(rest, x, key, k);
        lemma_distinct_keys_single(rest, key, k);
        if key(x) == k && with_key(rest, key, k).len() > 0 {
            lemma_with_key_members(rest, key, k);
            let y = with_key(rest, key, k)[0];
            let j = choose|j: int| 0 <= j < rest.len() && rest[j] == y;
            assert(key(s[j]) == key(s[s.len() - 1]));
        }
    }
}

/// An item occurs among the items of its own key as often as in the whole
/// sequence, and not at all among those of another key.
pub proof fn lemma_with_key_count<T>(s: Seq<T>, key: spec_fn(T) -> int, k: int, x: T)
    ensures
        with_key(s, key, k).to_multiset().count(x) == if key(x) == k {
            s.to_multiset().count(x)
        } else {
            0
        },
    decreases s.len(),
{
    broadcast use vstd::seq_lib::group_to_multiset_ensures;

    if s.len() == 0 {
        lemma_with_key_empty(key, k);
        assert(s =~= Seq::<T>::empty());
    } else {
        let rest = s.drop_last();
        let y = s.last();
        assert(rest.push(y) =~= s);
        lemma_with_key_push(rest, y, key, k);
        lemma_with_key_count(rest, key, k, x);
        rest.to_multiset_ensures();
        with_key(rest, key, k).to_multiset_ensures();
        assert(rest.push(y).to_multiset() =~= rest.to_multiset().insert(y));
        if key(y) == k {
            assert(with_key(rest, key, k).push(y).to_multiset() =~= with_key(
                rest,
                key,
                k,
            ).to_multiset().insert(y));
        }
    }
}

/// Two sequences with the same items, of which one has no two items with
/// the same key, hold the same items under every key.
pub proof fn lemma_with_key_of_permutation<T>(a: Seq<T>, b: Seq<T>, key: spec_fn(T) -> int, k: int)
    requires
        a.to_multiset() == b.to_multiset(),
        distinct_keys(a, key),
    ensures
        with_key(a, key, k) == with_key(b, key, k),
{
    let fa = with_key(a, key, k);
    let fb = with_key(b, key, k);
    lemma_distinct_keys_single(a, key, k);
    assert forall|x: T| fa.to_multiset().count(x) == fb.to_multiset().count(x) by {
        lemma_with_key_count(a, key, k, x);
        lemma_with_key_count(b, key, k, x);
    }
    assert(fa.to_multiset() =~= fb.to_multiset());
    fa.to_multiset_ensures();
    fb.to_multiset_ensures();
    assert(fa.len() == fb.len());
    if fa.len() == 1 {
        assert(fb.contains(fb[0]));
        assert(fb.to_multiset().count(fb[0]) > 0);
        assert(fa.to_multiset().count(fb[0]) > 0);
        assert(fa.contains(fb[0]));
        assert(fa[0] == fb[0]);
    }
    assert(fa =~= fb);
}

/// At most one sequence is ordered and holds given items under every key:
/// a stable sort has one result.
pub proof fn lemma_stable_order_unique<T>(a: Seq<T>, b: Seq<T>, key: spec_fn(T) -> int)
    requires
        ordered_by(a, key),
        ordered_by(b, key),
        forall|k: int| #[trigger] with_key(a, key, k) == with_key(b, key, k),
    ensures
        a == b,
    decreases a.len(),
{
    if a.len() == 0 {
        if b.len() > 0 {
            let kb = key(b.last());
            lemma_with_key_members(b, key, kb);
            assert(with_key(b, key, kb).contains(b[b.len() - 1]));
            assert(with_key(a, key, kb) == with_key(b, key, kb));
            assert(a =~= Seq::<T>::empty());
            lemma_with_key_empty::<T>(key, kb);
        }
        assert(a =~= b);
    } else {
        let ka = key(a.last());
        lemma_with_key_members(a, key, ka);
        assert(with_key(a, key, ka).contains(a[a.len() - 1]));
        assert(with_key(b, key, ka) == with_key(a, key, ka));
        lemma_with_key_members(b, key, ka);
        let w = with_key(b, key, ka)[0];
        assert(b.contains(w) && key(w) == ka);
        assert(b.len() > 0);
        let kb = key(b.last());
        let jb = choose|j: int| 0 <= j < b.len() && b[j] == w;
        assert(ka <= kb);
        lemma_with_key_members(b, key, kb);
        assert(with_key(b, key, kb).contains(b[b.len() - 1]));
        assert(with_key(a, key, kb) == with_key(b, key, kb));
        lemma_with_key_members(a, key, kb);
        let v = with_key(a, key, kb)[0];
        let ja = choose|j: int| 0 <= j < a.len() && a[j] == v;
        assert(kb <= ka);
        let ra = a.drop_last();
        let rb = b.drop_last();
        assert(ra.push(a.last()) =~= a);
        assert(rb.push(b.last()) =~= b);
        lemma_with_key_push(ra, a.last(), key, ka);
        lemma_with_key_push(rb, b.last(), key, ka);
        assert(with_key(a, key, ka).last() == a.last());
        assert(with_key(b, key, ka).last() == b.last());
        assert(a.last() == b.last());
        assert forall|k: int| #[trigger] with_key(ra, key, k) == with_key(rb, key, k) by {
            lemma_with_key_push(ra, a.last(), key, k);
            lemma_with_key_push(rb, b.last(), key, k);
            assert(with_key(a, key, k) == with_key(b, key, k));
            if k == ka {
                assert(with_key(ra, key, k) =~= with_key(a, key, k).drop_last());
                assert(with_key(rb, key, k) =~= with_key(b, key, k).drop_last());
            }
        }
        assert(ordered_by(ra, key)) by {
            assert forall|i: int, j: int| 0 <= i < j < ra.len() implies key(ra[i]) <= key(
                ra[j],
            ) by {
                assert(ra[i] == a[i] && ra[j] == a[j]);
            }
        }
        assert(ordered_by(rb, key)) by {
            assert forall|i: int, j: int| 0 <= i < j < rb.len() implies key(rb[i]) <= key(
                rb[j],
            ) by {
                assert(rb[i] == b[i] && rb[j] == b[j]);
            }
        }
        lemma_stable_order_unique(ra, rb, key);
        assert(a =~= b);
    }
}

/// A stable sort keeps every item, as often as it stood in the input.
pub proof fn lemma_stable_sort_permutes<T>(out: Seq<T>, input: Seq<T>, key: spec_fn(T) -> int)
    requires
        stably_sorts(out, input, key),
    ensures
        out.to_multiset() == input.to_multiset(),
{
    assert forall|x: T| out.to_multiset().count(x) == input.to_multiset().count(x) by {
        let k = key(x);
        lemma_with_key_count(out, key, k, x);
        lemma_with_key_count(input, key, k, x);
        assert(with_key(out, key, k) == with_key(input, key, k));
    }
    assert(out.to_multiset() =~= input.to_multiset());
}

/// Whether `keys` never fall from one entry to the next.
pub open spec fn keys_ordered(keys: Seq<i128>) -> bool {
    forall|i: int, j: int| 0 <= i < j < keys.len() ==> keys[i] <= keys[j]
}

/// Finds where an item of key `k` goes in a list with the ordered keys
/// `keys`: behind every key up to `k`, in front of every greater one.
pub fn insertion_point(keys: &Vec<i128>, k: i128) -> (at: usize)
    requires
        keys_ordered(keys@),
    ensures
        at <= keys@.len(),
        forall|j: int| 0 <= j < at ==> keys@[j] <= k,
        forall|j: int| at <= j < keys@.len() ==> keys@[j] > k,
{
    let mut at: usize = keys.len();
    while at > 0 && keys[at - 1] > k
        invariant
            at <= keys@.len(),
            keys_ordered(keys@),
            forall|j: int| at <= j < keys@.len() ==> keys@[j] > k,
        decreases at,
    {
        at -= 1;
    }
    at
}

/// Whether `keys` holds the key of each item of `items`, in the order of the
/// items.
pub open spec fn keys_of<T>(items: Seq<T>, keys: Seq<i128>, key: spec_fn(T) -> int) -> bool {
    &&& keys.len() == items.len()
    &&& forall|j: int| 0 <= j < items.len() ==> keys[j] == key(#[trigger] items[j])
}

/// Puts `item`, whose key is `k`, into the ordered list `items`, behind the
/// items of its own key and in front of every item of a greater one, and
/// its key at the same place into `keys`. The list stays ordered, the item
/// is the last of its key, and no other key is touched.
pub fn insert_stably<T>(
    items: &mut Vec<T>,
    keys: &mut Vec<i128>,
    item: T,
    k: i128,
    Ghost(key): Ghost<spec_fn(T) -> int>,
) -> (at: usize)
    requires
        keys_of(old(items)@, old(keys)@, key),
        ordered_by(old(items)@, key),
        key(item) == k,
    ensures
        at <= old(items)@.len(),
        final(items)@ == old(items)@.insert(at as int, item),
        keys_of(final(items)@, final(keys)@, key),
        ordered_by(final(items)@, key),
        forall|t: int| #[trigger]
            with_key(final(items)@, key, t) == if t == k {
                with_key(old(items)@, key, t).push(item)
            } else {
                with_key(old(items)@, key, t)
            },
{
    let ghost before = items@;
    assert(keys_ordered(keys@)) by {
        assert forall|i: int, j: int| 0 <= i < j < keys@.len() implies keys@[i] <= keys@[j] by {
            assert(key(before[i]) <= key(before[j]));
        }
    }
    let at = insertion_point(keys, k);
    keys.insert(at, k);
    items.insert(at, item);
    proof {
        assert forall|j: int| 0 <= j < items@.len() implies keys@[j] == key(
            #[trigger] items@[j],
        ) by {
            if j < at {
                assert(items@[j] == before[j]);
            } else if j > at {
                assert(items@[j] == before[j - 1]);
            }
        }
        assert forall|i: int, j: int| 0 <= i < j < items@.len() implies key(items@[i]) <= key(
            items@[j],
        ) by {
            assert(keys@[i] == key(items@[i]) && keys@[j] == key(items@[j]));
            if j < at {
                assert(key(before[i]) <= key(before[j]));
            } else if i > at {
                assert(key(before[i - 1]) <= key(before[j - 1]));
            } else if i < at && j > at {
                assert(key(before[i]) <= key(before[j - 1]));
            }
        }
        assert forall|t: int| #[trigger]
            with_key(items@, key, t) == if t == k {
                with_key(before, key, t).push(item)
            } else {
                with_key(before, key, t)
            } by {
            assert forall|j: int| at <= j < before.len() implies key(before[j]) != key(item) by {
                assert(keys@[j + 1] == key(items@[j + 1]));
                assert(items@[j + 1] == before[j]);
            }
            lemma_with_key_insert(before, at as int, item, key, t);
        }
    }
    at
}

} // verus!
