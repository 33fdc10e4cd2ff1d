//! The bounded, recency-ordered store under the cache, and the model the
//! cache's contracts are stated over: a sequence of keyed entries that runs
//! from the least recently written to the most recently written.

use vstd::prelude::*;
use crate::model::{CachedData, EntryView};

verus! {

/// Largest number of entries a store can be made for.
pub const MAX_STORE_ENTRIES: usize = 16_777_216;

#[verifier::external_type_specification]
#[verifier::external_body]
#[verifier::reject_recursive_types(K)]
#[verifier::reject_recursive_types(V)]
#[verifier::reject_recursive_types(S)]
pub struct ExLruCache<K, V, S>(lru::LruCache<K, V, S>);

#[verifier::external_type_specification]
#[verifier::external_body]
pub struct ExDefaultHasher(lru::DefaultHasher);

/// A keyed entry of the model.
pub type Slot = (Seq<char>, EntryView);

/// What a store holds, oldest write first.
pub uninterp spec fn lru_entries(c: lru::LruCache<String, CachedData>) -> Seq<Slot>;

/// The number of entries a store was made for.
pub uninterp spec fn lru_limit(c: lru::LruCache<String, CachedData>) -> nat;

/// Some entry of `s` has the key `k`.
pub open spec fn holds_key(s: Seq<Slot>, k: Seq<char>) -> bool {
    exists|i: int| 0 <= i < s.len() && (#[trigger] s[i]).0 == k
}

/// No key occurs twice in `s`.
pub open spec fn keys_distinct(s: Seq<Slot>) -> bool {
    forall|i: int, j: int| 0 <= i < j < s.len() ==> (#[trigger] s[i]).0 != (#[trigger] s[j]).0
}

/// A place in `s` where the key `k` stands, if there is one.
pub open spec fn key_index(s: Seq<Slot>, k: Seq<char>) -> int {
    choose|i: int| 0 <= i < s.len() && (#[trigger] s[i]).0 == k
}

/// The entry under `k`, if any.
pub open spec fn lookup(s: Seq<Slot>, k: Seq<char>) -> Option<EntryView> {
    if holds_key(s, k) {
        Some(s[key_index(s, k)].1)
    } else {
        None
    }
}

/// `s` without the entry under `k`.
pub open spec fn without_key(s: Seq<Slot>, k: Seq<char>) -> Seq<Slot> {
    if holds_key(s, k) {
        s.remove(key_index(s, k))
    } else {
        s
    }
}

/// `s` after `(k, v)` is written to a store made for `limit` entries: a
/// write to a key that is there replaces its entry and makes it the newest;
/// a write of a new key to a full store first drops the oldest entry.
pub open spec fn written(s: Seq<Slot>, k: Seq<char>, v: EntryView, limit: nat) -> Seq<Slot> {
    if holds_key(s, k) {
        without_key(s, k).push((k, v))
    } else if s.len() == limit {
        s.skip(1).push((k, v))
    } else {
        s.push((k, v))
    }
}

/// The entry that a write of the key `k` displaces, if any.
pub open spec fn displaced(s: Seq<Slot>, k: Seq<char>, limit: nat) -> Option<EntryView> {
    if holds_key(s, k) {
        lookup(s, k)
    } else if s.len() == limit && s.len() > 0 {
        Some(s[0].1)
    } else {
        None
    }
}

/// A write of `(k, v)` found `k` in `before` with the entry `gone`, took
/// that entry out and put the new one in as the newest.
pub open spec fn replaced_by_push(
    before: Seq<Slot>,
    after: Seq<Slot>,
    k: Seq<char>,
    v: EntryView,
    gone: EntryView,
) -> bool {
    exists|i: int|
        0 <= i < before.len() && #[trigger] before[i] == (k, gone) && after == before.remove(i).push(
            (k, v),
        )
}

/// A write of `(k, v)` did not find `k` in `before`, which was full, took
/// out its oldest entry, `gone`, and put the new one in as the newest.
pub open spec fn evicted_by_push(
    before: Seq<Slot>,
    after: Seq<Slot>,
    limit: nat,
    k: Seq<char>,
    v: EntryView,
    gone: EntryView,
) -> bool {
    &&& !holds_key(before, k)
    &&& before.len() == limit
    &&& before.len() > 0
    &&& gone == before[0].1
    &&& after == before.skip(1).push((k, v))
}

/// View of an optional entry.
pub open spec fn entry_of(e: Option<CachedData>) -> Option<EntryView> {
    match e {
        Some(d) => Some(d@),
        None => None,
    }
}

/// `LruCache::new`: an empty store for `cap` entries. The bound on `cap`
/// keeps the table that the crate allocates at once within what its size
/// arithmetic accepts.
#[verifier::external_body]
pub(crate) fn lru_new(cap: usize) -> (c: lru::LruCache<String, CachedData>)
    requires
        1 <= cap <= MAX_STORE_ENTRIES,
    ensures
        lru_entries(c) == Seq::<Slot>::empty(),
        lru_limit(c) == cap,
{
    lru::LruCache::new(std::num::NonZeroUsize::new(cap).unwrap())
}

/// `LruCache::len`: the number of entries held.
#[verifier::external_body]
pub(crate) fn lru_len(c: &lru::LruCache<String, CachedData>) -> (n: usize)
    ensures
        n == lru_entries(*c).len(),
{
    c.len()
}

/// `LruCache::is_empty`.
#[verifier::external_body]
pub(crate) fn lru_is_empty(c: &lru::LruCache<String, CachedData>) -> (b: bool)
    ensures
        b == (lru_entries(*c).len() == 0),
{
    c.is_empty()
}

/// `LruCache::peek`: the entry under `key`, found without any change to the
/// order of the store.
#[verifier::external_body]
pub(crate) fn lru_peek<'a>(c: &'a lru::LruCache<String, CachedData>, key: &str) -> (r: Option<
    &'a CachedData,
>)
    ensures
        match r {
            Some(d) => exists|i: int|
                0 <= i < lru_entries(*c).len() && #[trigger] lru_entries(*c)[i] == (key@, d@),
            None => !holds_key(lru_entries(*c), key@),
        },
{
    c.peek(key)
}

/// `LruCache::push`: writes the entry as the newest. Where the key was
/// there, its old entry leaves and is returned; else, where the store is
/// full, the oldest entry leaves and is returned; else nothing leaves.
#[verifier::external_body]
pub(crate) fn lru_push(c: &mut lru::LruCache<String, CachedData>, key: String, data: CachedData) -> (r:
    Option<CachedData>)
    ensures
        lru_limit(*final(c)) == lru_limit(*old(c)),
        match r {
            Some(d) => replaced_by_push(lru_entries(*old(c)), lru_entries(*final(c)), key@, data@, d@)
                || evicted_by_push(
                lru_entries(*old(c)),
                lru_entries(*final(c)),
                lru_limit(*old(c)),
                key@,
                data@,
                d@,
            ),
            None => !holds_key(lru_entries(*old(c)), key@) && lru_entries(*old(c)).len()
                != lru_limit(*old(c)) && lru_entries(*final(c)) == lru_entries(*old(c)).push(
                (key@, data@),
            ),
        },
{
    c.push(key, data).map(|kv| kv.1)
}

/// `LruCache::pop`: takes out the entry under `key` and returns it; the
/// others keep their order.
#[verifier::external_body]
pub(crate) fn lru_pop(c: &mut lru::LruCache<String, CachedData>, key: &str) -> (r: Option<
    CachedData,
>)
    ensures
        lru_limit(*final(c)) == lru_limit(*old(c)),
        match r {
            Some(d) => exists|i: int|
                0 <= i < lru_entries(*old(c)).len() && #[trigger] lru_entries(*old(c))[i] == (
                    key@,
                    d@,
                ) && lru_entries(*final(c)) == lru_entries(*old(c)).remove(i),
            None => !holds_key(lru_entries(*old(c)), key@) && lru_entries(*final(c))
                == lru_entries(*old(c)),
        },
{
    c.pop(key)
}

/// `LruCache::pop_lru`: takes out the oldest entry and returns it.
#[verifier::external_body]
pub(crate) fn lru_pop_lru(c: &mut lru::LruCache<String, CachedData>) -> (r: Option<
    (String, CachedData),
>)
    ensures
        lru_limit(*final(c)) == lru_limit(*old(c)),
        match r {
            Some(kv) => lru_entries(*old(c)).len() > 0 && lru_entries(*old(c))[0] == (
                kv.0@,
                kv.1@,
            ) && lru_entries(*final(c)) == lru_entries(*old(c)).skip(1),
            None => lru_entries(*old(c)).len() == 0 && lru_entries(*final(c)) == lru_entries(
                *old(c),
            ),
        },
{
    c.pop_lru()
}

/// `LruCache::clear`: takes out every entry.
#[verifier::external_body]
pub(crate) fn lru_clear(c: &mut lru::LruCache<String, CachedData>)
    ensures
        lru_limit(*final(c)) == lru_limit(*old(c)),
        lru_entries(*final(c)) == Seq::<Slot>::empty(),
{
    c.clear()
}

/// `LruCache::iter`, of which the keys are kept: the keys of the store, the
/// newest first.
#[verifier::external_body]
pub(crate) fn lru_keys(c: &lru::LruCache<String, CachedData>) -> (r: Vec<String>)
    ensures
        r@.len() == lru_entries(*c).len(),
        forall|i: int|
            0 <= i < r@.len() ==> (#[trigger] r@[i])@ == lru_entries(*c)[r@.len() - 1 - i].0,
{
    c.iter().map(|kv| kv.0.clone()).collect()
}

/// The counted bytes of all entries of `s` together.
pub open spec fn total_weight(s: Seq<Slot>) -> nat
    decreases s.len(),
{
    if s.len() == 0 {
        0
    } else {
        total_weight(s.drop_last()) + s.last().1.weight() as nat
    }
}

/// `s` after its oldest entries are dropped, one by one, until the counted
/// bytes of the rest are at most `target`.
pub open spec fn evicted(s: Seq<Slot>, target: nat) -> Seq<Slot>
    decreases s.len(),
{
    if s.len() == 0 || total_weight(s) <= target {
        s
    } else {
        evicted(s.skip(1), target)
    }
}

/// The entries of `s` that are not stale at `at`, in their order.
pub open spec fn unexpired(s: Seq<Slot>, at: crate::clock::Timestamp) -> Seq<Slot> {
    s.filter(|e: Slot| !e.1.expired_at(at))
}

pub proof fn total_weight_push(s: Seq<Slot>, e: Slot)
    ensures
        total_weight(s.push(e)) == total_weight(s) + e.1.weight(),
{
    assert(s.push(e).drop_last() =~= s);
}

pub proof fn total_weight_remove(s: Seq<Slot>, i: int)
    requires
        0 <= i < s.len(),
    ensures
        total_weight(s.remove(i)) + s[i].1.weight() == total_weight(s),
    decreases s.len(),
{
    if i == s.len() - 1 {
        assert(s.remove(i) =~= s.drop_last());
    } else {
        total_weight_remove(s.drop_last(), i);
        assert(s.remove(i).drop_last() =~= s.drop_last().remove(i));
        assert(s.remove(i).last() == s.last());
    }
}

pub proof fn total_weight_skip(s: Seq<Slot>)
    requires
        s.len() > 0,
    ensures
        total_weight(s.skip(1)) + s[0].1.weight() == total_weight(s),
{
    total_weight_remove(s, 0);
    assert(s.remove(0) =~= s.skip(1));
}

/// Where no key occurs twice, the place of a key is the one place it has.
pub proof fn key_index_unique(s: Seq<Slot>, i: int)
    requires
        keys_distinct(s),
        0 <= i < s.len(),
    ensures
        holds_key(s, s[i].0),
        key_index(s, s[i].0) == i,
        lookup(s, s[i].0) == Some(s[i].1),
        without_key(s, s[i].0) == s.remove(i),
{
    let k = s[i].0;
    assert(holds_key(s, k));
    let j = key_index(s, k);
    assert(0 <= j < s.len() && s[j].0 == k);
    if j < i {
        assert(s[j].0 != s[i].0);
    }
    if i < j {
        assert(s[i].0 != s[j].0);
    }
}

pub proof fn keys_distinct_remove(s: Seq<Slot>, i: int)
    requires
        keys_distinct(s),
        0 <= i < s.len(),
    ensures
        keys_distinct(s.remove(i)),
        !holds_key(s.remove(i), s[i].0),
{
    let r = s.remove(i);
    assert forall|a: int, b: int| 0 <= a < b < r.len() implies (#[trigger] r[a]).0 != (
    #[trigger] r[b]).0 by {
        let a2 = if a < i { a } else { a + 1 };
        let b2 = if b < i { b } else { b + 1 };
        assert(r[a] == s[a2] && r[b] == s[b2]);
        assert(s[a2].0 != s[b2].0);
    }
    assert forall|a: int| 0 <= a < r.len() implies (#[trigger] r[a]).0 != s[i].0 by {
        let a2 = if a < i { a } else { a + 1 };
        assert(r[a] == s[a2]);
        if a2 < i {
            assert(s[a2].0 != s[i].0);
        } else {
            assert(s[i].0 != s[a2].0);
        }
    }
}

pub proof fn keys_distinct_push(s: Seq<Slot>, e: Slot)
    requires
        keys_distinct(s),
        !holds_key(s, e.0),
    ensures
        keys_distinct(s.push(e)),
{
    let r = s.push(e);
    assert forall|a: int, b: int| 0 <= a < b < r.len() implies (#[trigger] r[a]).0 != (
    #[trigger] r[b]).0 by {
        if b == s.len() {
            assert(r[a] == s[a]);
            assert(s[a].0 != e.0);
        } else {
            assert(r[a] == s[a] && r[b] == s[b]);
        }
    }
}

/// A write keeps the keys distinct, leaves the written entry as the newest
/// and findable under its key, and never makes the store longer than it was
/// made for.
pub proof fn written_facts(s: Seq<Slot>, k: Seq<char>, v: EntryView, limit: nat)
    requires
        keys_distinct(s),
        s.len() <= limit,
        limit >= 1,
    ensures
        keys_distinct(written(s, k, v, limit)),
        written(s, k, v, limit).len() <= limit,
        written(s, k, v, limit).len() >= 1,
        written(s, k, v, limit).last() == (k, v),
        lookup(written(s, k, v, limit), k) == Some(v),
        total_weight(written(s, k, v, limit)) + (match displaced(s, k, limit) {
            Some(d) => d.weight() as int,
            None => 0,
        }) == total_weight(s) + v.weight(),
{
    let w = written(s, k, v, limit);
    if holds_key(s, k) {
        let i = key_index(s, k);
        key_index_unique(s, i);
        keys_distinct_remove(s, i);
        keys_distinct_push(s.remove(i), (k, v));
        total_weight_remove(s, i);
        total_weight_push(s.remove(i), (k, v));
    } else if s.len() == limit {
        keys_distinct_remove(s, 0);
        assert(s.remove(0) =~= s.skip(1));
        assert(!holds_key(s.skip(1), k)) by {
            if holds_key(s.skip(1), k) {
                let j = key_index(s.skip(1), k);
                assert(s.skip(1)[j] == s[j + 1]);
                assert(s[j + 1].0 == k);
            }
        }
        keys_distinct_push(s.skip(1), (k, v));
        total_weight_skip(s);
        total_weight_push(s.skip(1), (k, v));
    } else {
        keys_distinct_push(s, (k, v));
        total_weight_push(s, (k, v));
    }
    key_index_unique(w, w.len() - 1);
}

/// Eviction drops a run of the oldest entries and nothing else, and what
/// it leaves is within the target.
pub proof fn evicted_facts(s: Seq<Slot>, target: nat)
    ensures
        exists|n: int| 0 <= n <= s.len() && evicted(s, target) == s.skip(n),
        total_weight(evicted(s, target)) <= target,
        total_weight(s) <= target ==> evicted(s, target) == s,
    decreases s.len(),
{
    if s.len() == 0 || total_weight(s) <= target {
        assert(s.skip(0) =~= s);
    } else {
        evicted_facts(s.skip(1), target);
        let n = choose|n: int| 0 <= n <= s.skip(1).len() && evicted(s.skip(1), target) == s.skip(
            1,
        ).skip(n);
        assert(s.skip(1).skip(n) =~= s.skip(n + 1));
    }
}

pub proof fn keys_distinct_skip(s: Seq<Slot>, n: int)
    requires
        keys_distinct(s),
        0 <= n <= s.len(),
    ensures
        keys_distinct(s.skip(n)),
{
    let r = s.skip(n);
    assert forall|a: int, b: int| 0 <= a < b < r.len() implies (#[trigger] r[a]).0 != (
    #[trigger] r[b]).0 by {
        assert(r[a] == s[a + n] && r[b] == s[b + n]);
        assert(s[a + n].0 != s[b + n].0);
    }
}

} // verus!
