//! The cache manager: a store bounded in entries, a budget in bytes that a
//! write enforces by evicting the oldest writes, and entries that go stale
//! after their minutes to live.

use vstd::prelude::*;
use crate::clock::{now, Timestamp};
use crate::error::AppError;
use crate::model::{clamp, CachedData, EntryView};
use crate::store::{
    displaced, entry_of, evicted, evicted_facts, holds_key, key_index, key_index_unique, keys_distinct,
    keys_distinct_remove, keys_distinct_skip, lookup, lru_clear, lru_entries, lru_is_empty,
    lru_keys, lru_len, lru_limit, lru_new, lru_peek, lru_pop, lru_pop_lru,
    lru_push, replaced_by_push, total_weight, total_weight_remove, total_weight_skip, unexpired, without_key,
    written, written_facts, Slot, MAX_STORE_ENTRIES,
};

verus! {

/// Entries that a manager made for none holds instead.
pub const DEFAULT_MAX_ENTRIES: usize = 100;

/// Bytes in the unit in which a budget is given.
pub const BYTES_PER_MB: usize = 1_048_576;

pub struct SecureCacheManager {
    store: lru::LruCache<String, CachedData>,
    max_size_bytes: usize,
    current_size_bytes: u128,
    session_id: String,
}

/// A snapshot of a manager.
#[derive(Clone, Debug)]
pub struct CacheStats {
    pub entry_count: usize,
    pub size_bytes: usize,
    pub max_size_bytes: usize,
    pub session_id: String,
}

/// The entry found under `k` at the time `at`: the one stored there, unless
/// it is stale.
pub open spec fn fresh_lookup(s: Seq<Slot>, k: Seq<char>, at: Timestamp) -> Option<EntryView> {
    match lookup(s, k) {
        Some(e) => if e.expired_at(at) {
            None
        } else {
            Some(e)
        },
        None => None,
    }
}

/// The store after a read of `k` at the time `at`: a stale entry under `k`
/// is gone, all else is as it was.
pub open spec fn after_read(s: Seq<Slot>, k: Seq<char>, at: Timestamp) -> Seq<Slot> {
    match lookup(s, k) {
        Some(e) => if e.expired_at(at) {
            without_key(s, k)
        } else {
            s
        },
        None => s,
    }
}

/// The store as a write of `weight` bytes finds it after the budget was
/// looked at: evicted down to half the budget where the write would go
/// beyond the budget, else untouched.
pub open spec fn after_budget_check(s: Seq<Slot>, weight: usize, max_size: usize) -> Seq<Slot> {
    if total_weight(s) + weight > max_size {
        evicted(s, (max_size / 2) as nat)
    } else {
        s
    }
}

/// Filtering a sequence that starts with `x` filters the rest and keeps or
/// drops `x`.
proof fn unexpired_front(s: Seq<Slot>, m: int, at: Timestamp)
    requires
        0 < m <= s.len(),
    ensures
        unexpired(s.skip(m - 1), at) == if s[m - 1].1.expired_at(at) {
            unexpired(s.skip(m), at)
        } else {
            seq![s[m - 1]] + unexpired(s.skip(m), at)
        },
{
    let pred = |e: Slot| !e.1.expired_at(at);
    let head = seq![s[m - 1]];
    assert(s.skip(m - 1) =~= head + s.skip(m));
    Seq::filter_distributes_over_add(head, s.skip(m), pred);
    reveal_with_fuel(Seq::filter, 2);
    assert(head.drop_last() =~= Seq::<Slot>::empty());
    assert(head.filter(pred) =~= if pred(s[m - 1]) {
        head
    } else {
        Seq::<Slot>::empty()
    });
    assert(Seq::<Slot>::empty() + unexpired(s.skip(m), at) =~= unexpired(s.skip(m), at));
}

/// `uuid::Uuid::new_v4`, printed: a random identifier in the hyphenated
/// form, which is 36 characters long.
#[verifier::external_body]
fn fresh_session_id() -> (r: String)
    ensures
        r@.len() == 36,
{
    uuid::Uuid::new_v4().to_string()
}

impl SecureCacheManager {
    /// What the store holds, oldest write first.
    pub closed spec fn entries(&self) -> Seq<Slot> {
        lru_entries(self.store)
    }

    /// The number of entries the store was made for.
    pub closed spec fn max_entries(&self) -> nat {
        lru_limit(self.store)
    }

    /// The budget in bytes.
    pub closed spec fn max_size(&self) -> usize {
        self.max_size_bytes
    }

    /// The bytes that the manager counts as stored. The count is kept in
    /// 128 bits, so that no write can take it out of range.
    pub closed spec fn tracked_size(&self) -> nat {
        self.current_size_bytes as nat
    }

    /// The identifier that the manager was given when it was made.
    pub closed spec fn session(&self) -> Seq<char> {
        self.session_id@
    }

    /// The manager is in order: no key is stored twice, the store holds no
    /// more than it was made for, and the counted bytes are those of the
    /// entries that are there.
    pub open spec fn wf(&self) -> bool {
        &&& keys_distinct(self.entries())
        &&& self.entries().len() <= self.max_entries()
        &&& 1 <= self.max_entries()
        &&& self.tracked_size() == total_weight(self.entries())
    }

    /// The budget, the room and the identifier of `self` are those of
    /// `other`.
    pub open spec fn same_setup(&self, other: &SecureCacheManager) -> bool {
        &&& self.max_entries() == other.max_entries()
        &&& self.max_size() == other.max_size()
        &&& self.session() == other.session()
    }

    /// An empty cache for `max_entries` entries (for 100 where that is 0)
    /// and `max_size_mb` times 1,048,576 bytes.
    pub fn new(max_entries: usize, max_size_mb: usize) -> (m: SecureCacheManager)
        requires
            max_entries <= MAX_STORE_ENTRIES,
            max_size_mb * BYTES_PER_MB <= usize::MAX,
        ensures
            m.wf(),
            m.entries() == Seq::<Slot>::empty(),
            m.tracked_size() == 0,
            m.max_entries() == if max_entries == 0 {
                DEFAULT_MAX_ENTRIES
            } else {
                max_entries
            },
            m.max_size() == max_size_mb * BYTES_PER_MB,
            m.session().len() == 36,
    {
        let capacity: usize = if max_entries == 0 {
            DEFAULT_MAX_ENTRIES
        } else {
            max_entries
        };
        SecureCacheManager {
            store: lru_new(capacity),
            max_size_bytes: max_size_mb * BYTES_PER_MB,
            current_size_bytes: 0,
            session_id: fresh_session_id(),
        }
    }

    /// The bytes counted for an entry.
    pub fn estimate_size(&self, data: &CachedData) -> (r: usize)
        ensures
            r == data@.weight(),
    {
        data.estimated_size()
    }

    /// Takes out the entry under `key`, if there is one, and says whether
    /// there was.
    pub fn remove(&mut self, key: &str) -> (r: bool)
        requires
            old(self).wf(),
        ensures
            final(self).wf(),
            final(self).same_setup(old(self)),
            r == holds_key(old(self).entries(), key@),
            final(self).entries() == without_key(old(self).entries(), key@),
    {
        let ghost before = self.entries();
        match lru_pop(&mut self.store, key) {
            Some(data) => {
                let size = data.estimated_size();
                proof {
                    let i = choose|i: int|
                        0 <= i < before.len() && #[trigger] before[i] == (key@, data@)
                            && self.entries() == before.remove(i);
                    key_index_unique(before, i);
                    keys_distinct_remove(before, i);
                    total_weight_remove(before, i);
                }
                self.current_size_bytes = self.current_size_bytes - size as u128;
                true
            },
            None => false,
        }
    }

    /// The entry under `key` as a read at the time `at` finds it. The
    /// order of the store is not touched; a stale entry counts as absent and
    /// is taken out.
    pub fn get_at(&mut self, key: &str, at: &Timestamp) -> (r: Option<CachedData>)
        requires
            old(self).wf(),
        ensures
            final(self).wf(),
            final(self).same_setup(old(self)),
            entry_of(r) == fresh_lookup(old(self).entries(), key@, *at),
            final(self).entries() == after_read(old(self).entries(), key@, *at),
    {
        let found: Option<CachedData> = match lru_peek(&self.store, key) {
            Some(d) => {
                proof {
                    let i = choose|i: int|
                        0 <= i < self.entries().len() && #[trigger] self.entries()[i] == (
                            key@,
                            d@,
                        );
                    key_index_unique(self.entries(), i);
                }
                Some(d.duplicate())
            },
            None => None,
        };
        match found {
            Some(d) => {
                if d.is_expired_at(at) {
                    self.remove(key);
                    None
                } else {
                    Some(d)
                }
            },
            None => None,
        }
    }

    /// The entry under `key` as a read finds it now, by the system clock.
    pub fn get(&mut self, key: &str) -> (r: Option<CachedData>)
        requires
            old(self).wf(),
        ensures
            final(self).wf(),
            final(self).same_setup(old(self)),
            exists|at: Timestamp|
                entry_of(r) == #[trigger] fresh_lookup(old(self).entries(), key@, at)
                    && final(self).entries() == after_read(old(self).entries(), key@, at),
    {
        let at = now();
        self.get_at(key, &at)
    }

    /// Takes out every entry and says how many there were.
    pub fn clear(&mut self) -> (r: usize)
        requires
            old(self).wf(),
        ensures
            final(self).wf(),
            final(self).same_setup(old(self)),
            r == old(self).entries().len(),
            final(self).entries() == Seq::<Slot>::empty(),
            final(self).tracked_size() == 0,
    {
        let count = lru_len(&self.store);
        lru_clear(&mut self.store);
        self.current_size_bytes = 0;
        count
    }

    /// A snapshot: entries held, bytes counted (held within `usize`), the
    /// budget, the identifier.
    pub fn get_stats(&self) -> (r: CacheStats)
        requires
            self.wf(),
        ensures
            r.entry_count == self.entries().len(),
            r.size_bytes == clamp(self.tracked_size()),
            r.size_bytes == clamp(total_weight(self.entries())),
            r.max_size_bytes == self.max_size(),
            r.session_id@ == self.session(),
    {
        let counted: usize = if self.current_size_bytes > usize::MAX as u128 {
            usize::MAX
        } else {
            self.current_size_bytes as usize
        };
        CacheStats {
            entry_count: lru_len(&self.store),
            size_bytes: counted,
            max_size_bytes: self.max_size_bytes,
            session_id: self.session_id.clone(),
        }
    }

    /// Evicts the oldest writes, one by one, until the counted bytes are at
    /// most half the budget.
    pub fn cleanup_lru(&mut self) -> (r: Result<(), AppError>)
        requires
            old(self).wf(),
        ensures
            final(self).wf(),
            final(self).same_setup(old(self)),
            r is Ok,
            final(self).entries() == evicted(old(self).entries(), (old(self).max_size() / 2) as nat),
            final(self).tracked_size() <= old(self).max_size() / 2,
    {
        let target: usize = self.max_size_bytes / 2;
        let ghost start = self.entries();
        let ghost setup = *self;
        while self.current_size_bytes > target as u128 && !lru_is_empty(&self.store)
            invariant
                self.wf(),
                self.same_setup(&setup),
                target == self.max_size_bytes / 2,
                evicted(self.entries(), target as nat) == evicted(start, target as nat),
            decreases self.entries().len(),
        {
            let ghost before = self.entries();
            match lru_pop_lru(&mut self.store) {
                Some(kv) => {
                    let size = kv.1.estimated_size();
                    proof {
                        total_weight_skip(before);
                        keys_distinct_skip(before, 1);
                    }
                    self.current_size_bytes = self.current_size_bytes - size as u128;
                },
                None => {},
            }
        }
        proof {
            evicted_facts(self.entries(), target as nat);
        }
        Ok(())
    }

    /// Writes `data` under `key` as the newest entry, and always succeeds.
    /// Where the write would take the counted bytes beyond the budget, the
    /// oldest writes are first evicted down to half the budget. The bytes
    /// of an entry that the write displaces leave the count.
    pub fn set(&mut self, key: String, data: CachedData) -> (r: Result<(), AppError>)
        requires
            old(self).wf(),
        ensures
            final(self).wf(),
            final(self).same_setup(old(self)),
            r is Ok,
            final(self).entries() == written(
                after_budget_check(old(self).entries(), data@.weight(), old(self).max_size()),
                key@,
                data@,
                old(self).max_entries(),
            ),
            old(self).tracked_size() + data@.weight() > old(self).max_size()
                ==> final(self).tracked_size() <= old(self).max_size() / 2 + data@.weight(),
            old(self).tracked_size() + data@.weight() <= old(self).max_size() || data@.weight()
                <= old(self).max_size() - old(self).max_size() / 2 ==> final(self).tracked_size()
                <= old(self).max_size(),
    {
        let data_size = data.estimated_size();
        let over: bool = match self.current_size_bytes.checked_add(data_size as u128) {
            Some(sum) => sum > self.max_size_bytes as u128,
            None => true,
        };
        if over {
            let _ = self.cleanup_lru();
        }
        let ghost base = self.entries();
        let ghost limit = self.max_entries();
        let ghost k = key@;
        let ghost v = data@;
        proof {
            written_facts(base, k, v, limit);
        }
        match lru_push(&mut self.store, key, data) {
            Some(gone) => {
                let gone_size = gone.estimated_size();
                proof {
                    if holds_key(base, k) {
                        assert(replaced_by_push(base, self.entries(), k, v, gone@));
                        let i = choose|i: int|
                            0 <= i < base.len() && #[trigger] base[i] == (k, gone@)
                                && self.entries() == base.remove(i).push((k, v));
                        key_index_unique(base, i);
                    }
                    assert(self.entries() == written(base, k, v, limit));
                    assert(displaced(base, k, limit) == Some(gone@));
                }
                self.current_size_bytes = self.current_size_bytes - gone_size as u128
                    + data_size as u128;
            },
            None => {
                proof {
                    assert(self.entries() == written(base, k, v, limit));
                    assert(displaced(base, k, limit) is None);
                }
                self.current_size_bytes = self.current_size_bytes + data_size as u128;
            },
        }
        Ok(())
    }

    /// Takes out every entry that is stale at the time `at` and says how
    /// many there were; the others keep their order.
    pub fn cleanup_expired_at(&mut self, at: &Timestamp) -> (r: usize)
        requires
            old(self).wf(),
        ensures
            final(self).wf(),
            final(self).same_setup(old(self)),
            final(self).entries() == unexpired(old(self).entries(), *at),
            r == old(self).entries().len() - final(self).entries().len(),
    {
        let keys = lru_keys(&self.store);
        let ghost start = self.entries();
        let ghost setup = *self;
        let n = keys.len();
        let mut count: usize = 0;
        let mut j: usize = 0;
        proof {
            assert(start.take(n as int) =~= start);
            assert(start.skip(n as int) =~= Seq::<Slot>::empty());
            reveal_with_fuel(Seq::filter, 1);
            assert(start + unexpired(start.skip(n as int), *at) =~= start);
        }
        while j < n
            invariant
                j <= n,
                n == keys@.len(),
                n == start.len(),
                self.wf(),
                self.same_setup(&setup),
                forall|i: int| 0 <= i < n ==> (#[trigger] keys@[i])@ == start[n - 1 - i].0,
                self.entries() == start.take(n - j) + unexpired(start.skip(n - j), *at),
                count + self.entries().len() == n,
            decreases n - j,
        {
            let ghost m: int = n - j;
            let ghost cur = self.entries();
            let ghost tail = unexpired(start.skip(m), *at);
            let key = keys[j].as_str();
            proof {
                assert(cur[m - 1] == start[m - 1]);
                assert(key@ == start[m - 1].0);
                key_index_unique(cur, m - 1);
                unexpired_front(start, m, *at);
            }
            let stale: bool = match lru_peek(&self.store, key) {
                Some(d) => {
                    proof {
                        let i = choose|i: int|
                            0 <= i < cur.len() && #[trigger] cur[i] == (key@, d@);
                        key_index_unique(cur, i);
                    }
                    d.is_expired_at(at)
                },
                None => false,
            };
            if stale {
                let gone = self.remove(key);
                proof {
                    assert(cur.remove(m - 1) =~= start.take(m - 1) + tail);
                }
                count = count + 1;
            } else {
                proof {
                    assert(cur =~= start.take(m - 1) + (seq![start[m - 1]] + tail));
                }
            }
            j = j + 1;
        }
        proof {
            assert(start.take(0) + unexpired(start.skip(0), *at) =~= unexpired(start.skip(0), *at));
            assert(start.skip(0) =~= start);
        }
        count
    }

    /// Takes out every entry that is stale now, by the system clock, and
    /// says how many there were.
    pub fn cleanup_expired(&mut self) -> (r: usize)
        requires
            old(self).wf(),
        ensures
            final(self).wf(),
            final(self).same_setup(old(self)),
            exists|at: Timestamp| final(self).entries() == #[trigger] unexpired(old(self).entries(), at),
            r == old(self).entries().len() - final(self).entries().len(),
    {
        let at = now();
        self.cleanup_expired_at(&at)
    }
}

/// Where every entry passes, filtering changes nothing.
proof fn unexpired_of_fresh(s: Seq<Slot>, at: Timestamp)
    requires
        forall|i: int| 0 <= i < s.len() ==> !(#[trigger] s[i]).1.expired_at(at),
    ensures
        unexpired(s, at) == s,
    decreases s.len(),
{
    reveal(Seq::filter);
    if s.len() > 0 {
        assert forall|i: int| 0 <= i < s.drop_last().len() implies !(
        #[trigger] s.drop_last()[i]).1.expired_at(at) by {
            assert(s.drop_last()[i] == s[i]);
        }
        unexpired_of_fresh(s.drop_last(), at);
        assert(!s[s.len() - 1].1.expired_at(at));
        assert(s.drop_last().push(s.last()) =~= s);
    }
}

/// An entry that was written is what a read of its key returns, as long as
/// it is not stale at the time of the read; and that read leaves the store
/// as the write left it.
pub proof fn read_after_write(
    s: Seq<Slot>,
    k: Seq<char>,
    v: EntryView,
    max_size: usize,
    limit: nat,
    at: Timestamp,
)
    requires
        keys_distinct(s),
        s.len() <= limit,
        limit >= 1,
        !v.expired_at(at),
    ensures
        ({
            let next = written(after_budget_check(s, v.weight(), max_size), k, v, limit);
            &&& fresh_lookup(next, k, at) == Some(v)
            &&& after_read(next, k, at) == next
        }),
{
    let base = after_budget_check(s, v.weight(), max_size);
    evicted_facts(s, (max_size / 2) as nat);
    let n = choose|n: int| 0 <= n <= s.len() && evicted(s, (max_size / 2) as nat) == s.skip(n);
    keys_distinct_skip(s, n);
    written_facts(base, k, v, limit);
}

/// A sweep leaves nothing for a second sweep at the same time: what the
/// first one kept, the second one keeps, and so it takes out no entry.
pub proof fn sweep_is_idempotent(s: Seq<Slot>, at: Timestamp)
    ensures
        unexpired(unexpired(s, at), at) == unexpired(s, at),
        unexpired(s, at).len() - unexpired(unexpired(s, at), at).len() == 0,
{
    let pred = |e: Slot| !e.1.expired_at(at);
    let kept = unexpired(s, at);
    assert forall|i: int| 0 <= i < kept.len() implies !(#[trigger] kept[i]).1.expired_at(at) by {
        s.lemma_filter_pred(pred, i);
    }
    unexpired_of_fresh(kept, at);
}

/// Eviction goes by the order of the writes: where the counted bytes are
/// beyond the target, the oldest write leaves first, and what stays is the
/// store without a run of its oldest writes. A read in between changes
/// nothing of this, since a read never moves an entry.
pub proof fn eviction_takes_oldest_first(s: Seq<Slot>, target: nat)
    requires
        keys_distinct(s),
        s.len() > 0,
        total_weight(s) > target,
    ensures
        exists|n: int| 1 <= n <= s.len() && evicted(s, target) == s.skip(n),
        !holds_key(evicted(s, target), s[0].0),
        total_weight(evicted(s, target)) <= target,
{
    evicted_facts(s, target);
    evicted_facts(s.skip(1), target);
    let n = choose|n: int|
        0 <= n <= s.skip(1).len() && evicted(s.skip(1), target) == s.skip(1).skip(n);
    assert(s.skip(1).skip(n) =~= s.skip(n + 1));
    let rest = s.skip(n + 1);
    assert(evicted(s, target) == rest);
    if holds_key(rest, s[0].0) {
        let j = key_index(rest, s[0].0);
        assert(rest[j] == s[j + n + 1]);
        assert(s[0].0 != s[j + n + 1].0);
    }
}

/// A read of an entry that is not stale moves nothing: the store and its
/// order are what they were.
pub proof fn read_keeps_order(s: Seq<Slot>, k: Seq<char>, at: Timestamp)
    requires
        fresh_lookup(s, k, at) is Some,
    ensures
        after_read(s, k, at) == s,
{
}

/// A write that would go beyond the budget first brings the counted bytes
/// down to half the budget, so that after it they are at most half the
/// budget and the new entry; they are within the budget again wherever the
/// new entry fits into the other half.
pub proof fn write_restores_budget(
    s: Seq<Slot>,
    k: Seq<char>,
    v: EntryView,
    max_size: usize,
    limit: nat,
)
    requires
        keys_distinct(s),
        s.len() <= limit,
        limit >= 1,
        total_weight(s) + v.weight() > max_size,
    ensures
        ({
            let base = after_budget_check(s, v.weight(), max_size);
            let next = written(base, k, v, limit);
            &&& total_weight(base) <= max_size / 2
            &&& total_weight(next) <= max_size / 2 + v.weight()
            &&& v.weight() <= max_size - max_size / 2 ==> total_weight(next) <= max_size
        }),
{
    let base = after_budget_check(s, v.weight(), max_size);
    evicted_facts(s, (max_size / 2) as nat);
    let n = choose|n: int| 0 <= n <= s.len() && evicted(s, (max_size / 2) as nat) == s.skip(n);
    keys_distinct_skip(s, n);
    written_facts(base, k, v, limit);
}

/// A write of a new key takes the oldest writes first: what it leaves of
/// the store is the store without a run of its oldest entries, so that an
/// entry is still there only if every later write is; and the new entry is
/// there.
pub proof fn write_drops_oldest_first(
    s: Seq<Slot>,
    k: Seq<char>,
    v: EntryView,
    max_size: usize,
    limit: nat,
)
    requires
        keys_distinct(s),
        s.len() <= limit,
        limit >= 1,
        !holds_key(s, k),
    ensures
        ({
            let next = written(after_budget_check(s, v.weight(), max_size), k, v, limit);
            &&& exists|n: int| 0 <= n <= s.len() && next == s.skip(n).push((k, v))
            &&& holds_key(next, k)
            &&& forall|i: int, j: int|
                0 <= i < j < s.len() && holds_key(next, (#[trigger] s[i]).0) ==> holds_key(
                    next,
                    (#[trigger] s[j]).0,
                )
        }),
{
    let base = after_budget_check(s, v.weight(), max_size);
    let next = written(base, k, v, limit);
    evicted_facts(s, (max_size / 2) as nat);
    let m = if base == s {
        0
    } else {
        choose|m: int| 0 <= m <= s.len() && evicted(s, (max_size / 2) as nat) == s.skip(m)
    };
    assert(s.skip(0) =~= s);
    assert(base == s.skip(m));
    assert(!holds_key(base, k)) by {
        if holds_key(base, k) {
            let t = key_index(base, k);
            assert(base[t] == s[t + m]);
            assert(s[t + m].0 == k);
        }
    }
    let n = if base.len() == limit {
        m + 1
    } else {
        m
    };
    if base.len() == limit {
        assert(base.skip(1) =~= s.skip(m + 1));
    }
    assert(next == s.skip(n).push((k, v)));
    assert(next[next.len() - 1].0 == k);
    assert forall|i: int, j: int|
        0 <= i < j < s.len() && holds_key(next, (#[trigger] s[i]).0) implies holds_key(
        next,
        (#[trigger] s[j]).0,
    ) by {
        let t = key_index(next, s[i].0);
        assert(next[t].0 == s[i].0);
        if t == next.len() - 1 {
            assert(s[i].0 == k);
            assert(holds_key(s, k));
        }
        assert(next[t] == s[t + n]);
        if t + n < i {
            assert(s[t + n].0 != s[i].0);
        }
        if i < t + n {
            assert(s[i].0 != s[t + n].0);
        }
        assert(next[j - n] == s[j]);
    }
}

} // verus!
