//! A cache that is bounded in entries and in bytes and gives up what was used least recently.
use std::collections::VecDeque;
use vstd::prelude::*;

verus! {

/// What entries are found by.
pub trait CacheKey: Sized {
    /// Whether two keys are the same.
    fn same(&self, other: &Self) -> (same: bool)
        ensures
            same == (*self == *other),
    ;
}

/// A cached value.
#[derive(Debug)]
pub struct CacheEntry<K, V> {
    /// What it is found by.
    pub key: K,
    /// The value.
    pub value: V,
    /// What it takes up.
    pub bytes: usize,
}

/// A cache of the most recently used values, these first.
#[derive(Debug)]
pub struct BoundedLru<K, V> {
    /// The entries.
    pub entries: VecDeque<CacheEntry<K, V>>,
    /// How many entries there can be.
    pub max_entries: usize,
    /// How many bytes they can take up.
    pub max_bytes: usize,
    /// How many bytes they take up.
    pub cached_bytes: usize,
}

/// What entries take up.
pub open spec fn total<K, V>(entries: Seq<CacheEntry<K, V>>) -> int
    decreases entries.len(),
{
    if entries.len() == 0 {
        0
    } else {
        total(entries.drop_last()) + entries.last().bytes
    }
}

/// Whether no two entries have the same key.
pub open spec fn distinct<K, V>(entries: Seq<CacheEntry<K, V>>) -> bool {
    forall|i: int, j: int| 0 <= i < j < entries.len() ==> (#[trigger] entries[i]).key != (#[trigger] entries[j]).key
}

/// Whether an entry has the given key.
pub open spec fn holds<K, V>(entries: Seq<CacheEntry<K, V>>, key: K) -> bool {
    exists|i: int| 0 <= i < entries.len() && (#[trigger] entries[i]).key == key
}

/// The entries but for those of the given key.
pub open spec fn without<K, V>(entries: Seq<CacheEntry<K, V>>, key: K) -> Seq<CacheEntry<K, V>>
    decreases entries.len(),
{
    if entries.len() == 0 {
        entries
    } else {
        let rest = without(entries.drop_last(), key);
        if entries.last().key == key {
            rest
        } else {
            rest.push(entries.last())
        }
    }
}

/// The entries that stay where one more is to come: the least recently used go until there is
/// room.
pub open spec fn fitting<K, V>(entries: Seq<CacheEntry<K, V>>, max_entries: int, max_bytes: int, bytes: int) -> Seq<
    CacheEntry<K, V>,
>
    decreases entries.len(),
{
    if entries.len() > 0 && (entries.len() >= max_entries || total(entries) + bytes > max_bytes) {
        fitting(entries.drop_last(), max_entries, max_bytes, bytes)
    } else {
        entries
    }
}

/// The entries that were kept, in their order.
pub open spec fn retained<K, V>(entries: Seq<CacheEntry<K, V>>, kept: Seq<bool>) -> Seq<CacheEntry<K, V>>
    decreases entries.len(),
{
    if entries.len() == 0 || kept.len() == 0 {
        Seq::empty()
    } else {
        let rest = retained(entries.drop_last(), kept.drop_last());
        if kept.last() {
            rest.push(entries.last())
        } else {
            rest
        }
    }
}

proof fn lemma_total_nonnegative<K, V>(entries: Seq<CacheEntry<K, V>>)
    ensures
        total(entries) >= 0,
    decreases entries.len(),
{
    if entries.len() > 0 {
        lemma_total_nonnegative(entries.drop_last());
    }
}

proof fn lemma_total_remove<K, V>(entries: Seq<CacheEntry<K, V>>, at: int)
    requires
        0 <= at < entries.len(),
    ensures
        total(entries.remove(at)) == total(entries) - entries[at].bytes,
    decreases entries.len(),
{
    let less = entries.remove(at);
    if at == entries.len() - 1 {
        assert(less =~= entries.drop_last());
    } else {
        lemma_total_remove(entries.drop_last(), at);
        assert(less.drop_last() =~= entries.drop_last().remove(at));
        assert(less.last() == entries.last());
    }
}

proof fn lemma_total_front<K, V>(entries: Seq<CacheEntry<K, V>>, entry: CacheEntry<K, V>)
    ensures
        total(seq![entry] + entries) == entry.bytes + total(entries),
    decreases entries.len(),
{
    let more = seq![entry] + entries;
    if entries.len() == 0 {
        assert(more.drop_last() =~= Seq::empty());
        assert(total(more.drop_last()) == 0);
        assert(more.last() == entry);
    } else {
        lemma_total_front(entries.drop_last(), entry);
        assert(more.drop_last() =~= seq![entry] + entries.drop_last());
        assert(more.last() == entries.last());
    }
}

proof fn lemma_without_absent<K, V>(entries: Seq<CacheEntry<K, V>>, key: K)
    requires
        forall|i: int| 0 <= i < entries.len() ==> (#[trigger] entries[i]).key != key,
    ensures
        without(entries, key) == entries,
    decreases entries.len(),
{
    if entries.len() > 0 {
        lemma_without_absent(entries.drop_last(), key);
        assert(entries.drop_last().push(entries.last()) =~= entries);
    }
}

proof fn lemma_without_at<K, V>(entries: Seq<CacheEntry<K, V>>, key: K, at: int)
    requires
        0 <= at < entries.len(),
        entries[at].key == key,
        distinct(entries),
    ensures
        without(entries, key) == entries.remove(at),
    decreases entries.len(),
{
    let front = entries.drop_last();
    if at == entries.len() - 1 {
        assert forall|i: int| 0 <= i < front.len() implies (#[trigger] front[i]).key != key by {
            assert(entries[i].key != entries[at].key);
        }
        lemma_without_absent(front, key);
        assert(entries.remove(at) =~= front);
    } else {
        assert(entries[at].key != entries[entries.len() - 1].key);
        assert(distinct(front)) by {
            assert forall|i: int, j: int| 0 <= i < j < front.len() implies (#[trigger] front[i]).key != (
            #[trigger] front[j]).key by {
                assert(entries[i].key != entries[j].key);
            }
        }
        lemma_without_at(front, key, at);
        assert(entries.remove(at) =~= front.remove(at).push(entries.last()));
    }
}

proof fn lemma_without<K, V>(entries: Seq<CacheEntry<K, V>>, key: K)
    ensures
        !holds(without(entries, key), key),
        without(entries, key).len() <= entries.len(),
        distinct(entries) ==> distinct(without(entries, key)),
        forall|i: int|
            0 <= i < without(entries, key).len() ==> entries.contains(#[trigger] without(entries, key)[i]),
    decreases entries.len(),
{
    if entries.len() > 0 {
        let front = entries.drop_last();
        let rest = without(front, key);
        lemma_without(front, key);
        let all = without(entries, key);
        assert forall|i: int| 0 <= i < all.len() implies entries.contains(#[trigger] all[i]) by {
            if i < rest.len() {
                assert(front.contains(rest[i]));
                let j = choose|j: int| 0 <= j < front.len() && front[j] == rest[i];
                assert(entries[j] == all[i]);
            } else {
                assert(entries[entries.len() - 1] == all[i]);
            }
        }
        if distinct(entries) {
            assert(distinct(front)) by {
                assert forall|i: int, j: int| 0 <= i < j < front.len() implies (#[trigger] front[i]).key != (
                #[trigger] front[j]).key by {
                    assert(entries[i].key != entries[j].key);
                }
            }
            assert forall|i: int, j: int| 0 <= i < j < all.len() implies (#[trigger] all[i]).key != (
            #[trigger] all[j]).key by {
                if j < rest.len() {
                    assert(rest[i].key != rest[j].key);
                } else {
                    assert(front.contains(rest[i]));
                    let m = choose|m: int| 0 <= m < front.len() && front[m] == rest[i];
                    assert(entries[m].key != entries[entries.len() - 1].key);
                }
            }
        }
    }
}

/// What stays for a value that the cache can hold is a run of the most recently used entries with
/// room for it, and no longer run has room.
pub proof fn law_eviction_keeps_as_much_as_fits<K, V>(
    entries: Seq<CacheEntry<K, V>>,
    max_entries: int,
    max_bytes: int,
    bytes: int,
    longer: int,
)
    requires
        0 < max_entries,
        0 <= bytes <= max_bytes,
    ensures
        ({
            let kept = fitting(entries, max_entries, max_bytes, bytes);
            &&& kept.len() <= entries.len()
            &&& kept == entries.take(kept.len() as int)
            &&& kept.len() + 1 <= max_entries
            &&& total(kept) + bytes <= max_bytes
            &&& kept.len() < longer <= entries.len() ==> longer + 1 > max_entries || total(entries.take(longer))
                + bytes > max_bytes
        }),
    decreases entries.len(),
{
    if entries.len() > 0 && (entries.len() >= max_entries || total(entries) + bytes > max_bytes) {
        let front = entries.drop_last();
        if longer < entries.len() {
            law_eviction_keeps_as_much_as_fits(front, max_entries, max_bytes, bytes, longer);
            if 0 <= longer {
                assert(front.take(longer) =~= entries.take(longer));
            }
        } else {
            law_eviction_keeps_as_much_as_fits(front, max_entries, max_bytes, bytes, 0);
            if longer == entries.len() {
                assert(entries.take(longer) =~= entries);
            }
        }
        let kept = fitting(front, max_entries, max_bytes, bytes);
        assert(kept.len() <= front.len());
        assert(front.take(kept.len() as int) =~= entries.take(kept.len() as int));
    } else {
        assert(entries.take(entries.len() as int) =~= entries);
    }
}

impl<K: CacheKey, V> BoundedLru<K, V> {
    /// Whether the bounds hold, the bytes are counted, and no key occurs twice.
    pub open spec fn wf(self) -> bool {
        &&& self.entries@.len() <= self.max_entries
        &&& self.cached_bytes == total(self.entries@)
        &&& self.cached_bytes <= self.max_bytes
        &&& distinct(self.entries@)
    }

    /// An empty cache.
    pub fn new(max_entries: usize, max_bytes: usize) -> (cache: BoundedLru<K, V>)
        ensures
            cache.wf(),
            cache.entries@ == Seq::<CacheEntry<K, V>>::empty(),
            cache.max_entries == max_entries,
            cache.max_bytes == max_bytes,
    {
        BoundedLru { entries: VecDeque::new(), max_entries, max_bytes, cached_bytes: 0 }
    }

    fn position(&self, key: &K) -> (at: Option<usize>)
        ensures
            match at {
                Some(i) => i < self.entries@.len() && self.entries@[i as int].key == *key,
                None => !holds(self.entries@, *key),
            },
    {
        let mut at: usize = 0;
        let count: usize = self.entries.len();
        while at < count
            invariant
                at <= count,
                count == self.entries@.len(),
                forall|i: int| 0 <= i < at ==> (#[trigger] self.entries@[i]).key != *key,
            decreases count - at,
        {
            if self.entries[at].key.same(key) {
                return Some(at);
            }
            at = at + 1;
        }
        None
    }

    /// Whether a value is cached under the given key.
    pub fn contains(&self, key: &K) -> (found: bool)
        ensures
            found == holds(self.entries@, *key),
    {
        self.position(key).is_some()
    }

    /// The value of the given key, which becomes the most recently used.
    pub fn get(&mut self, key: &K) -> (value: Option<&V>)
        requires
            old(self).wf(),
        ensures
            final(self).wf(),
            final(self).max_entries == old(self).max_entries,
            final(self).max_bytes == old(self).max_bytes,
            value is Some == holds(old(self).entries@, *key),
            match value {
                Some(found) => exists|i: int|
                    0 <= i < old(self).entries@.len() && (#[trigger] old(self).entries@[i]).key == *key && *found
                        == old(self).entries@[i].value && final(self).entries@ == seq![old(self).entries@[i]]
                        + without(old(self).entries@, *key),
                None => final(self).entries@ == old(self).entries@,
            },
    {
        let at: usize = match self.position(key) {
            Some(at) => at,
            None => return None,
        };
        let ghost before = self.entries@;
        proof {
            lemma_without_at(before, *key, at as int);
            lemma_without(before, *key);
            lemma_total_remove(before, at as int);
            lemma_total_front(before.remove(at as int), before[at as int]);
        }
        if at != 0 {
            if let Some(entry) = self.entries.remove(at) {
                self.entries.push_front(entry);
            }
        }
        proof {
            let after = self.entries@;
            assert(after =~= seq![before[at as int]] + before.remove(at as int));
            assert forall|i: int, j: int| 0 <= i < j < after.len() implies (#[trigger] after[i]).key != (
            #[trigger] after[j]).key by {
                let rest = without(before, *key);
                assert(after[j] == rest[j - 1]);
                if i > 0 {
                    assert(after[i] == rest[i - 1]);
                }
            }
            assert(old(self).entries@[at as int].key == *key);
        }
        Some(&self.entries[0].value)
    }

    /// Caches a value as the most recently used, in place of one of the same key. A value that can
    /// never fit is left out; others make room by giving up the least recently used.
    pub fn insert(&mut self, key: K, value: V, bytes: usize)
        requires
            old(self).wf(),
        ensures
            final(self).wf(),
            final(self).max_entries == old(self).max_entries,
            final(self).max_bytes == old(self).max_bytes,
            ({
                let others = without(old(self).entries@, key);
                final(self).entries@ == (if old(self).max_entries == 0 || bytes > old(self).max_bytes {
                    others
                } else {
                    seq![CacheEntry { key, value, bytes }] + fitting(
                        others,
                        old(self).max_entries as int,
                        old(self).max_bytes as int,
                        bytes as int,
                    )
                })
            }),
    {
        let ghost before = self.entries@;
        proof {
            lemma_without(before, key);
        }
        let ghost others = without(before, key);
        match self.position(&key) {
            Some(at) => {
                proof {
                    lemma_without_at(before, key, at as int);
                    lemma_total_remove(before, at as int);
                    lemma_total_nonnegative(before.remove(at as int));
                }
                if let Some(replaced) = self.entries.remove(at) {
                    self.cached_bytes = self.cached_bytes - replaced.bytes;
                }
            },
            None => {
                proof {
                    lemma_without_absent(before, key);
                }
            },
        }
        assert(self.entries@ =~= others);
        if self.max_entries == 0 || bytes > self.max_bytes {
            return;
        }
        while self.entries.len() > 0 && (self.entries.len() >= self.max_entries || self.cached_bytes
            > self.max_bytes - bytes)
            invariant
                self.max_entries == old(self).max_entries,
                self.max_bytes == old(self).max_bytes,
                bytes <= self.max_bytes,
                self.cached_bytes == total(self.entries@),
                self.cached_bytes <= self.max_bytes,
                self.entries@.len() <= others.len(),
                self.entries@ == others.take(self.entries@.len() as int),
                fitting(self.entries@, self.max_entries as int, self.max_bytes as int, bytes as int) == fitting(
                    others,
                    self.max_entries as int,
                    self.max_bytes as int,
                    bytes as int,
                ),
            decreases self.entries@.len(),
        {
            proof {
                lemma_total_nonnegative(self.entries@.drop_last());
            }
            let ghost entries = self.entries@;
            if let Some(evicted) = self.entries.pop_back() {
                assert(self.entries@ =~= entries.drop_last());
                self.cached_bytes = self.cached_bytes - evicted.bytes;
                assert(self.entries@ =~= others.take(self.entries@.len() as int));
            }
        }
        proof {
            lemma_total_front(self.entries@, CacheEntry { key, value, bytes });
            let kept = self.entries@;
            let after = seq![CacheEntry { key, value, bytes }] + kept;
            assert forall|i: int, j: int| 0 <= i < j < after.len() implies (#[trigger] after[i]).key != (
            #[trigger] after[j]).key by {
                assert(after[j] == others[j - 1]);
                if i > 0 {
                    assert(after[i] == others[i - 1]);
                    assert(others[i - 1].key != others[j - 1].key);
                }
            }
        }
        self.cached_bytes = self.cached_bytes + bytes;
        self.entries.push_front(CacheEntry { key, value, bytes });
        assert(self.entries@ =~= seq![CacheEntry { key, value, bytes }] + fitting(
            others,
            self.max_entries as int,
            self.max_bytes as int,
            bytes as int,
        ));
    }

    /// Gives up the entries whose keys are not to be kept.
    pub fn retain<F: Fn(&K) -> bool>(&mut self, keep: F)
        requires
            old(self).wf(),
            forall|key: &K| #[trigger] call_requires(keep, (key,)),
        ensures
            final(self).wf(),
            final(self).max_entries == old(self).max_entries,
            final(self).max_bytes == old(self).max_bytes,
            exists|kept: Seq<bool>|
                decided(old(self).entries@, keep, kept) && final(self).entries@ == #[trigger] retained(
                    old(self).entries@,
                    kept,
                ),
    {
        let ghost before = self.entries@;
        let ghost mut kept: Seq<bool> = Seq::empty();
        let ghost mut at: int = 0;
        let mut stay: VecDeque<CacheEntry<K, V>> = VecDeque::new();
        let mut bytes: usize = 0;
        assert(before.skip(0) =~= before);
        while self.entries.len() > 0
            invariant
                forall|key: &K| #[trigger] call_requires(keep, (key,)),
                0 <= at <= before.len(),
                kept.len() == at,
                self.entries@ == before.skip(at),
                self.max_entries == old(self).max_entries,
                self.max_bytes == old(self).max_bytes,
                before == old(self).entries@,
                old(self).wf(),
                forall|i: int| 0 <= i < at ==> call_ensures(keep, (&before[i].key,), #[trigger] kept[i]),
                stay@ == retained(before.take(at), kept),
                stay@.len() <= at,
                bytes == total(stay@),
                total(stay@) <= total(before.take(at)),
                total(before.take(at)) <= total(before),
                distinct(stay@),
                forall|j: int|
                    0 <= j < stay@.len() ==> exists|m: int| 0 <= m < at && before[m] == #[trigger] stay@[j],
            decreases self.entries@.len(),
        {
            let ghost rest = self.entries@;
            let ghost earlier = stay@;
            proof {
                assert(before.take(at + 1).drop_last() =~= before.take(at));
                assert(rest.skip(1) =~= before.skip(at + 1));
                lemma_total_take(before, at + 1);
            }
            if let Some(entry) = self.entries.pop_front() {
                assert(self.entries@ =~= before.skip(at + 1));
                assert(entry == before[at]);
                let stays: bool = keep(&entry.key);
                proof {
                    let more = kept.push(stays);
                    assert(more.drop_last() =~= kept);
                    assert forall|i: int| 0 <= i < at + 1 implies call_ensures(
                        keep,
                        (&before[i].key,),
                        #[trigger] more[i],
                    ) by {
                        if i < at {
                            assert(more[i] == kept[i]);
                        }
                    }
                    kept = more;
                }
                if stays {
                    bytes = bytes + entry.bytes;
                    stay.push_back(entry);
                    proof {
                        assert(stay@.drop_last() =~= earlier);
                        assert forall|i: int, j: int| 0 <= i < j < stay@.len() implies (#[trigger] stay@[i]).key != (
                        #[trigger] stay@[j]).key by {
                            if j == earlier.len() {
                                assert(stay@[i] == earlier[i]);
                                let m = choose|m: int| 0 <= m < at && before[m] == earlier[i];
                                assert(before[m].key != before[at].key);
                            } else {
                                assert(earlier[i].key != earlier[j].key);
                            }
                        }
                    }
                }
                proof {
                    assert forall|j: int| 0 <= j < stay@.len() implies exists|m: int|
                        0 <= m < at + 1 && before[m] == #[trigger] stay@[j] by {
                        if j < earlier.len() {
                            let m = choose|m: int| 0 <= m < at && before[m] == earlier[j];
                            assert(before[m] == stay@[j]);
                        } else {
                            assert(before[at] == stay@[j]);
                        }
                    }
                    at = at + 1;
                }
            }
        }
        proof {
            assert(before.take(at) =~= before);
        }
        self.entries = stay;
        self.cached_bytes = bytes;
    }
}

/// Whether each decision is one that `keep` makes of the key.
pub open spec fn decided<K, V, F: Fn(&K) -> bool>(entries: Seq<CacheEntry<K, V>>, keep: F, kept: Seq<bool>) -> bool {
    &&& kept.len() == entries.len()
    &&& forall|i: int| 0 <= i < entries.len() ==> call_ensures(keep, (&entries[i].key,), #[trigger] kept[i])
}

proof fn lemma_total_take<K, V>(entries: Seq<CacheEntry<K, V>>, count: int)
    requires
        0 <= count <= entries.len(),
    ensures
        total(entries.take(count)) <= total(entries),
    decreases entries.len(),
{
    if count == entries.len() {
        assert(entries.take(count) =~= entries);
    } else {
        lemma_total_take(entries.drop_last(), count);
        assert(entries.drop_last().take(count) =~= entries.take(count));
    }
}

/// Taking out a key leaves the entries of all other keys, in their order.
pub proof fn law_taking_out_a_key_leaves_the_others<K, V>(entries: Seq<CacheEntry<K, V>>, key: K)
    ensures
        without(entries, key) == entries.filter(|entry: CacheEntry<K, V>| entry.key != key),
    decreases entries.len(),
{
    reveal(Seq::filter);
    if entries.len() > 0 {
        law_taking_out_a_key_leaves_the_others(entries.drop_last(), key);
    }
}

/// The bytes of a cache add up, entry by entry.
pub proof fn law_cached_bytes_add_up<K, V>(entries: Seq<CacheEntry<K, V>>, entry: CacheEntry<K, V>)
    ensures
        total(entries.push(entry)) == total(entries) + entry.bytes,
        total(Seq::<CacheEntry<K, V>>::empty()) == 0,
{
    assert(entries.push(entry).drop_last() =~= entries);
}

/// What is retained are the entries that are kept, in their order. Where each stood is given back.
pub proof fn law_kept_entries_stay_in_order<K, V>(entries: Seq<CacheEntry<K, V>>, kept: Seq<bool>) -> (from: Seq<int>)
    requires
        kept.len() == entries.len(),
    ensures
        from.len() == retained(entries, kept).len(),
        forall|i: int|
            0 <= i < from.len() ==> 0 <= #[trigger] from[i] < entries.len() && kept[from[i]] && retained(
                entries,
                kept,
            )[i] == entries[from[i]],
        forall|i: int, j: int| 0 <= i < j < from.len() ==> #[trigger] from[i] < #[trigger] from[j],
        forall|e: int| 0 <= e < entries.len() && #[trigger] kept[e] ==> from.contains(e),
    decreases entries.len(),
{
    if entries.len() == 0 {
        Seq::empty()
    } else {
        let last = entries.len() - 1;
        let before = law_kept_entries_stay_in_order(entries.drop_last(), kept.drop_last());
        if kept.last() {
            let from = before.push(last);
            assert forall|i: int| 0 <= i < from.len() implies 0 <= #[trigger] from[i] < entries.len() && kept[from[i]]
                && retained(entries, kept)[i] == entries[from[i]] by {
                if i < before.len() {
                    assert(from[i] == before[i]);
                    assert(kept.drop_last()[before[i]] == kept[before[i]]);
                }
            }
            assert forall|e: int| 0 <= e < entries.len() && #[trigger] kept[e] implies from.contains(e) by {
                if e < last {
                    assert(kept.drop_last()[e]);
                    let i = choose|i: int| 0 <= i < before.len() && before[i] == e;
                    assert(from[i] == e);
                } else {
                    assert(from[before.len() as int] == e);
                }
            }
            from
        } else {
            assert forall|i: int| 0 <= i < before.len() implies 0 <= #[trigger] before[i] < entries.len()
                && kept[before[i]] && retained(entries, kept)[i] == entries[before[i]] by {
                assert(kept.drop_last()[before[i]] == kept[before[i]]);
            }
            assert forall|e: int| 0 <= e < entries.len() && #[trigger] kept[e] implies before.contains(e) by {
                assert(kept.drop_last()[e]);
            }
            before
        }
    }
}

/// A cache that is well formed holds each key once, no more entries and no more bytes than it may.
pub proof fn law_a_cache_stays_within_its_bounds<K: CacheKey, V>(cache: BoundedLru<K, V>, one: int, other: int)
    requires
        cache.wf(),
    ensures
        cache.entries@.len() <= cache.max_entries,
        total(cache.entries@) <= cache.max_bytes,
        total(cache.entries@) == cache.cached_bytes,
        0 <= one < other < cache.entries@.len() ==> cache.entries@[one].key != cache.entries@[other].key,
        0 <= one < cache.entries@.len() ==> holds(cache.entries@, cache.entries@[one].key),
{
}

/// A key is held exactly where an entry has it.
pub proof fn law_a_key_is_held_by_an_entry<K, V>(entries: Seq<CacheEntry<K, V>>, key: K)
    ensures
        !holds(entries, key) <==> forall|i: int| 0 <= i < entries.len() ==> (#[trigger] entries[i]).key != key,
{
}

} // verus!
