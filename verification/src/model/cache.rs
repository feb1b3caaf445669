//! The payload cache: raw feed texts by source name, bounded in number.
//!
//! The cache is `quick_cache::sync::Cache`, a clock cache: it keeps what was
//! used of late as best it can, without keeping an exact order of use. Its
//! code is not verified here. What this library relies on is stated in the
//! contracts of the three functions that call it, over two names for what a
//! cache holds and for the capacity it was made with.
//!
//! The cache is made as one shard and without room to remember the keys it
//! has evicted. So its capacity is the configured one on every machine, an
//! insertion always ends with its entry in the cache, and a full cache
//! gives up exactly one entry for a new one. Which entry that is depends on
//! which entries were looked up of late; the contracts leave it open.

use crate::text::text_of;
use quick_cache::sync::{Cache, DefaultLifecycle};
use quick_cache::{DefaultHashBuilder, OptionsBuilder, UnitWeighter};
use vstd::prelude::*;

verus! {

/// The entries that a cache holds: payload by source name.
pub uninterp spec fn cache_contents(c: PayloadCache) -> Map<Seq<char>, Seq<char>>;

/// The number of entries that a cache was made to hold at most.
pub uninterp spec fn cache_limit(c: PayloadCache) -> nat;

/// The largest capacity that a cache is made with. The cache numbers its
/// slots with 32 bits; this bound keeps their count within that range.
pub const MAX_ENTRIES: usize = 0x8000_0000;

/// The capacity of a cache that is asked to hold `wanted` entries.
pub open spec fn capacity_for(wanted: usize) -> nat {
    if wanted > MAX_ENTRIES {
        MAX_ENTRIES as nat
    } else {
        wanted as nat
    }
}

/// The contents of an empty cache.
pub open spec fn no_entries() -> Map<Seq<char>, Seq<char>> {
    Map::empty()
}

/// The payload that `entries` holds for `name`, if any.
pub open spec fn found(entries: Map<Seq<char>, Seq<char>>, name: Seq<char>) -> Option<Seq<char>> {
    if entries.dom().contains(name) {
        Some(entries[name])
    } else {
        None
    }
}

/// Finitely many entries, and no more than `limit`.
pub open spec fn within(entries: Map<Seq<char>, Seq<char>>, limit: nat) -> bool {
    entries.dom().finite() && entries.len() <= limit
}

/// How the entries `after` an insertion of `payload` under `name` relate to
/// the entries `before` it, in a cache that holds at most `limit` entries.
///
/// A cache of capacity zero holds nothing. Any other cache holds the
/// payload under the name afterwards and stays within its limit. Entries
/// under other names never appear or change. While the name is already
/// cached or there is room, nothing leaves: the insertion is a plain map
/// insertion. A full cache gives up exactly one of its entries for a new
/// name; which one is the cache's choice.
pub open spec fn stored(
    before: Map<Seq<char>, Seq<char>>,
    after: Map<Seq<char>, Seq<char>>,
    limit: nat,
    name: Seq<char>,
    payload: Seq<char>,
) -> bool {
    &&& within(after, limit)
    &&& limit == 0 ==> after == before.remove(name)
    &&& limit > 0 ==> found(after, name) == Some(payload)
    &&& forall|k: Seq<char>|
        k != name && #[trigger] after.dom().contains(k) ==> before.dom().contains(k) && after[k]
            == before[k]
    &&& limit > 0 && (before.dom().contains(name) || before.len() < limit) ==> after
        == before.insert(name, payload)
    &&& limit > 0 && within(before, limit) && before.len() == limit && !before.dom().contains(name)
        ==> exists|k: Seq<char>| #[trigger]
        before.dom().contains(k) && after == before.remove(k).insert(name, payload)
}

/// A cache of raw payloads by source name. It never holds more entries than
/// the capacity it was made with.
///
/// The verifier does not look inside: the type of the field mentions the
/// hasher of `quick_cache`, which comes from a crate that this library does
/// not name. Every value of this type is made by `new`, as a single shard.
#[verifier::external_body]
pub struct PayloadCache {
    inner: Cache<String, String>,
}

impl PayloadCache {
    /// The cached payloads by source name.
    pub open spec fn view(&self) -> Map<Seq<char>, Seq<char>> {
        cache_contents(*self)
    }

    /// The capacity that the cache was made with.
    pub open spec fn capacity(&self) -> nat {
        cache_limit(*self)
    }

    /// The cache holds finitely many entries, and no more than its capacity.
    pub open spec fn wf(&self) -> bool {
        within(self@, self.capacity())
    }

    /// Builds the cache through `OptionsBuilder` and `Cache::with_options`,
    /// with unit weights and the crate's default hasher and lifecycle. The
    /// cache is made as a single shard, so its limit is `capacity`
    /// exactly; it starts empty. With an estimate of zero items the cache
    /// keeps no record of evicted keys. The capacity is kept small enough
    /// for the cache never to run out of slot numbers.
    #[verifier::external_body]
    fn make(shards: usize, capacity: u64, estimated: usize) -> (c: PayloadCache)
        requires
            shards == 1,
            estimated == 0,
            capacity <= MAX_ENTRIES,
        ensures
            cache_contents(c) == no_entries(),
            cache_limit(c) == capacity,
    {
        let mut builder = OptionsBuilder::new();
        builder.shards(shards).weight_capacity(capacity).estimated_items_capacity(estimated);
        let options = builder.build().unwrap();
        let inner = Cache::<String, String>::with_options(
            options,
            UnitWeighter,
            DefaultHashBuilder::default(),
            DefaultLifecycle::default(),
        );
        PayloadCache { inner }
    }

    /// Calls `Cache::get`, which returns a copy of the value stored under the
    /// key, if there is one, and leaves the entries as they are.
    #[verifier::external_body]
    fn fetch(&self, name: &String) -> (r: Option<String>)
        ensures
            found(cache_contents(*self), name@) == text_of(r),
    {
        self.inner.get(name)
    }

    /// Calls `Cache::insert` on the cache that `make` built: one shard, unit
    /// weights, nothing pinned, no record of evicted keys.
    ///
    /// A cache of capacity zero admits nothing. In any other, an entry under
    /// a cached name is replaced in place, and one under a new name is
    /// linked in after the cache has made room for it, so the entry is in
    /// the cache afterwards. Room is made only in a full cache, by the
    /// eviction scan, which ends with the first entry it evicts: a cold
    /// entry that was not used, or, after it has moved a used cold entry to
    /// the hot ring and so filled that ring beyond its share, one hot entry.
    /// Without a record of evicted keys no entry enters the hot ring
    /// unchecked, the ring never holds more than one entry beyond its share,
    /// and so exactly one entry leaves.
    #[verifier::external_body]
    fn store(&mut self, name: String, payload: String)
        ensures
            cache_limit(*final(self)) == cache_limit(*old(self)),
            stored(
                cache_contents(*old(self)),
                cache_contents(*final(self)),
                cache_limit(*old(self)),
                name@,
                payload@,
            ),
    {
        self.inner.insert(name, payload)
    }

    /// An empty cache for at most `capacity` payloads, and never for more
    /// than `MAX_ENTRIES`.
    pub fn new(capacity: usize) -> (c: PayloadCache)
        ensures
            c.wf(),
            c@ == no_entries(),
            c.capacity() == capacity_for(capacity),
    {
        let capacity = if capacity > MAX_ENTRIES {
            MAX_ENTRIES
        } else {
            capacity
        };
        let c = Self::make(1, capacity as u64, 0);
        proof {
            assert(c@.dom() =~= Set::<Seq<char>>::empty());
        }
        c
    }

    /// The payload cached for `name`, if there is one.
    pub fn lookup(&self, name: &String) -> (r: Option<String>)
        ensures
            text_of(r) == found(self@, name@),
    {
        self.fetch(name)
    }

    /// Caches `payload` for `name`, replacing what was cached for it.
    ///
    /// A cache of capacity zero stays empty. Any other cache holds the
    /// payload afterwards. Nothing leaves while the name is already cached
    /// or there is room; a full cache gives up exactly one entry for a new
    /// name.
    pub fn insert(&mut self, name: String, payload: String)
        ensures
            final(self).wf(),
            final(self).capacity() == old(self).capacity(),
            stored(old(self)@, final(self)@, old(self).capacity(), name@, payload@),
    {
        self.store(name, payload)
    }
}


/// The cache never holds more entries than its capacity: whatever was cached
/// before, after an insertion the entries are within the limit.
pub proof fn lemma_never_over_capacity(
    before: Map<Seq<char>, Seq<char>>,
    after: Map<Seq<char>, Seq<char>>,
    limit: nat,
    name: Seq<char>,
    payload: Seq<char>,
)
    requires
        stored(before, after, limit, name, payload),
    ensures
        after.dom().finite(),
        after.len() <= limit,
{
}

/// An insertion keeps every other entry as it was as long as there is room
/// or the name is already cached: it then is a plain map insertion.
pub proof fn lemma_room_keeps_all(
    before: Map<Seq<char>, Seq<char>>,
    after: Map<Seq<char>, Seq<char>>,
    limit: nat,
    name: Seq<char>,
    payload: Seq<char>,
)
    requires
        stored(before, after, limit, name, payload),
        limit > 0,
        before.dom().contains(name) || before.len() < limit,
    ensures
        after == before.insert(name, payload),
{
}

/// Inserting the payload that is already cached for a name changes nothing.
pub proof fn lemma_insert_idempotent(
    before: Map<Seq<char>, Seq<char>>,
    after: Map<Seq<char>, Seq<char>>,
    limit: nat,
    name: Seq<char>,
    payload: Seq<char>,
)
    requires
        within(before, limit),
        found(before, name) == Some(payload),
        stored(before, after, limit, name, payload),
    ensures
        after == before,
{
    assert(limit > 0) by {
        if limit == 0 {
            assert(before.dom().len() == 0);
            assert(before.dom().contains(name));
        }
    }
    assert(before.insert(name, payload) =~= before);
}

/// Inserting a new name into a full cache makes exactly one of the cached
/// entries leave: the cache stays full, holds the new entry, and every other
/// entry is as it was.
pub proof fn lemma_full_cache_evicts_one(
    before: Map<Seq<char>, Seq<char>>,
    after: Map<Seq<char>, Seq<char>>,
    limit: nat,
    name: Seq<char>,
    payload: Seq<char>,
)
    requires
        within(before, limit),
        stored(before, after, limit, name, payload),
        limit > 0,
        before.len() == limit,
        !before.dom().contains(name),
    ensures
        found(after, name) == Some(payload),
        after.len() == limit,
        exists|gone: Seq<char>|
            {
                &&& #[trigger] before.dom().contains(gone)
                &&& !after.dom().contains(gone)
                &&& forall|k: Seq<char>|
                    k != gone && #[trigger] before.dom().contains(k) ==> found(after, k) == found(
                        before,
                        k,
                    )
            },
{
    let gone = choose|k: Seq<char>| #[trigger]
        before.dom().contains(k) && after == before.remove(k).insert(name, payload);
    assert(before.dom().contains(gone));
    assert(after.dom() =~= before.dom().remove(gone).insert(name));
    assert(!after.dom().contains(gone));
    assert(after.dom().len() == before.dom().len());
}

/// A cache of capacity one holds exactly the entry that was inserted last.
pub proof fn lemma_single_slot(
    before: Map<Seq<char>, Seq<char>>,
    after: Map<Seq<char>, Seq<char>>,
    name: Seq<char>,
    payload: Seq<char>,
)
    requires
        stored(before, after, 1, name, payload),
    ensures
        after == no_entries().insert(name, payload),
{
    assert forall|k: Seq<char>| after.dom().contains(k) implies k == name by {
        if k != name {
            let both = Set::<Seq<char>>::empty().insert(name).insert(k);
            assert(both.subset_of(after.dom()));
            vstd::set_lib::lemma_len_subset(both, after.dom());
            assert(both.len() == 2);
        }
    }
    assert(after =~= no_entries().insert(name, payload));
}

} // verus!
