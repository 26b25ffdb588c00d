//! Where NAR files were last found: a bounded cache from NAR file names to
//! storage prefixes, filled from registration and eviction events.
use std::collections::hash_map::RandomState;

use moka::sync::Cache;
use vstd::prelude::*;

use crate::nar::{NarFileEvent, NarFileIndex};
use crate::nar_file_name::NarFileName;
use crate::url::Url;

verus! {

/// The cache type of the `moka` crate, declared so that it can be held and
/// handed to the calls below; what it holds is named below.
#[verifier::external_type_specification]
#[verifier::external_body]
#[verifier::reject_recursive_types(K)]
#[verifier::reject_recursive_types(V)]
#[verifier::reject_recursive_types(S)]
pub struct ExMokaSyncCache<K, V, S>(Cache<K, V, S>);

/// The maximum number of entries a location cache was built to hold (what
/// its `policy().max_capacity()` reports); it never changes afterwards.
pub uninterp spec fn location_cache_capacity(cache: Cache<NarFileName, Url, RandomState>) -> u64;

/// What a location cache holds: NAR file names (as text) to storage
/// prefixes (as text).
pub uninterp spec fn location_cache_entries(cache: Cache<NarFileName, Url, RandomState>) -> Map<
    Seq<char>,
    Seq<char>,
>;

/// No location at all.
pub open spec fn no_locations() -> Map<Seq<char>, Seq<char>> {
    Map::empty()
}

/// The cache holds fewer entries than it was built for.
pub open spec fn has_room(entries: Map<Seq<char>, Seq<char>>, capacity: u64) -> bool {
    entries.dom().finite() && entries.dom().len() < capacity
}

/// The cache holds no more entries than it was built for.
pub open spec fn within_capacity(entries: Map<Seq<char>, Seq<char>>, capacity: u64) -> bool {
    entries.dom().finite() && entries.dom().len() <= capacity
}

/// Builds an empty cache with `moka::sync::Cache::new`, which sets the
/// maximum capacity of the cache to `max_capacity` entries (and sets no
/// expiry). The cache is never cloned, so the calls below are the only ones
/// that change it.
#[verifier::external_body]
fn new_location_cache(max_capacity: u64) -> (r: Cache<NarFileName, Url, RandomState>)
    ensures
        location_cache_capacity(r) == max_capacity,
        location_cache_entries(r) == no_locations(),
{
    Cache::new(max_capacity)
}

/// Records `prefix` for `nar_file` with `moka::sync::Cache::insert`. The
/// entry replaces an earlier one for the key. Eviction only runs when the
/// admitted entries would exceed the capacity: while there is room, the
/// cache afterwards holds exactly the old entries plus this one; otherwise
/// it holds some of them (a full cache may reject the new entry or evict
/// others, and a cache built with capacity 0 keeps nothing).
#[verifier::external_body]
fn cache_insert(cache: &mut Cache<NarFileName, Url, RandomState>, nar_file: NarFileName, prefix: Url)
    ensures
        location_cache_capacity(*final(cache)) == location_cache_capacity(*old(cache)),
        location_cache_entries(*final(cache)).dom().finite(),
        location_cache_entries(*final(cache)).submap_of(
            location_cache_entries(*old(cache)).insert(nar_file@, prefix@),
        ),
        has_room(location_cache_entries(*old(cache)), location_cache_capacity(*old(cache)))
            ==> location_cache_entries(*final(cache)) == location_cache_entries(*old(cache)).insert(
            nar_file@,
            prefix@,
        ),
{
    cache.insert(nar_file, prefix)
}

/// Discards the entry of `nar_file` with `moka::sync::Cache::remove`, which
/// takes it out of the cache at once; the removed value is dropped. Other
/// entries are only evicted when the cache holds more than its capacity.
#[verifier::external_body]
fn cache_remove(cache: &mut Cache<NarFileName, Url, RandomState>, nar_file: &NarFileName)
    ensures
        location_cache_capacity(*final(cache)) == location_cache_capacity(*old(cache)),
        location_cache_entries(*final(cache)).dom().finite(),
        location_cache_entries(*final(cache)).submap_of(
            location_cache_entries(*old(cache)).remove(nar_file@),
        ),
        within_capacity(location_cache_entries(*old(cache)), location_cache_capacity(*old(cache)))
            ==> location_cache_entries(*final(cache)) == location_cache_entries(*old(cache)).remove(
            nar_file@,
        ),
{
    cache.remove(nar_file);
}

/// Looks `nar_file` up with `moka::sync::Cache::get`, which returns a clone
/// of the entry when the cache holds one (no expiry is set). The lookup may
/// run the cache's housekeeping, which only evicts when the cache holds more
/// than its capacity.
#[verifier::external_body]
fn cache_get(cache: &mut Cache<NarFileName, Url, RandomState>, nar_file: &NarFileName) -> (r: Option<
    Url,
>)
    ensures
        r is Some == location_cache_entries(*old(cache)).contains_key(nar_file@),
        r matches Some(u) ==> u@ == location_cache_entries(*old(cache))[nar_file@],
        location_cache_capacity(*final(cache)) == location_cache_capacity(*old(cache)),
        location_cache_entries(*final(cache)).dom().finite(),
        location_cache_entries(*final(cache)).submap_of(location_cache_entries(*old(cache))),
        within_capacity(location_cache_entries(*old(cache)), location_cache_capacity(*old(cache)))
            ==> location_cache_entries(*final(cache)) == location_cache_entries(*old(cache)),
{
    cache.get(nar_file)
}

/// The locations after an event: a registration records the storage prefix
/// of the file (replacing an earlier one); an eviction forgets the file.
pub open spec fn locations_after(index: Map<Seq<char>, Seq<char>>, event: NarFileEvent) -> Map<
    Seq<char>,
    Seq<char>,
> {
    match event {
        NarFileEvent::Registered { nar_file, storage_prefix } => index.insert(
            nar_file@,
            storage_prefix@,
        ),
        NarFileEvent::Evicted { nar_file } => index.remove(nar_file@),
    }
}

/// The event leaves every entry in place: a registration finds room, or an
/// eviction finds the index within its capacity.
pub open spec fn event_fits(index: Map<Seq<char>, Seq<char>>, capacity: u64, event: NarFileEvent) -> bool {
    match event {
        NarFileEvent::Registered { .. } => has_room(index, capacity),
        NarFileEvent::Evicted { .. } => within_capacity(index, capacity),
    }
}

/// After an event that fits (see [`NarFileIndexView::apply_event`]), a
/// lookup gives a registered file's prefix (replacing an earlier one) and
/// nothing for an evicted file, and every other file keeps its prefix or
/// its absence.
pub proof fn lemma_lookup_after_event(index: Map<Seq<char>, Seq<char>>, event: NarFileEvent)
    ensures
        event matches NarFileEvent::Registered { nar_file, storage_prefix } ==> locations_after(
            index,
            event,
        ).contains_key(nar_file@) && locations_after(index, event)[nar_file@] == storage_prefix@,
        event matches NarFileEvent::Evicted { nar_file } ==> !locations_after(
            index,
            event,
        ).contains_key(nar_file@),
        forall|k: Seq<char>|
            #![trigger locations_after(index, event).contains_key(k)]
            k != (match event {
                NarFileEvent::Registered { nar_file, .. } => nar_file@,
                NarFileEvent::Evicted { nar_file } => nar_file@,
            }) ==> (locations_after(index, event).contains_key(k) == index.contains_key(k) && (
            index.contains_key(k) ==> locations_after(index, event)[k] == index[k])),
{
}

/// The NAR file locations, read by requests and updated by events. The
/// index owns its cache; callers that share it put it behind a lock.
pub struct NarFileIndexView {
    cache: Cache<NarFileName, Url, RandomState>,
}

impl NarFileIndexView {
    /// The most locations the index keeps.
    pub closed spec fn max_capacity(&self) -> u64 {
        location_cache_capacity(self.cache)
    }

    /// The locations the index holds: NAR file names to storage prefixes.
    pub closed spec fn locations(&self) -> Map<Seq<char>, Seq<char>> {
        location_cache_entries(self.cache)
    }

    /// An empty index holding at most `max_capacity` locations.
    pub fn new(max_capacity: u64) -> (r: NarFileIndexView)
        ensures
            r.max_capacity() == max_capacity,
            r.locations() == no_locations(),
    {
        NarFileIndexView { cache: new_location_cache(max_capacity) }
    }

    /// Applies an event (see [`locations_after`]). While the event fits
    /// (see [`event_fits`]) the index becomes exactly that; otherwise it
    /// holds part of it, having evicted entries to stay within capacity.
    /// An evicted file is gone either way.
    pub fn apply_event(&mut self, event: NarFileEvent)
        ensures
            final(self).max_capacity() == old(self).max_capacity(),
            final(self).locations().dom().finite(),
            final(self).locations().submap_of(locations_after(old(self).locations(), event)),
            event_fits(old(self).locations(), old(self).max_capacity(), event)
                ==> final(self).locations() == locations_after(old(self).locations(), event),
    {
        match event {
            NarFileEvent::Registered { nar_file, storage_prefix } => {
                cache_insert(&mut self.cache, nar_file, storage_prefix)
            },
            NarFileEvent::Evicted { nar_file } => cache_remove(&mut self.cache, &nar_file),
        }
    }
}

impl NarFileIndex for NarFileIndexView {
    /// The recorded storage prefix of the file, if the index holds one.
    fn get_storage_prefix(&mut self, nar_file: &NarFileName) -> (r: Option<Url>)
        ensures
            r is Some == old(self).locations().contains_key(nar_file@),
            r matches Some(u) ==> u@ == old(self).locations()[nar_file@],
            final(self).max_capacity() == old(self).max_capacity(),
            final(self).locations().submap_of(old(self).locations()),
            within_capacity(old(self).locations(), old(self).max_capacity())
                ==> final(self).locations() == old(self).locations(),
    {
        cache_get(&mut self.cache, nar_file)
    }
}

} // verus!
