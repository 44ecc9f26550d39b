//! The two-tier tile cache.
//!
//! The memory tier holds decoded tiles. The disk tier is kept here as an
//! index of what the host has on disk: keys and sizes, in order of recency.
//! The cache never reads or writes a file. Where a decision of the cache
//! calls for disk work it hands back `DiskAction`s; the host performs them
//! when it sees fit and reports a failure with `disk_failure`.

use vstd::prelude::*;

use crate::cache::budget::{CacheBudget, ContentCache, PersistentCache};
use crate::cache::lru::{
    displaced, evict_count, evicted, has_key, inserted, key_index, keys_distinct, keys_of,
    lemma_evict_count_least, lemma_push_keeps_distinct,
    lemma_remove_keeps_distinct, lemma_skip_has_key, lemma_skip_keeps_distinct,
    lemma_total_size_push, lemma_total_size_remove, retained, total_size,
    touched, without_key, LruTier, Slot,
};
use crate::cache::tile::{TileData, TileEntry, TileKey};
use crate::error::CoreError;

verus! {

/// Disk work that a decision of the cache calls for.
#[derive(Debug, PartialEq, Eq)]
pub enum DiskAction {
    /// Store `data` as the disk copy of `key`, replacing an older copy.
    Write { key: TileKey, data: Vec<u8> },
    /// Drop the disk copy of `key`.
    Delete { key: TileKey },
}

/// How urgently the platform asks for memory.
#[derive(Clone, Copy, Debug, PartialEq, Eq, Structural)]
pub enum PressureLevel {
    /// Memory is low: evict, and write evicted tiles back to disk.
    Warning,
    /// Memory is critically low: evict, and skip the write-back.
    Critical,
}

/// The answer of a lookup.
#[derive(Debug, PartialEq, Eq)]
pub enum Lookup {
    /// The memory tier holds the tile; this is a copy of it.
    Hit(TileEntry),
    /// Only the disk tier holds the tile: the host reads it and hands the
    /// bytes to `finish_disk_read`.
    OnDisk,
    /// Neither tier holds the tile: it has to be fetched anew.
    Miss,
}

/// What a `TileCache` stands for in contracts: both tiers in order of
/// recency, least recently used first, and their limits.
pub struct CacheModel {
    pub memory: Seq<Slot<TileEntry>>,
    pub disk: Seq<Slot<()>>,
    pub memory_limit: nat,
    pub disk_limit: nat,
}

/// Every slot is accounted at the length of its pixel data.
pub open spec fn sizes_exact(s: Seq<Slot<TileEntry>>) -> bool {
    forall|i: int| 0 <= i < s.len() ==> (#[trigger] s[i]).size == s[i].value@.bytes.len()
}

/// The slot under which `entry` is held in the memory tier.
pub open spec fn memory_slot(key: TileKey, entry: TileEntry) -> Slot<TileEntry> {
    Slot { key, size: entry.data.len(), value: entry }
}

/// The slot under which the disk tier indexes the copy of a memory slot.
pub open spec fn disk_slot(slot: Slot<TileEntry>) -> Slot<()> {
    Slot { key: slot.key, size: slot.size, value: () }
}

/// Whether the disk tier already holds what the memory slot holds.
pub open spec fn already_persisted(disk: Seq<Slot<()>>, slot: Slot<TileEntry>) -> bool {
    slot.value.disk_backed && has_key(disk, slot.key)
}

/// One delete action for each slot, in order.
pub open spec fn deletions(s: Seq<Slot<()>>) -> Seq<DiskAction> {
    Seq::new(s.len(), |i: int| DiskAction::Delete { key: s[i].key })
}

/// The disk tier after one evicted memory slot was offered to it.
///
/// A slot that is already persisted only has its disk copy marked as used;
/// one that is larger than the whole disk limit is dropped; any other is
/// admitted, which may push the oldest disk copies out.
pub open spec fn disk_after_offer(disk: Seq<Slot<()>>, limit: nat, slot: Slot<TileEntry>) -> Seq<
    Slot<()>,
> {
    if already_persisted(disk, slot) {
        touched(disk, slot.key)
    } else if slot.size > limit {
        disk
    } else {
        inserted(disk, limit, disk_slot(slot))
    }
}

/// The disk work that offering one evicted memory slot calls for: the
/// deletions of the disk copies it pushes out, oldest first, then its write.
pub open spec fn offer_actions(disk: Seq<Slot<()>>, limit: nat, slot: Slot<TileEntry>) -> Seq<
    DiskAction,
> {
    if already_persisted(disk, slot) || slot.size > limit {
        Seq::empty()
    } else {
        deletions(displaced(disk, limit, disk_slot(slot))).push(
            DiskAction::Write { key: slot.key, data: slot.value.data },
        )
    }
}

/// The disk tier after the evicted memory slots `out` were offered to it
/// one after the other, in the order in which they left memory.
pub open spec fn disk_after_write_back(
    disk: Seq<Slot<()>>,
    limit: nat,
    out: Seq<Slot<TileEntry>>,
) -> Seq<Slot<()>>
    decreases out.len(),
{
    if out.len() == 0 {
        disk
    } else {
        disk_after_offer(disk_after_write_back(disk, limit, out.drop_last()), limit, out.last())
    }
}

/// The disk work of writing back the evicted memory slots `out`.
pub open spec fn write_back_actions(
    disk: Seq<Slot<()>>,
    limit: nat,
    out: Seq<Slot<TileEntry>>,
) -> Seq<DiskAction>
    decreases out.len(),
{
    if out.len() == 0 {
        Seq::empty()
    } else {
        write_back_actions(disk, limit, out.drop_last()) + offer_actions(
            disk_after_write_back(disk, limit, out.drop_last()),
            limit,
            out.last(),
        )
    }
}

/// The share of the memory limit that stays resident after a memory
/// pressure signal: one half.
pub open spec fn pressure_target(memory_limit: nat) -> nat {
    memory_limit / 2
}

impl CacheModel {
    /// Both tiers keep their budget, hold no key twice, and account every
    /// resident tile at the length of its data.
    pub open spec fn wf(self) -> bool {
        &&& 0 < self.memory_limit <= usize::MAX
        &&& 0 < self.disk_limit <= usize::MAX
        &&& keys_distinct(self.memory)
        &&& keys_distinct(self.disk)
        &&& total_size(self.memory) <= self.memory_limit
        &&& total_size(self.disk) <= self.disk_limit
        &&& sizes_exact(self.memory)
    }

    /// The bytes resident in the memory tier.
    pub open spec fn resident_bytes(self) -> nat {
        total_size(self.memory)
    }

    /// The bytes the disk tier accounts for.
    pub open spec fn persisted_bytes(self) -> nat {
        total_size(self.disk)
    }

    /// Whether the memory tier holds `key`.
    pub open spec fn resident(self, key: TileKey) -> bool {
        has_key(self.memory, key)
    }

    /// Whether the disk tier holds `key`.
    pub open spec fn persisted(self, key: TileKey) -> bool {
        has_key(self.disk, key)
    }

    /// Whether neither tier holds `key`.
    pub open spec fn absent(self, key: TileKey) -> bool {
        !self.resident(key) && !self.persisted(key)
    }

    /// The resident tile under `key`.
    pub open spec fn resident_tile(self, key: TileKey) -> TileData {
        self.memory[key_index(self.memory, key)].value@
    }

    /// The cache after a lookup of `key`: the tier that answered marks the
    /// tile as used just now.
    pub open spec fn after_get(self, key: TileKey) -> CacheModel {
        if self.resident(key) {
            CacheModel { memory: touched(self.memory, key), ..self }
        } else {
            CacheModel { disk: touched(self.disk, key), ..self }
        }
    }

    /// The memory slots that storing `entry` under `key` evicts, oldest first.
    pub open spec fn put_evicts(self, key: TileKey, entry: TileEntry) -> Seq<Slot<TileEntry>> {
        displaced(self.memory, self.memory_limit, memory_slot(key, entry))
    }

    /// The cache after `entry` was stored under `key`, for an entry that
    /// fits the memory limit.
    pub open spec fn after_put(self, key: TileKey, entry: TileEntry) -> CacheModel {
        CacheModel {
            memory: inserted(self.memory, self.memory_limit, memory_slot(key, entry)),
            disk: disk_after_write_back(self.disk, self.disk_limit, self.put_evicts(key, entry)),
            ..self
        }
    }

    /// The disk work that storing `entry` under `key` calls for.
    pub open spec fn put_actions(self, key: TileKey, entry: TileEntry) -> Seq<DiskAction> {
        write_back_actions(self.disk, self.disk_limit, self.put_evicts(key, entry))
    }

    /// The cache after `key` was invalidated.
    pub open spec fn after_invalidate(self, key: TileKey) -> CacheModel {
        CacheModel {
            memory: without_key(self.memory, key),
            disk: without_key(self.disk, key),
            ..self
        }
    }

    /// The disk work that invalidating `key` calls for.
    pub open spec fn invalidate_actions(self, key: TileKey) -> Seq<DiskAction> {
        if self.persisted(key) {
            seq![DiskAction::Delete { key }]
        } else {
            Seq::empty()
        }
    }

    /// The cache after the host reported that the disk copy of `key` could
    /// not be read or written: the disk tier no longer counts on it.
    pub open spec fn after_disk_failure(self, key: TileKey) -> CacheModel {
        CacheModel { disk: without_key(self.disk, key), ..self }
    }

    /// The cache after it was given the limits `memory_limit` and
    /// `disk_limit`: the disk tier is cut down to its new limit first, then
    /// the memory tier is cut down to its own and what leaves it is written
    /// back.
    pub open spec fn after_reconfigure(self, memory_limit: nat, disk_limit: nat) -> CacheModel {
        CacheModel {
            memory: retained(self.memory, memory_limit),
            disk: disk_after_write_back(
                retained(self.disk, disk_limit),
                disk_limit,
                evicted(self.memory, memory_limit),
            ),
            memory_limit,
            disk_limit,
        }
    }

    /// The disk work that new limits call for.
    pub open spec fn reconfigure_actions(self, memory_limit: nat, disk_limit: nat) -> Seq<
        DiskAction,
    > {
        deletions(evicted(self.disk, disk_limit)) + write_back_actions(
            retained(self.disk, disk_limit),
            disk_limit,
            evicted(self.memory, memory_limit),
        )
    }

    /// The memory slots that a memory pressure signal evicts, oldest first.
    pub open spec fn pressure_evicts(self) -> Seq<Slot<TileEntry>> {
        evicted(self.memory, pressure_target(self.memory_limit))
    }

    /// The cache after a memory pressure signal.
    pub open spec fn after_pressure(self, level: PressureLevel) -> CacheModel {
        CacheModel {
            memory: retained(self.memory, pressure_target(self.memory_limit)),
            disk: match level {
                PressureLevel::Warning => disk_after_write_back(
                    self.disk,
                    self.disk_limit,
                    self.pressure_evicts(),
                ),
                PressureLevel::Critical => self.disk,
            },
            ..self
        }
    }

    /// The disk work that a memory pressure signal calls for.
    pub open spec fn pressure_actions(self, level: PressureLevel) -> Seq<DiskAction> {
        match level {
            PressureLevel::Warning => write_back_actions(
                self.disk,
                self.disk_limit,
                self.pressure_evicts(),
            ),
            PressureLevel::Critical => Seq::empty(),
        }
    }
}

/// Offers one evicted memory slot to the disk tier and appends the disk
/// work this calls for to `actions`.
fn offer(disk: &mut LruTier<()>, slot: Slot<TileEntry>, actions: &mut Vec<DiskAction>)
    requires
        old(disk).wf(),
    ensures
        final(disk).wf(),
        final(disk).limit() == old(disk).limit(),
        final(disk)@ == disk_after_offer(old(disk)@, old(disk).limit(), slot),
        final(actions)@ == old(actions)@ + offer_actions(old(disk)@, old(disk).limit(), slot),
{
    if slot.value.disk_backed && disk.position(slot.key).is_some() {
        disk.touch(slot.key);
        assert(actions@ =~= old(actions)@ + Seq::<DiskAction>::empty());
        return;
    }
    let ghost before = actions@;
    match disk.insert(slot.key, slot.size, ()) {
        Err(_) => {
            assert(actions@ =~= old(actions)@ + Seq::<DiskAction>::empty());
        },
        Ok(gone) => {
            let mut i: usize = 0;
            while i < gone.len()
                invariant
                    i <= gone@.len(),
                    actions@ == before + deletions(gone@.take(i as int)),
                decreases gone@.len() - i,
            {
                actions.push(DiskAction::Delete { key: gone[i].key });
                i += 1;
                assert(actions@ =~= before + deletions(gone@.take(i as int)));
            }
            assert(gone@.take(i as int) =~= gone@);
            actions.push(DiskAction::Write { key: slot.key, data: slot.value.data });
            assert(actions@ =~= before + deletions(gone@).push(
                DiskAction::Write { key: slot.key, data: slot.value.data },
            ));
        },
    }
}

/// Offers the evicted memory slots `out` to the disk tier, oldest first.
fn write_back(disk: &mut LruTier<()>, out: Vec<Slot<TileEntry>>) -> (actions: Vec<DiskAction>)
    requires
        old(disk).wf(),
    ensures
        final(disk).wf(),
        final(disk).limit() == old(disk).limit(),
        final(disk)@ == disk_after_write_back(old(disk)@, old(disk).limit(), out@),
        actions@ == write_back_actions(old(disk)@, old(disk).limit(), out@),
{
    let mut actions: Vec<DiskAction> = Vec::new();
    let ghost limit = disk.limit();
    let ghost start = disk@;
    let ghost all = out@;
    proof {
        assert(all.take(0) =~= Seq::<Slot<TileEntry>>::empty());
    }
    for slot in it: out
        invariant
            disk.wf(),
            disk.limit() == limit,
            it.seq() == all,
            disk@ == disk_after_write_back(start, limit, all.take(it.index() as int)),
            actions@ == write_back_actions(start, limit, all.take(it.index() as int)),
    {
        proof {
            assert(all.take(it.index() + 1).drop_last() =~= all.take(it.index() as int));
            assert(all.take(it.index() + 1).last() == slot);
        }
        offer(disk, slot, &mut actions);
    }
    proof {
        assert(all.take(all.len() as int) =~= all);
    }
    actions
}

/// Writing back keeps the disk tier within its budget, whatever is offered.
pub proof fn lemma_write_back_keeps_budget(
    disk: Seq<Slot<()>>,
    limit: nat,
    out: Seq<Slot<TileEntry>>,
)
    requires
        keys_distinct(disk),
        total_size(disk) <= limit,
    ensures
        keys_distinct(disk_after_write_back(disk, limit, out)),
        total_size(disk_after_write_back(disk, limit, out)) <= limit,
    decreases out.len(),
{
    if out.len() > 0 {
        let prior = disk_after_write_back(disk, limit, out.drop_last());
        lemma_write_back_keeps_budget(disk, limit, out.drop_last());
        lemma_offer_keeps_budget(prior, limit, out.last());
    }
}

/// Offering one slot keeps the disk tier within its budget.
pub proof fn lemma_offer_keeps_budget(disk: Seq<Slot<()>>, limit: nat, slot: Slot<TileEntry>)
    requires
        keys_distinct(disk),
        total_size(disk) <= limit,
    ensures
        keys_distinct(disk_after_offer(disk, limit, slot)),
        total_size(disk_after_offer(disk, limit, slot)) <= limit,
{
    if already_persisted(disk, slot) {
        lemma_touched_keeps(disk, slot.key);
    } else if slot.size > limit {
    } else {
        lemma_inserted_keeps(disk, limit, disk_slot(slot));
    }
}

/// Marking a key as used changes neither the bytes held nor the keys held.
pub proof fn lemma_touched_keeps<V>(s: Seq<Slot<V>>, key: TileKey)
    requires
        keys_distinct(s),
    ensures
        keys_distinct(touched(s, key)),
        total_size(touched(s, key)) == total_size(s),
        forall|k: TileKey| has_key(touched(s, key), k) <==> has_key(s, k),
        has_key(s, key) ==> touched(s, key).last() == s[key_index(s, key)],
{
    if has_key(s, key) {
        let i = key_index(s, key);
        let r = s.remove(i);
        lemma_total_size_remove(s, i);
        lemma_total_size_push(r, s[i]);
        lemma_remove_keeps_distinct(s, i);
        lemma_push_keeps_distinct(r, s[i]);
        let t = r.push(s[i]);
        assert forall|k: TileKey| has_key(t, k) <==> has_key(s, k) by {
            if has_key(t, k) {
                let a = key_index(t, k);
                if a < r.len() {
                    assert(t[a] == r[a]);
                    assert(has_key(r, k));
                }
            }
            if has_key(s, k) {
                if k == key {
                    assert(t[r.len() as int].key == k);
                } else {
                    let a = key_index(r, k);
                    assert(t[a] == r[a]);
                }
            }
        }
    }
}

/// Storing a slot that fits the limit keeps the budget and the keys distinct.
pub proof fn lemma_inserted_keeps<V>(s: Seq<Slot<V>>, limit: nat, slot: Slot<V>)
    requires
        keys_distinct(s),
        slot.size <= limit,
    ensures
        keys_distinct(inserted(s, limit, slot)),
        total_size(inserted(s, limit, slot)) <= limit,
        has_key(inserted(s, limit, slot), slot.key),
        inserted(s, limit, slot).last() == slot,
{
    let base = without_key(s, slot.key);
    let target = (limit - slot.size) as nat;
    if has_key(s, slot.key) {
        lemma_remove_keeps_distinct(s, key_index(s, slot.key));
    }
    lemma_evict_count_least(base, target);
    let k = evict_count(base, target) as int;
    lemma_skip_keeps_distinct(base, k);
    lemma_skip_has_key(base, k, slot.key);
    lemma_push_keeps_distinct(base.skip(k), slot);
    lemma_total_size_push(base.skip(k), slot);
}

/// Taking slots away keeps every remaining slot accounted at its length.
pub proof fn lemma_sizes_exact_parts(s: Seq<Slot<TileEntry>>, key: TileKey, target: nat)
    requires
        sizes_exact(s),
    ensures
        sizes_exact(without_key(s, key)),
        sizes_exact(touched(s, key)),
        sizes_exact(retained(s, target)),
        sizes_exact(evicted(s, target)),
{
    lemma_evict_count_least(s, target);
    let k = evict_count(s, target) as int;
    assert forall|i: int| 0 <= i < s.skip(k).len() implies (#[trigger] s.skip(k)[i]).size
        == s.skip(k)[i].value@.bytes.len() by {
        assert(s.skip(k)[i] == s[i + k]);
    }
    assert forall|i: int| 0 <= i < s.take(k).len() implies (#[trigger] s.take(k)[i]).size
        == s.take(k)[i].value@.bytes.len() by {
        assert(s.take(k)[i] == s[i]);
    }
    if has_key(s, key) {
        let j = key_index(s, key);
        let r = s.remove(j);
        assert forall|i: int| 0 <= i < r.len() implies (#[trigger] r[i]).size
            == r[i].value@.bytes.len() by {
            let i0 = if i < j { i } else { i + 1 };
            assert(r[i] == s[i0]);
        }
        let t = r.push(s[j]);
        assert forall|i: int| 0 <= i < t.len() implies (#[trigger] t[i]).size
            == t[i].value@.bytes.len() by {
            if i < r.len() {
                assert(t[i] == r[i]);
            }
        }
    }
}

/// A two-tier cache of decoded tiles with bounded memory and disk budgets.
pub struct TileCache {
    memory: LruTier<TileEntry>,
    disk: LruTier<()>,
}

impl TileCache {
    /// The cache is in a state that its own operations can reach.
    pub closed spec fn wf(&self) -> bool {
        &&& self.memory.wf()
        &&& self.disk.wf()
        &&& self.memory.limit() > 0
        &&& self.disk.limit() > 0
        &&& sizes_exact(self.memory@)
    }

    /// In every reachable state both tiers are within their budgets: the
    /// resident bytes never exceed the memory limit, the bytes on disk
    /// never exceed the disk limit, and neither tier holds a key twice.
    pub proof fn lemma_budget_kept(&self)
        requires
            self.wf(),
        ensures
            self@.wf(),
            self@.resident_bytes() <= self@.memory_limit,
            self@.persisted_bytes() <= self@.disk_limit,
    {
        self.memory.lemma_wf();
        self.disk.lemma_wf();
    }

    /// Both tiers in order of recency, and their limits. The running byte
    /// counts of the tiers are no part of the model: in a well-formed cache
    /// they are the total sizes of the two sequences, which is what
    /// `resident_bytes` and `persisted_bytes` return.
    pub closed spec fn view(&self) -> CacheModel {
        CacheModel {
            memory: self.memory@,
            disk: self.disk@,
            memory_limit: self.memory.limit(),
            disk_limit: self.disk.limit(),
        }
    }

    /// An empty cache with the given budget.
    pub fn new(budget: CacheBudget) -> (cache: TileCache)
        ensures
            cache.wf(),
            cache@.memory == Seq::<Slot<TileEntry>>::empty(),
            cache@.disk == Seq::<Slot<()>>::empty(),
            cache@.memory_limit == budget.memory_limit(),
            cache@.disk_limit == budget.disk_limit(),
    {
        let memory_limit = ContentCache::memory_limit_bytes(&budget);
        let disk_limit = PersistentCache::disk_limit_bytes(&budget);
        let memory = LruTier::<TileEntry>::new(memory_limit);
        let disk = LruTier::<()>::new(disk_limit);
        proof {
            memory.lemma_wf();
            disk.lemma_wf();
        }
        TileCache { memory, disk }
    }

    /// The bytes resident in the memory tier right now.
    pub fn resident_bytes(&self) -> (n: usize)
        requires
            self.wf(),
        ensures
            n == self@.resident_bytes(),
            n <= self@.memory_limit,
    {
        proof {
            self.memory.lemma_wf();
        }
        self.memory.used_bytes()
    }

    /// The bytes the disk tier accounts for right now.
    pub fn persisted_bytes(&self) -> (n: usize)
        requires
            self.wf(),
        ensures
            n == self@.persisted_bytes(),
            n <= self@.disk_limit,
    {
        proof {
            self.disk.lemma_wf();
        }
        self.disk.used_bytes()
    }

    /// The keys resident in the memory tier, least recently used first.
    pub fn resident_keys(&self) -> (keys: Vec<TileKey>)
        ensures
            keys@ == keys_of(self@.memory),
    {
        self.memory.keys()
    }

    /// The keys the disk tier holds, least recently used first.
    pub fn persisted_keys(&self) -> (keys: Vec<TileKey>)
        ensures
            keys@ == keys_of(self@.disk),
    {
        self.disk.keys()
    }

    /// Looks `key` up, in the memory tier first and in the disk tier second.
    ///
    /// The tier that holds the tile marks it as used just now. A tile that
    /// only the disk tier holds is not returned: the host reads it and
    /// promotes it with `finish_disk_read`.
    pub fn get(&mut self, key: TileKey) -> (found: Lookup)
        requires
            old(self).wf(),
        ensures
            final(self).wf(),
            final(self)@ == old(self)@.after_get(key),
            match found {
                Lookup::Hit(entry) => old(self)@.resident(key) && entry@ == old(
                    self,
                )@.resident_tile(key),
                Lookup::OnDisk => !old(self)@.resident(key) && old(self)@.persisted(key),
                Lookup::Miss => old(self)@.absent(key),
            },
    {
        proof {
            self.memory.lemma_wf();
            self.disk.lemma_wf();
            lemma_sizes_exact_parts(self.memory@, key, 0);
            lemma_touched_keeps(self.memory@, key);
            lemma_touched_keeps(self.disk@, key);
        }
        match self.memory.position(key) {
            Some(i) => {
                let entry = self.memory.slot_at(i).value.duplicate();
                self.memory.touch(key);
                proof {
                    self.memory.lemma_wf();
                }
                Lookup::Hit(entry)
            },
            None => {
                let on_disk = self.disk.touch(key);
                proof {
                    self.disk.lemma_wf();
                }
                if on_disk {
                    Lookup::OnDisk
                } else {
                    Lookup::Miss
                }
            },
        }
    }

    /// Stores `entry` under `key` in the memory tier, as the tile used most
    /// recently, replacing a tile already held under `key`.
    ///
    /// Where the tier is too full, its least recently used tiles are
    /// evicted, oldest first, until the new one fits. Each evicted tile is
    /// offered to the disk tier, which admits it under its own limit and its
    /// own eviction; the disk work this calls for is returned in the order
    /// in which it has to be done. An evicted tile that is marked as backed
    /// by disk is not written again while the disk tier still holds its
    /// key. An entry that is larger than the whole memory limit is refused,
    /// and nothing changes.
    pub fn put(&mut self, key: TileKey, entry: TileEntry) -> (outcome: Result<
        Vec<DiskAction>,
        CoreError,
    >)
        requires
            old(self).wf(),
        ensures
            final(self).wf(),
            outcome is Err <==> entry@.bytes.len() > old(self)@.memory_limit,
            outcome matches Err(e) ==> e == CoreError::CapacityExceeded && final(self)@ == old(
                self,
            )@,
            outcome matches Ok(actions) ==> final(self)@ == old(self)@.after_put(key, entry)
                && actions@ == old(self)@.put_actions(key, entry),
    {
        let size = entry.size();
        proof {
            self.memory.lemma_wf();
            self.disk.lemma_wf();
            lemma_sizes_exact_inserted(self.memory@, self.memory.limit(), memory_slot(key, entry));
        }
        match self.memory.insert(key, size, entry) {
            Err(e) => Err(e),
            Ok(out) => {
                let actions = write_back(&mut self.disk, out);
                Ok(actions)
            },
        }
    }

    /// Removes `key` from both tiers. A key that neither tier holds is no
    /// error. Returns the deletion of the disk copy, where there was one.
    pub fn invalidate(&mut self, key: TileKey) -> (actions: Vec<DiskAction>)
        requires
            old(self).wf(),
        ensures
            final(self).wf(),
            final(self)@ == old(self)@.after_invalidate(key),
            final(self)@.absent(key),
            actions@ == old(self)@.invalidate_actions(key),
    {
        proof {
            self.memory.lemma_wf();
            lemma_sizes_exact_parts(self.memory@, key, 0);
        }
        let _ = self.memory.remove(key);
        let on_disk = self.disk.remove(key);
        let mut actions: Vec<DiskAction> = Vec::new();
        if on_disk.is_some() {
            actions.push(DiskAction::Delete { key });
            assert(actions@ =~= seq![DiskAction::Delete { key }]);
        }
        actions
    }

    /// Absorbs a failed read or write of the disk copy of `key`: the disk
    /// tier no longer counts on that copy. The memory tier is not touched.
    pub fn disk_failure(&mut self, key: TileKey)
        requires
            old(self).wf(),
        ensures
            final(self).wf(),
            final(self)@ == old(self)@.after_disk_failure(key),
            !final(self)@.persisted(key),
    {
        let _ = self.disk.remove(key);
    }

    /// Finishes a lookup that `get` answered with `OnDisk`.
    ///
    /// `read` holds the bytes that the host read from the disk copy of
    /// `key`, or nothing where the read failed. Bytes are promoted into the
    /// memory tier like a `put` of an entry that is marked as backed by
    /// disk. A failed read is absorbed like `disk_failure` and reported as
    /// `IoFailure`: the caller treats the lookup as a miss.
    pub fn finish_disk_read(&mut self, key: TileKey, read: Option<Vec<u8>>) -> (outcome: Result<
        Vec<DiskAction>,
        CoreError,
    >)
        requires
            old(self).wf(),
        ensures
            final(self).wf(),
            read is None ==> outcome == Err::<Vec<DiskAction>, CoreError>(CoreError::IoFailure)
                && final(self)@ == old(self)@.after_disk_failure(key),
            read matches Some(data) ==> {
                let entry = TileEntry { data, disk_backed: true };
                &&& outcome is Err <==> data@.len() > old(self)@.memory_limit
                &&& outcome matches Err(e) ==> e == CoreError::CapacityExceeded && final(self)@
                    == old(self)@
                &&& outcome matches Ok(actions) ==> final(self)@ == old(self)@.after_put(
                    key,
                    entry,
                ) && actions@ == old(self)@.put_actions(key, entry)
            },
    {
        match read {
            None => {
                self.disk_failure(key);
                Err(CoreError::IoFailure)
            },
            Some(data) => self.put(key, TileEntry { data, disk_backed: true }),
        }
    }

    /// Answers a low-memory signal of the platform: evicts least recently
    /// used tiles, oldest first, until no more than half of the memory limit
    /// is resident.
    ///
    /// Under `Warning` the evicted tiles are offered to the disk tier as in
    /// `put`, and the disk work is returned for the host to do later. Under
    /// `Critical` they are dropped and the disk tier is left alone. The call
    /// itself does no disk work and cannot fail.
    pub fn on_memory_pressure(&mut self, level: PressureLevel) -> (actions: Vec<DiskAction>)
        requires
            old(self).wf(),
        ensures
            final(self).wf(),
            final(self)@ == old(self)@.after_pressure(level),
            final(self)@.resident_bytes() <= pressure_target(old(self)@.memory_limit),
            actions@ == old(self)@.pressure_actions(level),
    {
        proof {
            self.memory.lemma_wf();
            lemma_sizes_exact_parts(
                self.memory@,
                TileKey { region: 0, version: 0 },
                pressure_target(self.memory.limit()),
            );
        }
        let target = self.memory.limit_bytes() / 2;
        let out = self.memory.shrink_to(target);
        match level {
            PressureLevel::Warning => write_back(&mut self.disk, out),
            PressureLevel::Critical => Vec::new(),
        }
    }
}

impl TileCache {
    /// Replaces the budget of a running cache.
    ///
    /// Each tier is cut down to its new limit by evicting its least
    /// recently used tiles: first the disk tier, whose evicted copies are to
    /// be deleted, then the memory tier, whose evicted tiles are offered to
    /// the disk tier as in `put`.
    pub fn reconfigure(&mut self, budget: CacheBudget) -> (actions: Vec<DiskAction>)
        requires
            old(self).wf(),
        ensures
            final(self).wf(),
            final(self)@ == old(self)@.after_reconfigure(
                budget.memory_limit(),
                budget.disk_limit(),
            ),
            actions@ == old(self)@.reconfigure_actions(budget.memory_limit(), budget.disk_limit()),
    {
        let memory_limit = ContentCache::memory_limit_bytes(&budget);
        let disk_limit = PersistentCache::disk_limit_bytes(&budget);
        proof {
            lemma_sizes_exact_parts(
                self.memory@,
                TileKey { region: 0, version: 0 },
                memory_limit as nat,
            );
        }
        let gone = self.disk.resize(disk_limit);
        let mut actions: Vec<DiskAction> = Vec::new();
        let mut i: usize = 0;
        while i < gone.len()
            invariant
                i <= gone@.len(),
                actions@ == deletions(gone@.take(i as int)),
            decreases gone@.len() - i,
        {
            actions.push(DiskAction::Delete { key: gone[i].key });
            i += 1;
            assert(actions@ =~= deletions(gone@.take(i as int)));
        }
        assert(gone@.take(i as int) =~= gone@);
        let out = self.memory.resize(memory_limit);
        let mut more = write_back(&mut self.disk, out);
        actions.append(&mut more);
        actions
    }
}

impl ContentCache for TileCache {
    open spec fn memory_limit(&self) -> nat {
        self@.memory_limit
    }

    fn memory_limit_bytes(&self) -> (n: usize) {
        self.memory.limit_bytes()
    }
}

impl PersistentCache for TileCache {
    open spec fn disk_limit(&self) -> nat {
        self@.disk_limit
    }

    fn disk_limit_bytes(&self) -> (n: usize) {
        self.disk.limit_bytes()
    }
}

/// Storing an exactly accounted slot keeps every slot exactly accounted.
pub proof fn lemma_sizes_exact_inserted(s: Seq<Slot<TileEntry>>, limit: nat, slot: Slot<TileEntry>)
    requires
        sizes_exact(s),
        slot.size == slot.value@.bytes.len(),
    ensures
        sizes_exact(inserted(s, limit, slot)),
        sizes_exact(displaced(s, limit, slot)),
{
    let base = without_key(s, slot.key);
    let target = (limit - slot.size) as nat;
    lemma_sizes_exact_parts(s, slot.key, target);
    lemma_sizes_exact_parts(base, slot.key, target);
    let kept = retained(base, target);
    let t = kept.push(slot);
    assert forall|i: int| 0 <= i < t.len() implies (#[trigger] t[i]).size
        == t[i].value@.bytes.len() by {
        if i < kept.len() {
            assert(t[i] == kept[i]);
        }
    }
}

} // verus!
