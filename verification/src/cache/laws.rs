//! What holds of the tile cache in every state and on every input, stated
//! over its model.

use vstd::prelude::*;

use crate::cache::lru::{
    evict_count, evicted, has_key, key_index, lemma_evict_count_least,
    lemma_remove_keeps_distinct, lemma_skip_keeps_distinct, lemma_total_size_remove, retained,
    total_size, without_key, Slot,
};
use crate::cache::tile::{TileEntry, TileKey};
use crate::cache::tiered::{
    lemma_inserted_keeps, lemma_sizes_exact_inserted, lemma_sizes_exact_parts,
    lemma_touched_keeps, lemma_write_back_keeps_budget, memory_slot, pressure_target, CacheModel,
    DiskAction, PressureLevel,
};

verus! {

/// One operation on the cache.
pub enum CacheOp {
    /// A lookup.
    Get { key: TileKey },
    /// A store.
    Put { key: TileKey, entry: TileEntry },
    /// An invalidation.
    Invalidate { key: TileKey },
    /// A failed read or write of a disk copy.
    DiskFailure { key: TileKey },
    /// The end of a read of a disk copy, with the bytes or without.
    DiskRead { key: TileKey, read: Option<Vec<u8>> },
    /// A low-memory signal.
    Pressure { level: PressureLevel },
    /// New limits.
    Reconfigure { memory_limit: usize, disk_limit: usize },
}

impl CacheOp {
    /// The operation is one that the cache accepts: new limits are positive.
    pub open spec fn admissible(self) -> bool {
        self matches CacheOp::Reconfigure { memory_limit, disk_limit } ==> memory_limit > 0
            && disk_limit > 0
    }
}

impl CacheModel {
    /// The cache after `op`. An entry that is larger than the memory limit
    /// is refused and leaves the cache as it was.
    pub open spec fn after(self, op: CacheOp) -> CacheModel {
        match op {
            CacheOp::Get { key } => self.after_get(key),
            CacheOp::Put { key, entry } => if entry.data.len() > self.memory_limit {
                self
            } else {
                self.after_put(key, entry)
            },
            CacheOp::Invalidate { key } => self.after_invalidate(key),
            CacheOp::DiskFailure { key } => self.after_disk_failure(key),
            CacheOp::DiskRead { key, read } => match read {
                None => self.after_disk_failure(key),
                Some(data) => if data.len() > self.memory_limit {
                    self
                } else {
                    self.after_put(key, TileEntry { data, disk_backed: true })
                },
            },
            CacheOp::Pressure { level } => self.after_pressure(level),
            CacheOp::Reconfigure { memory_limit, disk_limit } => self.after_reconfigure(
                memory_limit as nat,
                disk_limit as nat,
            ),
        }
    }

    /// The cache after the operations `ops`, done one after the other.
    pub open spec fn after_all(self, ops: Seq<CacheOp>) -> CacheModel
        decreases ops.len(),
    {
        if ops.len() == 0 {
            self
        } else {
            self.after_all(ops.drop_last()).after(ops.last())
        }
    }
}

/// No operation breaks the budgets: after any one operation on a cache in
/// which both tiers are within their limits, both tiers are within their
/// limits, no key is held twice, and every resident tile is accounted at
/// its length.
pub proof fn lemma_operation_keeps_budget(m: CacheModel, op: CacheOp)
    requires
        m.wf(),
        op.admissible(),
    ensures
        m.after(op).wf(),
        m.after(op).resident_bytes() <= m.after(op).memory_limit,
        m.after(op).persisted_bytes() <= m.after(op).disk_limit,
{
    match op {
        CacheOp::Get { key } => {
            lemma_touched_keeps(m.memory, key);
            lemma_touched_keeps(m.disk, key);
            lemma_sizes_exact_parts(m.memory, key, 0);
        },
        CacheOp::Put { key, entry } => {
            if entry.data.len() <= m.memory_limit {
                lemma_put_keeps_budget(m, key, entry);
            }
        },
        CacheOp::Invalidate { key } => {
            lemma_invalidate_then_get_misses(m, key);
        },
        CacheOp::DiskFailure { key } => {
            lemma_disk_failure_keeps_budget(m, key);
        },
        CacheOp::DiskRead { key, read } => {
            match read {
                None => {
                    lemma_disk_failure_keeps_budget(m, key);
                },
                Some(data) => {
                    if data.len() <= m.memory_limit {
                        lemma_put_keeps_budget(m, key, TileEntry { data, disk_backed: true });
                    }
                },
            }
        },
        CacheOp::Pressure { level } => {
            let target = pressure_target(m.memory_limit);
            lemma_evict_count_least(m.memory, target);
            lemma_skip_keeps_distinct(m.memory, evict_count(m.memory, target) as int);
            lemma_sizes_exact_parts(m.memory, TileKey { region: 0, version: 0 }, target);
            lemma_write_back_keeps_budget(m.disk, m.disk_limit, m.pressure_evicts());
        },
        CacheOp::Reconfigure { memory_limit, disk_limit } => {
            lemma_evict_count_least(m.memory, memory_limit as nat);
            lemma_skip_keeps_distinct(m.memory, evict_count(m.memory, memory_limit as nat) as int);
            lemma_sizes_exact_parts(
                m.memory,
                TileKey { region: 0, version: 0 },
                memory_limit as nat,
            );
            lemma_evict_count_least(m.disk, disk_limit as nat);
            lemma_skip_keeps_distinct(m.disk, evict_count(m.disk, disk_limit as nat) as int);
            lemma_write_back_keeps_budget(
                retained(m.disk, disk_limit as nat),
                disk_limit as nat,
                evicted(m.memory, memory_limit as nat),
            );
        },
    }
}

/// The resident bytes never exceed the memory limit: after any sequence of
/// operations on a cache that began within its budgets, the memory tier
/// holds no more than the memory limit and the disk tier no more than the
/// disk limit.
pub proof fn lemma_every_run_keeps_budget(m: CacheModel, ops: Seq<CacheOp>)
    requires
        m.wf(),
        forall|i: int| 0 <= i < ops.len() ==> (#[trigger] ops[i]).admissible(),
    ensures
        m.after_all(ops).wf(),
        m.after_all(ops).resident_bytes() <= m.after_all(ops).memory_limit,
        m.after_all(ops).persisted_bytes() <= m.after_all(ops).disk_limit,
    decreases ops.len(),
{
    if ops.len() > 0 {
        lemma_every_run_keeps_budget(m, ops.drop_last());
        assert(ops.last().admissible());
        lemma_operation_keeps_budget(m.after_all(ops.drop_last()), ops.last());
    }
}

/// Storing an entry that fits the memory limit keeps both budgets.
pub proof fn lemma_put_keeps_budget(m: CacheModel, key: TileKey, entry: TileEntry)
    requires
        m.wf(),
        entry.data.len() <= m.memory_limit,
    ensures
        m.after_put(key, entry).wf(),
{
    let slot = memory_slot(key, entry);
    lemma_inserted_keeps(m.memory, m.memory_limit, slot);
    lemma_sizes_exact_inserted(m.memory, m.memory_limit, slot);
    lemma_write_back_keeps_budget(m.disk, m.disk_limit, m.put_evicts(key, entry));
}

/// Forgetting a disk copy keeps both budgets.
pub proof fn lemma_disk_failure_keeps_budget(m: CacheModel, key: TileKey)
    requires
        m.wf(),
    ensures
        m.after_disk_failure(key).wf(),
        !m.after_disk_failure(key).persisted(key),
        m.after_disk_failure(key).memory == m.memory,
{
    if has_key(m.disk, key) {
        let i = key_index(m.disk, key);
        lemma_remove_keeps_distinct(m.disk, i);
        lemma_total_size_remove(m.disk, i);
    }
}

/// A refused entry changes nothing: storing an entry that is larger than
/// the memory limit leaves the contents and the accounting of both tiers
/// as they were.
pub proof fn lemma_oversized_put_changes_nothing(m: CacheModel, key: TileKey, entry: TileEntry)
    requires
        entry.data.len() > m.memory_limit,
    ensures
        m.after(CacheOp::Put { key, entry }) == m,
        m.after(CacheOp::Put { key, entry }).resident_bytes() == m.resident_bytes(),
{
}

/// Invalidating a key and then looking it up finds nothing, whatever the
/// cache held before: after `invalidate(key)` neither tier holds `key`, so
/// `get(key)` answers `Miss` and changes nothing.
pub proof fn lemma_invalidate_then_get_misses(m: CacheModel, key: TileKey)
    requires
        m.wf(),
    ensures
        m.after_invalidate(key).wf(),
        m.after_invalidate(key).absent(key),
        m.after_invalidate(key).after_get(key) == m.after_invalidate(key),
{
    let after = m.after_invalidate(key);
    if has_key(m.memory, key) {
        let i = key_index(m.memory, key);
        lemma_remove_keeps_distinct(m.memory, i);
        lemma_total_size_remove(m.memory, i);
    }
    if has_key(m.disk, key) {
        let i = key_index(m.disk, key);
        lemma_remove_keeps_distinct(m.disk, i);
        lemma_total_size_remove(m.disk, i);
    }
    lemma_sizes_exact_parts(m.memory, key, 0);
}

/// Least recently used first: where a new tile fits the memory limit but
/// not beside what is resident, storing it evicts the resident tile that was
/// used longest ago first, and the tiles that leave are exactly the `n`
/// oldest ones, for the least `n` that makes room.
pub proof fn lemma_put_evicts_oldest_first(m: CacheModel, key: TileKey, entry: TileEntry)
    requires
        m.wf(),
        !m.resident(key),
        entry.data.len() <= m.memory_limit,
        m.resident_bytes() + entry.data.len() > m.memory_limit,
    ensures
        ({
            let out = m.put_evicts(key, entry);
            let n = out.len() as int;
            &&& 1 <= n <= m.memory.len()
            &&& out[0] == m.memory[0]
            &&& out == m.memory.take(n)
            &&& m.after_put(key, entry).memory == m.memory.skip(n).push(memory_slot(key, entry))
            &&& total_size(m.memory.skip(n)) + entry.data.len() <= m.memory_limit
            &&& total_size(m.memory.skip(n - 1)) + entry.data.len() > m.memory_limit
        }),
{
    let target = (m.memory_limit - entry.data.len()) as nat;
    lemma_evict_count_least(m.memory, target);
    let n = evict_count(m.memory, target) as int;
    if n > 0 {
        assert(total_size(m.memory.skip(n - 1)) > target);
    }
}

/// Least recently used first, also where a tile is replaced: the tile held
/// under the same key is dropped first and frees its bytes; it is not among
/// the evicted tiles. Where the new tile still does not fit beside the
/// others, those of them that were used longest ago leave, oldest first,
/// and they are exactly the `n` oldest, for the least `n` that makes room.
pub proof fn lemma_put_evicts_oldest_of_the_others(m: CacheModel, key: TileKey, entry: TileEntry)
    requires
        m.wf(),
        entry.data.len() <= m.memory_limit,
        total_size(without_key(m.memory, key)) + entry.data.len() > m.memory_limit,
    ensures
        ({
            let others = without_key(m.memory, key);
            let out = m.put_evicts(key, entry);
            let n = out.len() as int;
            &&& !has_key(others, key)
            &&& 1 <= n <= others.len()
            &&& out[0] == others[0]
            &&& out == others.take(n)
            &&& !has_key(out, key)
            &&& m.after_put(key, entry).memory == others.skip(n).push(memory_slot(key, entry))
            &&& total_size(others.skip(n)) + entry.data.len() <= m.memory_limit
            &&& total_size(others.skip(n - 1)) + entry.data.len() > m.memory_limit
        }),
{
    let others = without_key(m.memory, key);
    let target = (m.memory_limit - entry.data.len()) as nat;
    if has_key(m.memory, key) {
        lemma_remove_keeps_distinct(m.memory, key_index(m.memory, key));
    }
    lemma_evict_count_least(others, target);
    let n = evict_count(others, target) as int;
    if n > 0 {
        assert(total_size(others.skip(n - 1)) > target);
    }
    let out = others.take(n);
    if has_key(out, key) {
        let i = key_index(out, key);
        assert(out[i] == others[i]);
        assert(others[i].key == key);
    }
}

/// Where the new tile fits beside the others, nothing is evicted: the tile
/// held under the same key, if any, is replaced, every other tile stays in
/// its order, and the new tile is the most recently used one.
pub proof fn lemma_put_that_fits_evicts_nothing(m: CacheModel, key: TileKey, entry: TileEntry)
    requires
        m.wf(),
        total_size(without_key(m.memory, key)) + entry.data.len() <= m.memory_limit,
    ensures
        m.put_evicts(key, entry) == Seq::<Slot<TileEntry>>::empty(),
        m.put_actions(key, entry) == Seq::<DiskAction>::empty(),
        m.after_put(key, entry).memory == without_key(m.memory, key).push(
            memory_slot(key, entry),
        ),
        m.after_put(key, entry).disk == m.disk,
{
    let others = without_key(m.memory, key);
    assert(others.skip(0) =~= others);
    assert(others.take(0) =~= Seq::<Slot<TileEntry>>::empty());
}

/// A lookup refreshes recency: after `get` found `key` in the memory tier,
/// that tile is the most recently used one, the others keep their order,
/// and so it is the last of them to be evicted.
pub proof fn lemma_get_refreshes_recency(m: CacheModel, key: TileKey)
    requires
        m.wf(),
        m.resident(key),
    ensures
        ({
            let i = key_index(m.memory, key);
            let after = m.after_get(key);
            &&& after.wf()
            &&& after.memory.len() == m.memory.len()
            &&& after.memory.last() == m.memory[i]
            &&& after.memory.drop_last() == m.memory.remove(i)
            &&& after.resident_bytes() == m.resident_bytes()
            &&& after.disk == m.disk
        }),
{
    let i = key_index(m.memory, key);
    lemma_touched_keeps(m.memory, key);
    lemma_sizes_exact_parts(m.memory, key, 0);
    assert(m.memory.remove(i).push(m.memory[i]).drop_last() =~= m.memory.remove(i));
}

} // verus!
