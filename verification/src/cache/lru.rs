//! One tier of the cache: a byte-budgeted store that evicts the entry that
//! was used least recently.
//!
//! A tier is modelled as the sequence of its slots in order of recency:
//! index 0 is the entry that was touched longest ago and leaves first, the
//! last index is the entry that was touched most recently. The position of
//! a slot in that sequence is its recency rank.

use vstd::prelude::*;

use crate::cache::tile::TileKey;
use crate::error::CoreError;

verus! {

/// One cached item: its key, the bytes it is accounted at, and its payload.
pub struct Slot<V> {
    pub key: TileKey,
    pub size: usize,
    pub value: V,
}

/// The sum of the sizes of all slots.
pub open spec fn total_size<V>(s: Seq<Slot<V>>) -> nat
    decreases s.len(),
{
    if s.len() == 0 {
        0
    } else {
        total_size(s.drop_last()) + s.last().size as nat
    }
}

/// The keys of the slots, in order.
pub open spec fn keys_of<V>(s: Seq<Slot<V>>) -> Seq<TileKey> {
    Seq::new(s.len(), |i: int| s[i].key)
}

/// Whether some slot carries `key`.
pub open spec fn has_key<V>(s: Seq<Slot<V>>, key: TileKey) -> bool {
    exists|i: int| 0 <= i < s.len() && (#[trigger] s[i]).key == key
}

/// The position of the slot that carries `key`, where there is one.
pub open spec fn key_index<V>(s: Seq<Slot<V>>, key: TileKey) -> int {
    choose|i: int| 0 <= i < s.len() && (#[trigger] s[i]).key == key
}

/// No key occurs in two slots.
pub open spec fn keys_distinct<V>(s: Seq<Slot<V>>) -> bool {
    forall|i: int, j: int|
        0 <= i < j < s.len() ==> (#[trigger] s[i]).key != (#[trigger] s[j]).key
}

/// The slots with the one for `key` taken out, the others keeping their order.
pub open spec fn without_key<V>(s: Seq<Slot<V>>, key: TileKey) -> Seq<Slot<V>> {
    if has_key(s, key) {
        s.remove(key_index(s, key))
    } else {
        s
    }
}

/// The slots after `key` was used: its slot becomes the most recent one.
pub open spec fn touched<V>(s: Seq<Slot<V>>, key: TileKey) -> Seq<Slot<V>> {
    if has_key(s, key) {
        s.remove(key_index(s, key)).push(s[key_index(s, key)])
    } else {
        s
    }
}

/// How many of the oldest slots have to leave before the rest fits in
/// `target` bytes: the least such number.
pub open spec fn evict_count<V>(s: Seq<Slot<V>>, target: nat) -> nat
    decreases s.len(),
{
    if total_size(s) <= target || s.len() == 0 {
        0
    } else {
        1 + evict_count(s.skip(1), target)
    }
}

/// The slots that leave when the tier is cut down to `target` bytes, oldest
/// first.
pub open spec fn evicted<V>(s: Seq<Slot<V>>, target: nat) -> Seq<Slot<V>> {
    s.take(evict_count(s, target) as int)
}

/// The slots that stay when the tier is cut down to `target` bytes.
pub open spec fn retained<V>(s: Seq<Slot<V>>, target: nat) -> Seq<Slot<V>> {
    s.skip(evict_count(s, target) as int)
}

/// The slots that make room for `slot` in a tier of `limit` bytes: a slot
/// with the same key is replaced and is not among them.
pub open spec fn displaced<V>(s: Seq<Slot<V>>, limit: nat, slot: Slot<V>) -> Seq<Slot<V>> {
    evicted(without_key(s, slot.key), (limit - slot.size) as nat)
}

/// The tier after `slot` was stored in it, for a slot that fits the limit.
pub open spec fn inserted<V>(s: Seq<Slot<V>>, limit: nat, slot: Slot<V>) -> Seq<Slot<V>> {
    retained(without_key(s, slot.key), (limit - slot.size) as nat).push(slot)
}

/// Appending a slot adds its size.
pub proof fn lemma_total_size_push<V>(s: Seq<Slot<V>>, x: Slot<V>)
    ensures
        total_size(s.push(x)) == total_size(s) + x.size,
{
    assert(s.push(x).drop_last() =~= s);
}

/// A single slot weighs its size.
pub proof fn lemma_total_size_single<V>(x: Slot<V>)
    ensures
        total_size(seq![x]) == x.size,
{
    lemma_total_size_push(Seq::<Slot<V>>::empty(), x);
    assert(Seq::<Slot<V>>::empty().push(x) =~= seq![x]);
}

/// The size of two runs of slots is the sum of their sizes.
pub proof fn lemma_total_size_concat<V>(a: Seq<Slot<V>>, b: Seq<Slot<V>>)
    ensures
        total_size(a + b) == total_size(a) + total_size(b),
    decreases b.len(),
{
    if b.len() == 0 {
        assert(a + b =~= a);
    } else {
        lemma_total_size_concat(a, b.drop_last());
        assert((a + b).drop_last() =~= a + b.drop_last());
        assert((a + b).last() == b.last());
    }
}

/// Cutting a run of slots in two keeps the sum of the sizes.
pub proof fn lemma_total_size_split<V>(s: Seq<Slot<V>>, k: int)
    requires
        0 <= k <= s.len(),
    ensures
        total_size(s) == total_size(s.take(k)) + total_size(s.skip(k)),
{
    lemma_total_size_concat(s.take(k), s.skip(k));
    assert(s.take(k) + s.skip(k) =~= s);
}

/// Taking a slot out takes its size away.
pub proof fn lemma_total_size_remove<V>(s: Seq<Slot<V>>, i: int)
    requires
        0 <= i < s.len(),
    ensures
        total_size(s.remove(i)) + s[i].size == total_size(s),
{
    lemma_total_size_split(s, i);
    lemma_total_size_split(s.skip(i), 1);
    assert(s.skip(i).take(1) =~= seq![s[i]]);
    lemma_total_size_single(s[i]);
    assert(s.skip(i).skip(1) =~= s.skip(i + 1));
    lemma_total_size_concat(s.take(i), s.skip(i + 1));
    assert(s.remove(i) =~= s.take(i) + s.skip(i + 1));
}

/// With distinct keys, the slot that carries a key is the only one.
pub proof fn lemma_key_index_unique<V>(s: Seq<Slot<V>>, i: int)
    requires
        keys_distinct(s),
        0 <= i < s.len(),
    ensures
        has_key(s, s[i].key),
        key_index(s, s[i].key) == i,
{
    let k = key_index(s, s[i].key);
    assert(0 <= k < s.len() && s[k].key == s[i].key);
    if k < i {
        assert(s[k].key != s[i].key);
    }
    if i < k {
        assert(s[i].key != s[k].key);
    }
}

/// `evict_count` is the least number of oldest slots whose removal brings
/// the tier down to `target` bytes.
pub proof fn lemma_evict_count_least<V>(s: Seq<Slot<V>>, target: nat)
    ensures
        evict_count(s, target) <= s.len(),
        total_size(retained(s, target)) <= target,
        forall|j: int|
            0 <= j < evict_count(s, target) ==> total_size(#[trigger] s.skip(j)) > target,
    decreases s.len(),
{
    if total_size(s) <= target || s.len() == 0 {
        assert(s.skip(0) =~= s);
    } else {
        let rest = s.skip(1);
        lemma_evict_count_least(rest, target);
        let k = evict_count(rest, target) as int;
        assert(rest.skip(k) =~= s.skip(k + 1));
        assert forall|j: int| 0 <= j < evict_count(s, target) implies total_size(
            #[trigger] s.skip(j),
        ) > target by {
            if j == 0 {
                assert(s.skip(0) =~= s);
            } else {
                assert(rest.skip(j - 1) =~= s.skip(j));
            }
        }
    }
}

/// A count that cuts the tier down to `target`, and whose last slot had to
/// leave for that, is `evict_count`.
pub proof fn lemma_evict_count_is<V>(s: Seq<Slot<V>>, target: nat, k: int)
    requires
        0 <= k <= s.len(),
        total_size(s.skip(k)) <= target,
        k > 0 ==> total_size(s.skip(k - 1)) > target,
    ensures
        evict_count(s, target) == k,
{
    lemma_evict_count_least(s, target);
    let e = evict_count(s, target) as int;
    lemma_skip_total_monotone(s, e, k);
    lemma_skip_total_monotone(s, k, e);
    if e < k {
        lemma_skip_total_monotone(s, e, k - 1);
    }
    if k < e {
        assert(total_size(s.skip(k)) > target);
    }
}

/// Dropping more of the oldest slots never leaves more bytes.
pub proof fn lemma_skip_total_monotone<V>(s: Seq<Slot<V>>, i: int, j: int)
    requires
        0 <= i <= s.len(),
        0 <= j <= s.len(),
    ensures
        i <= j ==> total_size(s.skip(j)) <= total_size(s.skip(i)),
{
    if i <= j {
        lemma_total_size_split(s.skip(i), j - i);
        assert(s.skip(i).skip(j - i) =~= s.skip(j));
    }
}

/// Removing a slot keeps the keys distinct and removes exactly its key.
pub proof fn lemma_remove_keeps_distinct<V>(s: Seq<Slot<V>>, i: int)
    requires
        keys_distinct(s),
        0 <= i < s.len(),
    ensures
        keys_distinct(s.remove(i)),
        !has_key(s.remove(i), s[i].key),
        forall|k: TileKey| k != s[i].key ==> (has_key(s.remove(i), k) <==> has_key(s, k)),
{
    let r = s.remove(i);
    assert forall|a: int, b: int| 0 <= a < b < r.len() implies (#[trigger] r[a]).key != (
    #[trigger] r[b]).key by {
        let a0 = if a < i { a } else { a + 1 };
        let b0 = if b < i { b } else { b + 1 };
        assert(r[a] == s[a0] && r[b] == s[b0]);
    }
    if has_key(r, s[i].key) {
        let a = key_index(r, s[i].key);
        let a0 = if a < i { a } else { a + 1 };
        assert(r[a] == s[a0]);
        if a0 < i {
            assert(s[a0].key != s[i].key);
        } else {
            assert(s[i].key != s[a0].key);
        }
    }
    assert forall|k: TileKey| k != s[i].key implies (has_key(r, k) <==> has_key(s, k)) by {
        if has_key(r, k) {
            let a = key_index(r, k);
            let a0 = if a < i { a } else { a + 1 };
            assert(r[a] == s[a0]);
            assert(s[a0].key == k);
        }
        if has_key(s, k) {
            let a0 = key_index(s, k);
            let a = if a0 < i { a0 } else { a0 - 1 };
            assert(r[a] == s[a0]);
            assert(r[a].key == k);
        }
    }
}

/// A byte-budgeted store of slots with least-recently-used eviction.
pub struct LruTier<V> {
    limit: usize,
    used: usize,
    slots: Vec<Slot<V>>,
}

impl<V> LruTier<V> {
    /// The slots in order of recency, least recently used first. The budget
    /// is no part of the view: contracts state it beside the view as
    /// `limit()`. The bytes accounted for are `used()`, which in a
    /// well-formed tier is the total size of the view.
    pub closed spec fn view(&self) -> Seq<Slot<V>> {
        self.slots@
    }

    /// The byte budget of the tier.
    pub closed spec fn limit(&self) -> nat {
        self.limit as nat
    }

    /// The bytes the tier accounts for.
    pub closed spec fn used(&self) -> nat {
        self.used as nat
    }

    /// The accounting is exact, the budget is kept, and no key occurs twice.
    pub closed spec fn wf(&self) -> bool {
        &&& self.used as nat == total_size(self.slots@)
        &&& self.used <= self.limit
        &&& keys_distinct(self.slots@)
    }

    /// What `wf` means, for callers outside this module.
    pub proof fn lemma_wf(&self)
        requires
            self.wf(),
        ensures
            self.used() == total_size(self@),
            self.used() <= self.limit(),
            self.limit() <= usize::MAX,
            keys_distinct(self@),
    {
    }

    /// An empty tier with a budget of `limit` bytes.
    pub fn new(limit: usize) -> (tier: LruTier<V>)
        ensures
            tier.wf(),
            tier@ == Seq::<Slot<V>>::empty(),
            tier.limit() == limit,
            tier.used() == 0,
    {
        LruTier { limit, used: 0, slots: Vec::new() }
    }

    /// The byte budget of the tier.
    pub fn limit_bytes(&self) -> (n: usize)
        ensures
            n == self.limit(),
    {
        self.limit
    }

    /// The bytes held right now.
    pub fn used_bytes(&self) -> (n: usize)
        ensures
            n == self.used(),
    {
        self.used
    }

    /// The number of slots held right now.
    pub fn len(&self) -> (n: usize)
        ensures
            n == self@.len(),
    {
        self.slots.len()
    }

    /// The keys held, least recently used first.
    pub fn keys(&self) -> (keys: Vec<TileKey>)
        ensures
            keys@ == keys_of(self@),
    {
        let mut keys: Vec<TileKey> = Vec::new();
        let mut i: usize = 0;
        while i < self.slots.len()
            invariant
                i <= self.slots@.len(),
                keys@ == keys_of(self.slots@.take(i as int)),
            decreases self.slots@.len() - i,
        {
            keys.push(self.slots[i].key);
            i += 1;
            assert(keys@ =~= keys_of(self.slots@.take(i as int)));
        }
        assert(self.slots@.take(i as int) =~= self.slots@);
        keys
    }

    /// Where the slot for `key` stands in the order of recency.
    pub fn position(&self, key: TileKey) -> (found: Option<usize>)
        ensures
            found is Some <==> has_key(self@, key),
            found matches Some(i) ==> i < self@.len() && self@[i as int].key == key,
            self.wf() && found is Some ==> found->0 == key_index(self@, key),
    {
        let mut i: usize = 0;
        while i < self.slots.len()
            invariant
                i <= self.slots@.len(),
                forall|j: int| 0 <= j < i ==> (#[trigger] self.slots@[j]).key != key,
            decreases self.slots@.len() - i,
        {
            if self.slots[i].key == key {
                proof {
                    if self.wf() {
                        lemma_key_index_unique(self.slots@, i as int);
                    }
                }
                return Some(i);
            }
            i += 1;
        }
        None
    }

    /// The slot at position `i` of the order of recency.
    pub fn slot_at(&self, i: usize) -> (slot: &Slot<V>)
        requires
            i < self@.len(),
        ensures
            *slot == self@[i as int],
    {
        &self.slots[i]
    }

    /// Marks `key` as used just now. Returns whether the tier holds it.
    pub fn touch(&mut self, key: TileKey) -> (hit: bool)
        requires
            old(self).wf(),
        ensures
            final(self).wf(),
            hit == has_key(old(self)@, key),
            final(self)@ == touched(old(self)@, key),
            final(self).limit() == old(self).limit(),
            final(self).used() == old(self).used(),
    {
        match self.position(key) {
            None => false,
            Some(i) => {
                let ghost before = self.slots@;
                let slot = self.slots.remove(i);
                self.slots.push(slot);
                proof {
                    lemma_total_size_remove(before, i as int);
                    lemma_total_size_push(before.remove(i as int), slot);
                    lemma_remove_keeps_distinct(before, i as int);
                    lemma_push_keeps_distinct(before.remove(i as int), slot);
                }
                true
            },
        }
    }

    /// Takes the slot for `key` out of the tier, if it is there.
    pub fn remove(&mut self, key: TileKey) -> (removed: Option<Slot<V>>)
        requires
            old(self).wf(),
        ensures
            final(self).wf(),
            removed is Some <==> has_key(old(self)@, key),
            removed matches Some(slot) ==> slot == old(self)@[key_index(old(self)@, key)],
            final(self)@ == without_key(old(self)@, key),
            !has_key(final(self)@, key),
            final(self).limit() == old(self).limit(),
            final(self).used() == total_size(final(self)@),
    {
        match self.position(key) {
            None => None,
            Some(i) => {
                let ghost before = self.slots@;
                let slot = self.slots.remove(i);
                proof {
                    lemma_total_size_remove(before, i as int);
                    lemma_remove_keeps_distinct(before, i as int);
                }
                self.used = self.used - slot.size;
                Some(slot)
            },
        }
    }

    /// Evicts least-recently-used slots, oldest first, until at most
    /// `target` bytes are held. Returns the evicted slots in the order in
    /// which they left.
    pub fn shrink_to(&mut self, target: usize) -> (out: Vec<Slot<V>>)
        requires
            old(self).wf(),
        ensures
            final(self).wf(),
            out@ == evicted(old(self)@, target as nat),
            final(self)@ == retained(old(self)@, target as nat),
            final(self).used() <= target,
            final(self).used() == total_size(final(self)@),
            final(self).limit() == old(self).limit(),
    {
        let ghost before = self.slots@;
        let mut k: usize = 0;
        let mut freed: usize = 0;
        proof {
            assert(before.take(0) =~= Seq::<Slot<V>>::empty());
            assert(before.skip(0) =~= before);
        }
        while k < self.slots.len() && self.used - freed > target
            invariant
                self.slots@ == before,
                self.used as nat == total_size(before),
                k <= before.len(),
                freed as nat == total_size(before.take(k as int)),
                freed as nat + total_size(before.skip(k as int)) == self.used,
                forall|j: int| 0 <= j < k ==> total_size(#[trigger] before.skip(j)) > target,
            decreases before.len() - k,
        {
            proof {
                lemma_total_size_split(before.skip(k as int), 1);
                assert(before.skip(k as int).take(1) =~= seq![before[k as int]]);
                lemma_total_size_single(before[k as int]);
                assert(before.skip(k as int).skip(1) =~= before.skip(k + 1));
                lemma_total_size_push(before.take(k as int), before[k as int]);
                assert(before.take(k as int).push(before[k as int]) =~= before.take(k + 1));
            }
            freed = freed + self.slots[k].size;
            k = k + 1;
        }
        proof {
            if k == before.len() {
                assert(before.skip(k as int) =~= Seq::<Slot<V>>::empty());
            }
            lemma_evict_count_is(before, target as nat, k as int);
        }
        let mut kept = self.slots.split_off(k);
        std::mem::swap(&mut self.slots, &mut kept);
        self.used = self.used - freed;
        proof {
            assert(self.slots@ =~= before.skip(k as int));
            assert(kept@ =~= before.take(k as int));
            lemma_skip_keeps_distinct(before, k as int);
        }
        kept
    }

    /// Gives the tier a new byte budget. Where the tier holds more than the
    /// new budget, least-recently-used slots are evicted, oldest first, and
    /// returned in the order in which they left.
    pub fn resize(&mut self, limit: usize) -> (out: Vec<Slot<V>>)
        requires
            old(self).wf(),
        ensures
            final(self).wf(),
            final(self).limit() == limit,
            out@ == evicted(old(self)@, limit as nat),
            final(self)@ == retained(old(self)@, limit as nat),
            final(self).used() == total_size(final(self)@),
    {
        let out = self.shrink_to(limit);
        self.limit = limit;
        out
    }

    /// Stores `value` under `key`, accounted at `size` bytes, as the most
    /// recently used slot.
    ///
    /// A slot already held under `key` is replaced. Least-recently-used
    /// slots are evicted, oldest first, until the new slot fits; they are
    /// returned in the order in which they left. A slot that is larger than
    /// the whole budget is refused and the tier stays as it was.
    pub fn insert(&mut self, key: TileKey, size: usize, value: V) -> (outcome: Result<
        Vec<Slot<V>>,
        CoreError,
    >)
        requires
            old(self).wf(),
        ensures
            final(self).wf(),
            final(self).limit() == old(self).limit(),
            final(self).used() == total_size(final(self)@),
            outcome is Err <==> size > old(self).limit(),
            outcome matches Err(e) ==> e == CoreError::CapacityExceeded && final(self)@ == old(
                self,
            )@,
            outcome matches Ok(out) ==> {
                let slot = Slot { key, size, value };
                &&& out@ == displaced(old(self)@, old(self).limit(), slot)
                &&& final(self)@ == inserted(old(self)@, old(self).limit(), slot)
            },
    {
        if size > self.limit {
            return Err(CoreError::CapacityExceeded);
        }
        let _ = self.remove(key);
        let out = self.shrink_to(self.limit - size);
        let slot = Slot { key, size, value };
        proof {
            lemma_total_size_push(self.slots@, slot);
            lemma_evict_count_least(without_key(old(self)@, key), (self.limit - size) as nat);
            lemma_skip_has_key(
                without_key(old(self)@, key),
                evict_count(without_key(old(self)@, key), (self.limit - size) as nat) as int,
                key,
            );
            lemma_push_keeps_distinct(self.slots@, slot);
        }
        self.slots.push(slot);
        self.used = self.used + size;
        Ok(out)
    }
}

/// Appending a slot with a key that is not yet held keeps the keys distinct.
pub proof fn lemma_push_keeps_distinct<V>(s: Seq<Slot<V>>, x: Slot<V>)
    requires
        keys_distinct(s),
        !has_key(s, x.key),
    ensures
        keys_distinct(s.push(x)),
        has_key(s.push(x), x.key),
        key_index(s.push(x), x.key) == s.len(),
{
    let p = s.push(x);
    assert forall|a: int, b: int| 0 <= a < b < p.len() implies (#[trigger] p[a]).key != (
    #[trigger] p[b]).key by {
        if b == s.len() {
            assert(p[a] == s[a]);
            assert(s[a].key != x.key);
        } else {
            assert(p[a] == s[a] && p[b] == s[b]);
        }
    }
    assert(p[s.len() as int].key == x.key);
    lemma_key_index_unique(p, s.len() as int);
}

/// Dropping the oldest slots keeps the keys distinct.
pub proof fn lemma_skip_keeps_distinct<V>(s: Seq<Slot<V>>, k: int)
    requires
        keys_distinct(s),
        0 <= k <= s.len(),
    ensures
        keys_distinct(s.skip(k)),
{
    let r = s.skip(k);
    assert forall|a: int, b: int| 0 <= a < b < r.len() implies (#[trigger] r[a]).key != (
    #[trigger] r[b]).key by {
        assert(r[a] == s[a + k] && r[b] == s[b + k]);
    }
}

/// Dropping the oldest slots brings no key in.
pub proof fn lemma_skip_has_key<V>(s: Seq<Slot<V>>, k: int, key: TileKey)
    requires
        0 <= k <= s.len(),
        !has_key(s, key),
    ensures
        !has_key(s.skip(k), key),
{
    let r = s.skip(k);
    if has_key(r, key) {
        let a = key_index(r, key);
        assert(r[a] == s[a + k]);
        assert(s[a + k].key == key);
    }
}

} // verus!
