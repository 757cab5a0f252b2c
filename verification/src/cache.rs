//! The cache table and its slots.
//!
//! A [`Cache`] maps a [`CompositeKey`] — the caller's cache-key string
//! paired with a value-type tag — to one slot per key, created lazily and
//! never removed.  A [`CacheEntry`] is a handle onto one slot, obtained from
//! [`Cache::entry`]; through it a caller reads the slot, writes it, or runs
//! the single-flight coordination step [`Cache::get_or_write_lock`].
//!
//! Every operation's contract is stated against the protocol model of
//! [`crate::flight`]: the cache's state is a map from key views to
//! [`SlotModel`]s, and each call performs exactly one enabled protocol
//! event on exactly one key, leaving every other key's slot untouched.
//!
//! The slot's write lock is bookkeeping in the slot itself, so that the
//! lock can be taken in one brief exclusive access to the table, held
//! across a long-running populate operation without holding the table, and
//! released in a second brief access.  An operation whose real counterpart
//! would suspend (locking a slot someone else holds) either reports
//! [`LockOutcome::Waited`] or is excluded by its `requires`.
//!
//! A caller granted the write lock owes the slot a release on every exit
//! path of its populate — success, failure, or the task being torn down —
//! else every later caller for that key waits forever.  The driver around
//! this crate must tie [`Cache::set_and_release`] or
//! [`Cache::release_write`] to each of those paths; the contracts here
//! make the obligation explicit: only those two calls take the slot out of
//! its leased state.

use crate::flight::{
    cache_step, empty_slot, slot_event_enabled, slot_step, SlotEvent, SlotModel,
};
use vstd::pervasive::unreached;
use vstd::prelude::*;

verus! {

/// The composite key of one cached value: the cache-key string chosen by
/// the caller, plus a tag that identifies the value's type, so that one
/// table can hold values of different types without ever confusing them.
///
/// The same name must always be paired with the same tag for the life of
/// the process; the tag being part of the key, two tags under one name
/// simply address two distinct slots, so a stored value can never be read
/// back at a different type.
pub struct CompositeKey {
    pub name: String,
    pub type_tag: u64,
}

impl View for CompositeKey {
    type V = (Seq<char>, u64);

    open spec fn view(&self) -> (Seq<char>, u64) {
        (self.name@, self.type_tag)
    }
}

/// One slot of the table: its key, its value if populated, and whether a
/// caller currently holds its exclusive write lock.
struct CacheSlot<V> {
    key: CompositeKey,
    value: Option<V>,
    writer_held: bool,
}

/// The cache table: one slot per composite key, created on first demand,
/// alive for the life of the table.
pub struct Cache<V> {
    slots: Vec<CacheSlot<V>>,
}

/// A handle onto one slot of a [`Cache`], as returned by [`Cache::entry`].
#[derive(Clone, Copy)]
pub struct CacheEntry {
    index: usize,
    key: Ghost<(Seq<char>, u64)>,
}

impl CacheEntry {
    /// The composite key this handle addresses.
    pub closed spec fn key(self) -> (Seq<char>, u64) {
        self.key@
    }

    /// The slot index this handle addresses.
    pub closed spec fn index(self) -> nat {
        self.index as nat
    }
}

/// What the single-flight coordination step decided.
#[derive(Debug, PartialEq, Eq, Structural)]
pub enum LockOutcome {
    /// The slot is populated: read it, no populate is needed.
    Cached,
    /// The slot was empty and unleased: this caller now holds the write
    /// lock and owes the slot a populate-and-release.
    Granted,
    /// The slot was empty but another caller holds the write lock: suspend
    /// and retry once that caller has released it.
    Waited,
}

impl<V> Cache<V> {
    /// The key stored at slot `i`.
    pub closed spec fn key_at(self, i: int) -> (Seq<char>, u64) {
        self.slots@[i].key@
    }

    /// How many slots the table holds.
    pub closed spec fn num_slots(self) -> nat {
        self.slots@.len()
    }

    spec fn has_key_at(self, k: (Seq<char>, u64), i: int) -> bool {
        0 <= i < self.slots@.len() && self.slots@[i].key@ == k
    }

    /// Whether some slot carries the key `k`.
    pub closed spec fn contains_key(self, k: (Seq<char>, u64)) -> bool {
        exists|i: int| self.has_key_at(k, i)
    }

    spec fn index_of(self, k: (Seq<char>, u64)) -> int {
        choose|i: int| self.has_key_at(k, i)
    }

    /// The protocol state of the slot at index `i`.
    pub closed spec fn slot_model_at(self, i: int) -> SlotModel<V> {
        SlotModel { value: self.slots@[i].value, writer_held: self.slots@[i].writer_held }
    }

    /// Well-formed: no two slots carry the same composite key.
    pub closed spec fn wf(self) -> bool {
        forall|i: int, j: int|
            0 <= i < self.slots@.len() && 0 <= j < self.slots@.len() && i != j ==> #[trigger] self.key_at(
                i,
            ) != #[trigger] self.key_at(j)
    }

    /// The table as the contracts see it: a map from each present key to
    /// the protocol state of its slot.
    pub closed spec fn model(self) -> Map<(Seq<char>, u64), SlotModel<V>> {
        Map::new(|k: (Seq<char>, u64)| self.contains_key(k), |k: (Seq<char>, u64)| self.slot_model_at(self.index_of(k)))
    }

    /// `e` addresses a live slot of this table and knows its key.
    pub open spec fn entry_valid(self, e: CacheEntry) -> bool {
        e.index() < self.num_slots() && self.key_at(e.index() as int) == e.key()
    }

    /// `newer` has every slot of `self`, at the same index under the same
    /// key; slots are never removed or reordered, so every handle stays
    /// valid.
    pub open spec fn extends(self, newer: Cache<V>) -> bool {
        &&& self.num_slots() <= newer.num_slots()
        &&& forall|i: int| 0 <= i < self.num_slots() ==> newer.key_at(i) == #[trigger] self.key_at(i)
    }

    /// `extends` is transitive: growth step by step is growth overall.
    pub proof fn lemma_extends_trans(a: Cache<V>, b: Cache<V>, c: Cache<V>)
        requires
            a.extends(b),
            b.extends(c),
        ensures
            a.extends(c),
    {
    }

    /// A valid handle's key is present in the model.
    pub proof fn lemma_entry_valid_contains(self, e: CacheEntry)
        requires
            self.wf(),
            self.entry_valid(e),
        ensures
            self.model().contains_key(e.key()),
            self.model()[e.key()] == self.slot_model_at(e.index() as int),
    {
        self.lemma_at_index(e.index() as int);
    }

    /// The model's entry for the key at slot `i` is that slot's state.
    proof fn lemma_at_index(self, i: int)
        requires
            self.wf(),
            0 <= i < self.slots@.len(),
        ensures
            self.contains_key(self.key_at(i)),
            self.index_of(self.key_at(i)) == i,
            self.model().contains_key(self.key_at(i)),
            self.model()[self.key_at(i)] == self.slot_model_at(i),
    {
        let k = self.key_at(i);
        assert(self.has_key_at(k, i));
        let j = self.index_of(k);
        assert(self.has_key_at(k, j));
        if j != i {
            assert(self.key_at(j) == k);
            assert(self.key_at(i) != self.key_at(j));
        }
    }

    /// After an update that keeps every key and touches only slot `i`,
    /// performing protocol event `e` on it, the model has stepped under
    /// slot `i`'s key and nothing else has moved.
    proof fn lemma_model_update(pre: Cache<V>, post: Cache<V>, i: int, e: SlotEvent<V>)
        requires
            pre.wf(),
            0 <= i < pre.slots@.len(),
            post.slots@.len() == pre.slots@.len(),
            forall|j: int| 0 <= j < pre.slots@.len() ==> post.key_at(j) == #[trigger] pre.key_at(j),
            forall|j: int|
                0 <= j < pre.slots@.len() && j != i ==> #[trigger] post.slots@[j] == pre.slots@[j],
            post.slot_model_at(i) == slot_step(pre.slot_model_at(i), e),
        ensures
            post.wf(),
            post.model() == cache_step(pre.model(), pre.key_at(i), e),
    {
        let k = pre.key_at(i);
        pre.lemma_at_index(i);
        assert forall|i2: int, j2: int|
            0 <= i2 < post.slots@.len() && 0 <= j2 < post.slots@.len() && i2 != j2 implies #[trigger] post.key_at(
            i2,
        ) != #[trigger] post.key_at(j2) by {
            assert(pre.key_at(i2) != pre.key_at(j2));
        }
        post.lemma_at_index(i);
        let target = cache_step(pre.model(), k, e);
        assert forall|k2: (Seq<char>, u64)| post.contains_key(k2) implies target.contains_key(
            k2,
        ) by {
            let j = choose|j: int| post.has_key_at(k2, j);
            assert(pre.has_key_at(k2, j));
        }
        assert forall|k2: (Seq<char>, u64)| target.contains_key(k2) implies post.contains_key(
            k2,
        ) by {
            let j = choose|j: int| pre.has_key_at(k2, j);
            assert(post.has_key_at(k2, j));
        }
        assert forall|k2: (Seq<char>, u64)| post.contains_key(k2) implies post.model()[k2]
            == target[k2] by {
            if k2 == k {
                assert(post.model()[k2] == post.slot_model_at(i));
            } else {
                let j = choose|j: int| pre.has_key_at(k2, j);
                assert(pre.key_at(j) == k2);
                assert(j != i);
                assert(post.has_key_at(k2, j));
                pre.lemma_at_index(j);
                post.lemma_at_index(j);
                assert(post.slot_model_at(j) == pre.slot_model_at(j));
            }
        }
        assert(post.model() =~= target);
    }

    /// After pushing a fresh slot with a key the table did not hold, the
    /// model has gained exactly that key, bound to an empty slot.
    proof fn lemma_model_push(pre: Cache<V>, post: Cache<V>, k: (Seq<char>, u64))
        requires
            pre.wf(),
            !pre.contains_key(k),
            post.slots@.len() == pre.slots@.len() + 1,
            forall|j: int| 0 <= j < pre.slots@.len() ==> #[trigger] post.slots@[j] == pre.slots@[j],
            post.key_at(pre.slots@.len() as int) == k,
            post.slot_model_at(pre.slots@.len() as int) == empty_slot::<V>(),
        ensures
            post.wf(),
            post.model() == pre.model().insert(k, empty_slot::<V>()),
    {
        let n = pre.slots@.len() as int;
        assert forall|i2: int, j2: int|
            0 <= i2 < post.slots@.len() && 0 <= j2 < post.slots@.len() && i2 != j2 implies #[trigger] post.key_at(
            i2,
        ) != #[trigger] post.key_at(j2) by {
            if i2 < n && j2 < n {
                assert(pre.key_at(i2) != pre.key_at(j2));
                assert(post.key_at(i2) == pre.key_at(i2));
                assert(post.key_at(j2) == pre.key_at(j2));
            } else if i2 == n {
                assert(post.key_at(j2) == pre.key_at(j2));
                assert(pre.has_key_at(post.key_at(j2), j2));
            } else {
                assert(post.key_at(i2) == pre.key_at(i2));
                assert(pre.has_key_at(post.key_at(i2), i2));
            }
        }
        let target = pre.model().insert(k, empty_slot::<V>());
        post.lemma_at_index(n);
        assert forall|k2: (Seq<char>, u64)| post.contains_key(k2) implies target.contains_key(
            k2,
        ) by {
            let j = choose|j: int| post.has_key_at(k2, j);
            if j < n {
                assert(pre.has_key_at(k2, j));
            }
        }
        assert forall|k2: (Seq<char>, u64)| target.contains_key(k2) implies post.contains_key(
            k2,
        ) by {
            if k2 != k {
                let j = choose|j: int| pre.has_key_at(k2, j);
                assert(post.has_key_at(k2, j));
            }
        }
        assert forall|k2: (Seq<char>, u64)| post.contains_key(k2) implies post.model()[k2]
            == target[k2] by {
            if k2 == k {
                assert(post.model()[k2] == post.slot_model_at(n));
            } else {
                let j = choose|j: int| pre.has_key_at(k2, j);
                assert(pre.key_at(j) == k2);
                assert(post.has_key_at(k2, j));
                pre.lemma_at_index(j);
                post.lemma_at_index(j);
                assert(post.slot_model_at(j) == pre.slot_model_at(j));
            }
        }
        assert(post.model() =~= target);
    }

    /// A fresh, empty cache table.
    pub fn new() -> (c: Cache<V>)
        ensures
            c.wf(),
            c.num_slots() == 0,
            c.model() == Map::<(Seq<char>, u64), SlotModel<V>>::empty(),
    {
        let c = Cache { slots: Vec::new() };
        proof {
            assert(c.model() =~= Map::<(Seq<char>, u64), SlotModel<V>>::empty());
        }
        c
    }

    /// The slot handle for `key`, creating an empty slot if the table has
    /// none for it yet.  Concurrent first accesses of one new key converge
    /// on one slot: a key already present is returned as it stands, and a
    /// slot, once created, is never removed or moved.
    pub fn entry(&mut self, key: CompositeKey) -> (e: CacheEntry)
        requires
            old(self).wf(),
        ensures
            final(self).wf(),
            final(self).entry_valid(e),
            e.key() == key@,
            old(self).extends(*final(self)),
            final(self).model().contains_key(key@),
            old(self).contains_key(key@) ==> *final(self) == *old(self),
            !old(self).contains_key(key@) ==> {
                &&& final(self).model() == old(self).model().insert(key@, empty_slot::<V>())
                &&& final(self).num_slots() == old(self).num_slots() + 1
            },
            old(self).model().contains_key(key@) == old(self).contains_key(key@),
    {
        proof {
            assert(old(self).model().contains_key(key@) == old(self).contains_key(key@));
        }
        let n = self.slots.len();
        let mut i: usize = 0;
        while i < n
            invariant
                *self == *old(self),
                self.wf(),
                n == self.slots@.len(),
                i <= n,
                forall|j: int| 0 <= j < i ==> #[trigger] self.slots@[j].key@ != key@,
            decreases n - i,
        {
            let slot = &self.slots[i];
            if slot.key.type_tag == key.type_tag && slot.key.name == key.name {
                proof {
                    assert(self.has_key_at(key@, i as int));
                    self.lemma_at_index(i as int);
                }
                return CacheEntry { index: i, key: Ghost(key@) };
            }
            i += 1;
        }
        let ghost kv = key@;
        let ghost pre = *self;
        proof {
            assert forall|j: int| !pre.has_key_at(kv, j) by {
                if 0 <= j < pre.slots@.len() {
                    assert(pre.slots@[j].key@ != kv);
                }
            }
        }
        self.slots.push(CacheSlot { key, value: None, writer_held: false });
        let idx = self.slots.len() - 1;
        proof {
            Self::lemma_model_push(pre, *self, kv);
            assert(self.has_key_at(kv, idx as int));
        }
        CacheEntry { index: idx, key: Ghost(kv) }
    }

    /// Read the slot: `None` while it is empty, otherwise the complete
    /// value it holds — never anything in between.
    pub fn get<'a>(&'a self, e: CacheEntry) -> (r: Option<&'a V>)
        requires
            self.wf(),
            self.entry_valid(e),
        ensures
            match r {
                Some(v) => self.model()[e.key()].value == Some(*v),
                None => self.model()[e.key()].value is None,
            },
    {
        proof {
            self.lemma_entry_valid_contains(e);
        }
        self.slots[e.index].value.as_ref()
    }

    /// Write `value` into the slot, as through a freshly taken write
    /// guard: the slot becomes populated with exactly `value`, replacing
    /// any prior value; every other slot is untouched.  Requires the write
    /// lock to be free — its real counterpart suspends until it is.
    pub fn set(&mut self, e: CacheEntry, value: V)
        requires
            old(self).wf(),
            old(self).entry_valid(e),
            !old(self).model()[e.key()].writer_held,
        ensures
            final(self).wf(),
            final(self).entry_valid(e),
            old(self).extends(*final(self)),
            final(self).num_slots() == old(self).num_slots(),
            slot_event_enabled(old(self).model()[e.key()], SlotEvent::Wrote(value)),
            final(self).model() == cache_step(
                old(self).model(),
                e.key(),
                SlotEvent::Wrote(value),
            ),
            final(self).model()[e.key()].value == Some(value),
    {
        proof {
            old(self).lemma_entry_valid_contains(e);
        }
        let slot = &mut self.slots[e.index];
        slot.value = Some(value);
        proof {
            Self::lemma_model_update(
                *old(self),
                *self,
                e.index() as int,
                SlotEvent::Wrote(value),
            );
            self.lemma_at_index(e.index() as int);
        }
    }

    /// The single-flight coordination step.  Decides, in one atomic look
    /// at the slot, whether this caller reads a cached value
    /// ([`LockOutcome::Cached`]), becomes the one populator and now holds
    /// the write lock ([`LockOutcome::Granted`]), or must suspend while
    /// another caller populates ([`LockOutcome::Waited`]).  Exactly one
    /// outcome is possible in each slot state, and only `Granted` moves
    /// the slot.
    pub fn get_or_write_lock(&mut self, e: CacheEntry) -> (r: LockOutcome)
        requires
            old(self).wf(),
            old(self).entry_valid(e),
        ensures
            final(self).wf(),
            final(self).entry_valid(e),
            old(self).extends(*final(self)),
            final(self).num_slots() == old(self).num_slots(),
            match r {
                LockOutcome::Cached => {
                    &&& slot_event_enabled(old(self).model()[e.key()], SlotEvent::LockCached::<V>)
                    &&& *final(self) == *old(self)
                },
                LockOutcome::Granted => {
                    &&& slot_event_enabled(old(self).model()[e.key()], SlotEvent::LockGranted::<V>)
                    &&& final(self).model() == cache_step(
                        old(self).model(),
                        e.key(),
                        SlotEvent::LockGranted::<V>,
                    )
                    &&& final(self).model()[e.key()].writer_held
                },
                LockOutcome::Waited => {
                    &&& slot_event_enabled(old(self).model()[e.key()], SlotEvent::LockWaited::<V>)
                    &&& *final(self) == *old(self)
                },
            },
    {
        proof {
            old(self).lemma_entry_valid_contains(e);
        }
        if self.slots[e.index].value.is_some() {
            LockOutcome::Cached
        } else if self.slots[e.index].writer_held {
            LockOutcome::Waited
        } else {
            let slot = &mut self.slots[e.index];
            slot.writer_held = true;
            proof {
                Self::lemma_model_update(
                    *old(self),
                    *self,
                    e.index() as int,
                    SlotEvent::LockGranted::<V>,
                );
                self.lemma_at_index(e.index() as int);
            }
            LockOutcome::Granted
        }
    }

    /// The populator stores `value` and releases the write lock in one
    /// step: the slot becomes populated with exactly `value` and the lock
    /// is free again, so every waiter's next attempt reads the value.
    pub fn set_and_release(&mut self, e: CacheEntry, value: V)
        requires
            old(self).wf(),
            old(self).entry_valid(e),
            old(self).model()[e.key()].writer_held,
        ensures
            final(self).wf(),
            final(self).entry_valid(e),
            old(self).extends(*final(self)),
            final(self).num_slots() == old(self).num_slots(),
            slot_event_enabled(old(self).model()[e.key()], SlotEvent::PopulateOk(value)),
            final(self).model() == cache_step(
                old(self).model(),
                e.key(),
                SlotEvent::PopulateOk(value),
            ),
            final(self).model()[e.key()] == (SlotModel::<V> {
                value: Some(value),
                writer_held: false,
            }),
    {
        proof {
            old(self).lemma_entry_valid_contains(e);
        }
        let slot = &mut self.slots[e.index];
        slot.value = Some(value);
        slot.writer_held = false;
        proof {
            Self::lemma_model_update(
                *old(self),
                *self,
                e.index() as int,
                SlotEvent::PopulateOk(value),
            );
            self.lemma_at_index(e.index() as int);
        }
    }

    /// The populator's populate operation failed: release the write lock
    /// and leave the slot exactly as it was — empty, so the next caller
    /// retries the populate; the failure itself is never cached.
    pub fn release_write(&mut self, e: CacheEntry)
        requires
            old(self).wf(),
            old(self).entry_valid(e),
            old(self).model()[e.key()].writer_held,
        ensures
            final(self).wf(),
            final(self).entry_valid(e),
            old(self).extends(*final(self)),
            final(self).num_slots() == old(self).num_slots(),
            slot_event_enabled(old(self).model()[e.key()], SlotEvent::PopulateFailed::<V>),
            final(self).model() == cache_step(
                old(self).model(),
                e.key(),
                SlotEvent::PopulateFailed::<V>,
            ),
            final(self).model()[e.key()].value == old(self).model()[e.key()].value,
            !final(self).model()[e.key()].writer_held,
    {
        proof {
            old(self).lemma_entry_valid_contains(e);
        }
        let slot = &mut self.slots[e.index];
        slot.writer_held = false;
        proof {
            Self::lemma_model_update(
                *old(self),
                *self,
                e.index() as int,
                SlotEvent::PopulateFailed::<V>,
            );
            self.lemma_at_index(e.index() as int);
        }
    }

    /// The single-flight fetch orchestrator.  Returns the value cached
    /// under `key`, running `populate` only on a miss: on a hit the cached
    /// value is returned at once, the table untouched and `populate` never
    /// run; on a miss this caller is granted the one populate, and on
    /// success the value is stored and returned, while on failure the
    /// error is propagated to this caller alone and the slot is left
    /// empty, so the next caller retries.
    ///
    /// Requires that no populate is in flight for `key` in this table;
    /// its real counterpart would instead suspend until the in-flight
    /// populate finishes, then read the slot again.
    pub fn fetch_cached<'a, E, F: FnOnce() -> Result<V, E>>(
        &'a mut self,
        key: CompositeKey,
        populate: F,
    ) -> (r: Result<&'a V, E>)
        requires
            old(self).wf(),
            call_requires(populate, ()),
            old(self).contains_key(key@) ==> !old(self).model()[key@].writer_held,
        ensures
            final(self).wf(),
            old(self).extends(*final(self)),
            final(self).model().contains_key(key@),
            !final(self).model()[key@].writer_held,
            old(self).contains_key(key@) && old(self).model()[key@].value is Some ==> {
                &&& *final(self) == *old(self)
                &&& r matches Ok(v) && Some(*v) == old(self).model()[key@].value
            },
            !(old(self).contains_key(key@) && old(self).model()[key@].value is Some) ==> match r {
                Ok(v) => call_ensures(populate, (), Result::<V, E>::Ok(*v))
                    && final(self).model()[key@].value == Some(*v),
                Err(e) => call_ensures(populate, (), Result::<V, E>::Err(e))
                    && final(self).model()[key@].value is None,
            },
            r matches Ok(v) ==> final(self).model()[key@].value == Some(*v),
    {
        let e = self.entry(key);
        let outcome = self.get_or_write_lock(e);
        match outcome {
            LockOutcome::Cached => {},
            LockOutcome::Granted => {
                match populate() {
                    Ok(v) => {
                        self.set_and_release(e, v);
                    },
                    Err(err) => {
                        self.release_write(e);
                        return Err(err);
                    },
                }
            },
            LockOutcome::Waited => {
                proof {
                    assert(false);
                }
            },
        }
        match self.get(e) {
            Some(v) => Ok(v),
            None => unreached(),
        }
    }
}

impl<V> Default for Cache<V> {
    /// A fresh, empty cache table.
    fn default() -> (c: Cache<V>)
        ensures
            c.wf(),
            c.num_slots() == 0,
            c.model() == Map::<(Seq<char>, u64), SlotModel<V>>::empty(),
    {
        Cache::new()
    }
}

} // verus!
