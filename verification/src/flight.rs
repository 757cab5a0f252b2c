//! The single-flight protocol, as a transition system.
//!
//! Every slot of the cache moves through the same little protocol: readers
//! observe it, at most one caller at a time is granted the exclusive write
//! lock, and the lock holder either populates the slot or releases it
//! unchanged.  This module states that protocol as a spec-level transition
//! system over [`SlotModel`] and proves the laws the cache promises:
//! a populate failure never poisons a slot, a populated slot holds exactly
//! the last value written into it, and — as long as no populate fails — the
//! write lock is granted at most once, however many callers race for it.
//!
//! The executable cache in [`crate::cache`] states its contracts with
//! [`slot_event_enabled`], [`slot_step`] and [`cache_step`], so any sequence
//! of calls into it is a valid trace of this system and the laws proved here
//! apply to it.

use vstd::prelude::*;

verus! {

/// The state of one cache slot, as the contracts see it: the stored value,
/// if any, and whether some caller holds the slot's exclusive write lock
/// (a populate is in flight).
pub struct SlotModel<V> {
    pub value: Option<V>,
    pub writer_held: bool,
}

/// A slot as it is created: empty, with no writer.
pub open spec fn empty_slot<V>() -> SlotModel<V> {
    SlotModel { value: None, writer_held: false }
}

/// One observable step of the single-flight protocol on one slot.
pub enum SlotEvent<V> {
    /// `get_or_write_lock` observed a populated slot and took the read path.
    LockCached,
    /// `get_or_write_lock` observed an empty, unleased slot and granted the
    /// exclusive write lock: this caller becomes the populator.
    LockGranted,
    /// `get_or_write_lock` observed an empty slot whose write lock another
    /// caller holds: this caller suspends and retries later.
    LockWaited,
    /// The populator stored a value and released the write lock.
    PopulateOk(V),
    /// The populate operation failed: the write lock is released and the
    /// slot is left exactly as it was.
    PopulateFailed,
    /// A direct `set` through a write guard, outside the single-flight path.
    Wrote(V),
}

/// When an event can happen, given the slot's current state.
pub open spec fn slot_event_enabled<V>(s: SlotModel<V>, e: SlotEvent<V>) -> bool {
    match e {
        SlotEvent::LockCached => s.value is Some,
        SlotEvent::LockGranted => s.value is None && !s.writer_held,
        SlotEvent::LockWaited => s.value is None && s.writer_held,
        SlotEvent::PopulateOk(_) => s.writer_held,
        SlotEvent::PopulateFailed => s.writer_held,
        SlotEvent::Wrote(_) => !s.writer_held,
    }
}

/// The slot's state after an event.
pub open spec fn slot_step<V>(s: SlotModel<V>, e: SlotEvent<V>) -> SlotModel<V> {
    match e {
        SlotEvent::LockCached => s,
        SlotEvent::LockGranted => SlotModel { value: s.value, writer_held: true },
        SlotEvent::LockWaited => s,
        SlotEvent::PopulateOk(v) => SlotModel { value: Some(v), writer_held: false },
        SlotEvent::PopulateFailed => SlotModel { value: s.value, writer_held: false },
        SlotEvent::Wrote(v) => SlotModel { value: Some(v), writer_held: s.writer_held },
    }
}

/// The slot's state after a whole trace of events.
pub open spec fn slot_run<V>(s: SlotModel<V>, tr: Seq<SlotEvent<V>>) -> SlotModel<V>
    decreases tr.len(),
{
    if tr.len() == 0 {
        s
    } else {
        slot_step(slot_run(s, tr.drop_last()), tr.last())
    }
}

/// A trace is valid when every event is enabled in the state it meets.
pub open spec fn slot_trace_valid<V>(s: SlotModel<V>, tr: Seq<SlotEvent<V>>) -> bool
    decreases tr.len(),
{
    tr.len() == 0 || {
        &&& slot_trace_valid(s, tr.drop_last())
        &&& slot_event_enabled(slot_run(s, tr.drop_last()), tr.last())
    }
}

/// How many times the write lock was granted in a trace.
pub open spec fn grants<V>(tr: Seq<SlotEvent<V>>) -> nat
    decreases tr.len(),
{
    if tr.len() == 0 {
        0
    } else {
        grants(tr.drop_last()) + (if tr.last() is LockGranted {
            1nat
        } else {
            0nat
        })
    }
}

/// How many populate operations completed successfully in a trace.
pub open spec fn populate_successes<V>(tr: Seq<SlotEvent<V>>) -> nat
    decreases tr.len(),
{
    if tr.len() == 0 {
        0
    } else {
        populate_successes(tr.drop_last()) + (if tr.last() is PopulateOk {
            1nat
        } else {
            0nat
        })
    }
}

/// How many populate operations failed in a trace.
pub open spec fn populate_failures<V>(tr: Seq<SlotEvent<V>>) -> nat
    decreases tr.len(),
{
    if tr.len() == 0 {
        0
    } else {
        populate_failures(tr.drop_last()) + (if tr.last() is PopulateFailed {
            1nat
        } else {
            0nat
        })
    }
}

/// How many direct writes a trace holds.
pub open spec fn direct_writes<V>(tr: Seq<SlotEvent<V>>) -> nat
    decreases tr.len(),
{
    if tr.len() == 0 {
        0
    } else {
        direct_writes(tr.drop_last()) + (if tr.last() is Wrote {
            1nat
        } else {
            0nat
        })
    }
}

/// The value stored by the last populate or direct write of a trace, if any.
pub open spec fn last_written<V>(tr: Seq<SlotEvent<V>>) -> Option<V>
    decreases tr.len(),
{
    if tr.len() == 0 {
        None
    } else {
        match tr.last() {
            SlotEvent::PopulateOk(v) => Some(v),
            SlotEvent::Wrote(v) => Some(v),
            _ => last_written(tr.drop_last()),
        }
    }
}

/// Running a trace extended by one event is stepping the run of the trace.
pub proof fn lemma_slot_run_push<V>(s: SlotModel<V>, tr: Seq<SlotEvent<V>>, e: SlotEvent<V>)
    ensures
        slot_run(s, tr.push(e)) == slot_step(slot_run(s, tr), e),
{
    assert(tr.push(e).drop_last() =~= tr);
}

/// A trace extended by one event is valid exactly when the trace is valid
/// and the event is enabled at its end.
pub proof fn lemma_slot_trace_valid_push<V>(s: SlotModel<V>, tr: Seq<SlotEvent<V>>, e: SlotEvent<V>)
    ensures
        slot_trace_valid(s, tr.push(e)) == (slot_trace_valid(s, tr) && slot_event_enabled(
            slot_run(s, tr),
            e,
        )),
{
    assert(tr.push(e).drop_last() =~= tr);
}

/// Bookkeeping that every valid trace from an empty slot obeys: grants are
/// balanced against completed populates plus the one possibly in flight, an
/// empty slot has seen no successful populate and no direct write, and the
/// lock is granted at most once more than populates have failed.
pub proof fn lemma_flight_accounting<V>(tr: Seq<SlotEvent<V>>)
    requires
        slot_trace_valid(empty_slot::<V>(), tr),
    ensures
        ({
            let s = slot_run(empty_slot::<V>(), tr);
            let in_flight: nat = if s.writer_held {
                1nat
            } else {
                0nat
            };
            &&& grants(tr) == populate_successes(tr) + populate_failures(tr) + in_flight
            &&& s.value is None ==> populate_successes(tr) == 0 && direct_writes(tr) == 0
            &&& grants(tr) <= populate_failures(tr) + 1
        }),
    decreases tr.len(),
{
    if tr.len() > 0 {
        lemma_flight_accounting::<V>(tr.drop_last());
    }
}

/// Single-flight law: from an empty slot, as long as no populate fails, the
/// write lock is granted to at most one caller, however many callers race
/// for the same slot and in whatever order their steps interleave.
pub proof fn lemma_single_flight<V>(tr: Seq<SlotEvent<V>>)
    requires
        slot_trace_valid(empty_slot::<V>(), tr),
        populate_failures(tr) == 0,
    ensures
        grants(tr) <= 1,
{
    lemma_flight_accounting::<V>(tr);
}

/// A populated slot is terminal: whatever enabled event happens next, the
/// slot stays populated — an explicit write may replace the value, but the
/// slot never reverts to empty.
pub proof fn lemma_populated_stays_populated<V>(s: SlotModel<V>, e: SlotEvent<V>)
    requires
        s.value is Some,
        slot_event_enabled(s, e),
    ensures
        slot_step(s, e).value is Some,
{
}

/// The slot's value is always the last value written into it: a populate
/// failure, a lock grant, a wait or a read leaves it untouched, so a `set`
/// followed by any number of reads yields that same value until it is
/// explicitly overwritten.
pub proof fn lemma_value_is_last_written<V>(tr: Seq<SlotEvent<V>>)
    ensures
        slot_run(empty_slot::<V>(), tr).value == last_written(tr),
    decreases tr.len(),
{
    if tr.len() > 0 {
        lemma_value_is_last_written::<V>(tr.drop_last());
    }
}

/// No partial reads: whenever the slot holds a value, that value was the
/// complete argument of some populate or direct write in the trace — a
/// reader can never observe a value mid-construction.
pub proof fn lemma_no_partial_reads<V>(tr: Seq<SlotEvent<V>>, v: V)
    requires
        slot_run(empty_slot::<V>(), tr).value == Some(v),
    ensures
        exists|i: int|
            0 <= i < tr.len() && (tr[i] == SlotEvent::PopulateOk(v) || tr[i] == SlotEvent::Wrote(
                v,
            )),
    decreases tr.len(),
{
    lemma_value_is_last_written::<V>(tr);
    if tr.len() > 0 {
        match tr.last() {
            SlotEvent::PopulateOk(_) => {
                assert(tr[tr.len() - 1] == SlotEvent::PopulateOk(v));
            },
            SlotEvent::Wrote(_) => {
                assert(tr[tr.len() - 1] == SlotEvent::Wrote(v));
            },
            _ => {
                lemma_no_partial_reads::<V>(tr.drop_last(), v);
                let i = choose|i: int|
                    0 <= i < tr.drop_last().len() && (tr.drop_last()[i] == SlotEvent::PopulateOk(v)
                        || tr.drop_last()[i] == SlotEvent::Wrote(v));
                assert(tr[i] == tr.drop_last()[i]);
            },
        }
    }
}

/// A successful populate somewhere in the trace counts.
proof fn lemma_success_witness_counts<V>(tr: Seq<SlotEvent<V>>, i: int)
    requires
        0 <= i < tr.len(),
        tr[i] is PopulateOk,
    ensures
        populate_successes(tr) >= 1,
    decreases tr.len(),
{
    if i < tr.len() - 1 {
        assert(tr.drop_last()[i] == tr[i]);
        lemma_success_witness_counts::<V>(tr.drop_last(), i);
    }
}

/// The unique successful populate of a trace determines the last value
/// written, when there are no direct writes.
proof fn lemma_unique_success_is_last_written<V>(tr: Seq<SlotEvent<V>>, i: int, v: V)
    requires
        populate_successes(tr) == 1,
        direct_writes(tr) == 0,
        0 <= i < tr.len(),
        tr[i] == SlotEvent::PopulateOk(v),
    ensures
        last_written(tr) == Some(v),
    decreases tr.len(),
{
    if i == tr.len() - 1 {
        assert(tr.last() == SlotEvent::PopulateOk(v));
    } else {
        assert(tr.drop_last()[i] == tr[i]);
        lemma_success_witness_counts::<V>(tr.drop_last(), i);
        assert(!(tr.last() is PopulateOk));
        lemma_unique_success_is_last_written::<V>(tr.drop_last(), i, v);
    }
}

/// Single-flight delivery: if no populate fails and nothing is written
/// directly, then one populate ran in all, and every caller — the populator
/// and all waiters alike — reads that populate's value from the slot.
pub proof fn lemma_single_flight_same_value<V>(tr: Seq<SlotEvent<V>>, i: int, v: V)
    requires
        slot_trace_valid(empty_slot::<V>(), tr),
        populate_failures(tr) == 0,
        direct_writes(tr) == 0,
        0 <= i < tr.len(),
        tr[i] == SlotEvent::PopulateOk(v),
    ensures
        grants(tr) == 1,
        slot_run(empty_slot::<V>(), tr).value == Some(v),
{
    lemma_flight_accounting::<V>(tr);
    lemma_success_witness_counts::<V>(tr, i);
    lemma_unique_success_is_last_written::<V>(tr, i, v);
    lemma_value_is_last_written::<V>(tr);
}

/// No error caching: when a populate is in flight over an empty slot and
/// fails, the slot is back to empty and unleased, and the very next caller
/// to try the lock is granted the populate again — a failure is surfaced
/// once and never poisons the slot.
pub proof fn lemma_no_error_caching<V>(tr: Seq<SlotEvent<V>>)
    requires
        slot_trace_valid(empty_slot::<V>(), tr),
        slot_run(empty_slot::<V>(), tr).writer_held,
        slot_run(empty_slot::<V>(), tr).value is None,
    ensures
        slot_trace_valid(
            empty_slot::<V>(),
            tr.push(SlotEvent::PopulateFailed).push(SlotEvent::LockGranted),
        ),
        grants(tr.push(SlotEvent::PopulateFailed).push(SlotEvent::LockGranted)) == grants(tr) + 1,
{
    let tr1 = tr.push(SlotEvent::PopulateFailed);
    lemma_slot_trace_valid_push(empty_slot::<V>(), tr, SlotEvent::PopulateFailed);
    lemma_slot_run_push(empty_slot::<V>(), tr, SlotEvent::PopulateFailed);
    lemma_slot_trace_valid_push(empty_slot::<V>(), tr1, SlotEvent::LockGranted);
    assert(tr1.drop_last() =~= tr);
    assert(tr1.push(SlotEvent::LockGranted).drop_last() =~= tr1);
    assert(grants(tr1) == grants(tr));
    assert(grants(tr1.push(SlotEvent::LockGranted)) == grants(tr1) + 1);
}

/// The cache table's model: one protocol slot per composite key, a key
/// being the cache-key string paired with the value's type tag.
pub open spec fn cache_step<V>(
    m: Map<(Seq<char>, u64), SlotModel<V>>,
    k: (Seq<char>, u64),
    e: SlotEvent<V>,
) -> Map<(Seq<char>, u64), SlotModel<V>> {
    m.insert(k, slot_step(m[k], e))
}

/// One observable step of the whole table: a protocol event under one
/// composite key.
pub struct CacheEvent<V> {
    pub key: (Seq<char>, u64),
    pub event: SlotEvent<V>,
}

/// A table event can happen when its key's slot exists and the event is
/// enabled on that slot.
pub open spec fn cache_event_enabled<V>(
    m: Map<(Seq<char>, u64), SlotModel<V>>,
    e: CacheEvent<V>,
) -> bool {
    m.contains_key(e.key) && slot_event_enabled(m[e.key], e.event)
}

/// The table's state after a whole trace of events.
pub open spec fn cache_run<V>(
    m0: Map<(Seq<char>, u64), SlotModel<V>>,
    tr: Seq<CacheEvent<V>>,
) -> Map<(Seq<char>, u64), SlotModel<V>>
    decreases tr.len(),
{
    if tr.len() == 0 {
        m0
    } else {
        cache_step(cache_run(m0, tr.drop_last()), tr.last().key, tr.last().event)
    }
}

/// A table trace is valid when every event is enabled in the state it
/// meets.
pub open spec fn cache_trace_valid<V>(
    m0: Map<(Seq<char>, u64), SlotModel<V>>,
    tr: Seq<CacheEvent<V>>,
) -> bool
    decreases tr.len(),
{
    tr.len() == 0 || {
        &&& cache_trace_valid(m0, tr.drop_last())
        &&& cache_event_enabled(cache_run(m0, tr.drop_last()), tr.last())
    }
}

/// The slot events a table trace performs under one key, in order.
pub open spec fn events_for<V>(tr: Seq<CacheEvent<V>>, k: (Seq<char>, u64)) -> Seq<SlotEvent<V>>
    decreases tr.len(),
{
    if tr.len() == 0 {
        Seq::empty()
    } else if tr.last().key == k {
        events_for(tr.drop_last(), k).push(tr.last().event)
    } else {
        events_for(tr.drop_last(), k)
    }
}

/// Projection: under any interleaving of events on the shared table, one
/// key's slot sees exactly its own events, as a valid trace of the slot
/// protocol, and ends in the state that trace alone produces.  Every
/// single-slot law therefore holds of every key of the shared table.
pub proof fn lemma_per_key_projection<V>(
    m0: Map<(Seq<char>, u64), SlotModel<V>>,
    tr: Seq<CacheEvent<V>>,
    k: (Seq<char>, u64),
)
    requires
        cache_trace_valid(m0, tr),
        m0.contains_key(k),
    ensures
        slot_trace_valid(m0[k], events_for(tr, k)),
        cache_run(m0, tr).contains_key(k),
        cache_run(m0, tr)[k] == slot_run(m0[k], events_for(tr, k)),
    decreases tr.len(),
{
    if tr.len() > 0 {
        lemma_per_key_projection(m0, tr.drop_last(), k);
        if tr.last().key == k {
            lemma_slot_run_push(m0[k], events_for(tr.drop_last(), k), tr.last().event);
            lemma_slot_trace_valid_push(m0[k], events_for(tr.drop_last(), k), tr.last().event);
        }
    }
}

/// Single-flight on the shared table: however the steps of all callers
/// for all keys interleave, a key whose slot started empty and whose
/// populates all succeed grants its write lock at most once.
pub proof fn lemma_single_flight_per_key<V>(
    m0: Map<(Seq<char>, u64), SlotModel<V>>,
    tr: Seq<CacheEvent<V>>,
    k: (Seq<char>, u64),
)
    requires
        cache_trace_valid(m0, tr),
        m0.contains_key(k),
        m0[k] == empty_slot::<V>(),
        populate_failures(events_for(tr, k)) == 0,
    ensures
        grants(events_for(tr, k)) <= 1,
{
    lemma_per_key_projection(m0, tr, k);
    lemma_single_flight::<V>(events_for(tr, k));
}

/// Key independence: a protocol step under one composite key neither moves
/// another key's slot nor changes which events are enabled on it, so
/// populates for distinct keys never block one another.
pub proof fn lemma_key_independence<V>(
    m: Map<(Seq<char>, u64), SlotModel<V>>,
    k1: (Seq<char>, u64),
    e1: SlotEvent<V>,
    k2: (Seq<char>, u64),
    e2: SlotEvent<V>,
)
    requires
        k1 != k2,
        m.contains_key(k2),
    ensures
        cache_step(m, k1, e1).contains_key(k2),
        cache_step(m, k1, e1)[k2] == m[k2],
        slot_event_enabled(cache_step(m, k1, e1)[k2], e2) == slot_event_enabled(m[k2], e2),
{
}

} // verus!
