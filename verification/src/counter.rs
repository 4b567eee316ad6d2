//! The counting protocol run through the spin lock, proved for every
//! interleaving: some number of execution units each perform a quota of
//! increments on a shared counter, and each increment is the non-atomic
//! read-then-write done inside the critical section. Whatever order the
//! units' atomic steps interleave in, no update is lost: when every unit has
//! completed its quota, the counter reads exactly units × quota.
//!
//! Each unit runs the same little program: win the compare-and-swap on the
//! flag, read the counter, write the read value plus one, release, and repeat
//! until its quota is done. A schedule says which unit moves next; the unit's
//! own phase determines what its step does, so a schedule is exactly one
//! interleaving of the concurrent execution.

use vstd::prelude::*;

verus! {

/// Where a unit stands in its current increment.
pub enum UnitPhase {
    /// Between increments (or finished): not holding the lock.
    Idle,
    /// Holds the lock, has not read the counter yet.
    Holding,
    /// Holds the lock and has read the counter as `v`.
    ReadValue { v: int },
    /// Holds the lock and has written `v + 1`; the release comes next.
    Written,
}

/// One unit: its phase and how many increments it has completed.
pub struct UnitState {
    pub phase: UnitPhase,
    pub done: nat,
}

/// The whole system: the lock's flag, every unit, and the shared counter.
pub struct CounterState {
    pub flag: bool,
    pub units: Seq<UnitState>,
    pub value: int,
}

/// Whether the unit is inside its critical section, i.e. holds the lock.
pub open spec fn in_critical(u: UnitState) -> bool {
    !(u.phase is Idle)
}

/// The start state: flag clear, every unit idle with nothing done, counter
/// at zero.
pub open spec fn start_state(n: nat) -> CounterState {
    CounterState {
        flag: false,
        units: Seq::new(n, |i: int| UnitState { phase: UnitPhase::Idle, done: 0 }),
        value: 0,
    }
}

/// One atomic step by unit `i`, following its program. An idle unit below its
/// quota attempts the compare-and-swap and enters only if the flag was clear;
/// a holder reads, then writes the read value plus one, then releases and
/// counts the increment as done. A finished unit, or a loser of the race,
/// changes nothing — it would simply retry.
pub open spec fn unit_step(s: CounterState, i: int, quota: nat) -> CounterState {
    let u = s.units[i];
    match u.phase {
        UnitPhase::Idle => {
            if u.done < quota && !s.flag {
                CounterState {
                    flag: true,
                    units: s.units.update(i, (UnitState { phase: UnitPhase::Holding, ..u })),
                    ..s
                }
            } else {
                s
            }
        },
        UnitPhase::Holding => CounterState {
            units: s.units.update(
                i,
                (UnitState { phase: UnitPhase::ReadValue { v: s.value }, ..u }),
            ),
            ..s
        },
        UnitPhase::ReadValue { v } => CounterState {
            value: v + 1,
            units: s.units.update(i, (UnitState { phase: UnitPhase::Written, ..u })),
            ..s
        },
        UnitPhase::Written => CounterState {
            flag: false,
            units: s.units.update(
                i,
                (UnitState { phase: UnitPhase::Idle, done: (u.done + 1) as nat }),
            ),
            ..s
        },
    }
}

/// One step of the schedule: the named unit moves; a name outside the range
/// moves nobody.
pub open spec fn counter_step(s: CounterState, i: int, quota: nat) -> CounterState {
    if 0 <= i < s.units.len() {
        unit_step(s, i, quota)
    } else {
        s
    }
}

/// The state after a whole schedule has run.
pub open spec fn run_schedule(s: CounterState, schedule: Seq<int>, quota: nat) -> CounterState
    decreases schedule.len(),
{
    if schedule.len() == 0 {
        s
    } else {
        run_schedule(counter_step(s, schedule[0], quota), schedule.drop_first(), quota)
    }
}

/// The increments completed so far, over all units.
pub open spec fn total_done(units: Seq<UnitState>) -> int
    decreases units.len(),
{
    if units.len() == 0 {
        0
    } else {
        total_done(units.drop_last()) + units.last().done
    }
}

/// No two distinct units are inside the critical section.
pub open spec fn at_most_one_critical(units: Seq<UnitState>) -> bool {
    forall|i: int, j: int|
        0 <= i < units.len() && 0 <= j < units.len() && in_critical(units[i]) && in_critical(
            units[j],
        ) ==> i == j
}

/// Some unit is inside the critical section.
pub open spec fn some_critical(units: Seq<UnitState>) -> bool {
    exists|i: int| 0 <= i < units.len() && in_critical(units[i])
}

/// Some unit has written but not yet released.
pub open spec fn some_written(units: Seq<UnitState>) -> bool {
    exists|i: int| 0 <= i < units.len() && units[i].phase is Written
}

/// The invariant that carries the proof through every interleaving:
/// mutual exclusion; the flag tracks the critical section; a unit in the
/// critical section is still below its quota, and no unit is above it; a
/// holder that has read saw the true counter; and the counter always equals
/// the completed increments, plus one while a write awaits its release.
pub open spec fn counter_inv(s: CounterState, quota: nat) -> bool {
    &&& at_most_one_critical(s.units)
    &&& (s.flag <==> some_critical(s.units))
    &&& forall|i: int| 0 <= i < s.units.len() ==> (#[trigger] s.units[i]).done <= quota
    &&& forall|i: int|
        0 <= i < s.units.len() && in_critical(#[trigger] s.units[i]) ==> s.units[i].done < quota
    &&& forall|i: int|
        0 <= i < s.units.len() ==> match (#[trigger] s.units[i]).phase {
            UnitPhase::ReadValue { v } => v == s.value && !some_written(s.units),
            _ => true,
        }
    &&& s.value == total_done(s.units) + if some_written(s.units) {
        1int
    } else {
        0int
    }
}

/// Replacing one unit's record moves the total by the difference of the two
/// `done` counts.
proof fn lemma_total_done_update(units: Seq<UnitState>, i: int, u: UnitState)
    requires
        0 <= i < units.len(),
    ensures
        total_done(units.update(i, u)) == total_done(units) - units[i].done + u.done,
    decreases units.len(),
{
    let updated = units.update(i, u);
    if i == units.len() - 1 {
        assert(updated.drop_last() =~= units.drop_last());
        assert(updated.last() == u);
    } else {
        assert(updated.drop_last() =~= units.drop_last().update(i, u));
        assert(updated.last() == units.last());
        lemma_total_done_update(units.drop_last(), i, u);
    }
}

/// When every unit has completed the same quota, the total is units × quota.
proof fn lemma_total_done_full(units: Seq<UnitState>, quota: nat)
    requires
        forall|i: int| 0 <= i < units.len() ==> (#[trigger] units[i]).done == quota,
    ensures
        total_done(units) == units.len() * quota,
    decreases units.len(),
{
    if units.len() > 0 {
        lemma_total_done_full(units.drop_last(), quota);
        assert(units.len() * quota == (units.len() - 1) * quota + quota) by (nonlinear_arith);
    }
}

/// The start state satisfies the invariant.
pub proof fn lemma_start_state_inv(n: nat, quota: nat)
    ensures
        counter_inv(start_state(n), quota),
        start_state(n).value == 0,
{
    let s = start_state(n);
    assert(total_done(s.units) == 0) by {
        lemma_total_done_zero(s.units);
    }
}

/// A sequence of units that have done nothing totals nothing.
proof fn lemma_total_done_zero(units: Seq<UnitState>)
    requires
        forall|i: int| 0 <= i < units.len() ==> (#[trigger] units[i]).done == 0,
    ensures
        total_done(units) == 0,
    decreases units.len(),
{
    if units.len() > 0 {
        lemma_total_done_zero(units.drop_last());
    }
}

/// Every step of every unit preserves the invariant.
pub proof fn lemma_counter_step_preserves_inv(s: CounterState, i: int, quota: nat)
    requires
        counter_inv(s, quota),
    ensures
        counter_inv(counter_step(s, i, quota), quota),
{
    if 0 <= i < s.units.len() {
        let u = s.units[i];
        let t = unit_step(s, i, quota);
        match u.phase {
            UnitPhase::Idle => {
                if u.done < quota && !s.flag {
                    assert(forall|k: int|
                        0 <= k < s.units.len() && in_critical(#[trigger] s.units[k]) ==> false);
                    assert(in_critical(t.units[i]));
                    assert(some_critical(t.units));
                    assert(!some_written(s.units));
                    assert(!some_written(t.units)) by {
                        assert(forall|k: int|
                            0 <= k < t.units.len() && (#[trigger] t.units[k]).phase is Written
                                ==> s.units[k].phase is Written);
                    }
                    lemma_total_done_update(s.units, i, t.units[i]);
                }
            },
            UnitPhase::Holding => {
                assert(!some_written(s.units)) by {
                    assert(forall|k: int|
                        0 <= k < s.units.len() && (#[trigger] s.units[k]).phase is Written
                            ==> in_critical(s.units[k]) && k != i);
                }
                assert(in_critical(t.units[i]));
                assert(some_critical(t.units));
                assert(!some_written(t.units)) by {
                    assert(forall|k: int|
                        0 <= k < t.units.len() && (#[trigger] t.units[k]).phase is Written
                            ==> s.units[k].phase is Written);
                }
                lemma_total_done_update(s.units, i, t.units[i]);
            },
            UnitPhase::ReadValue { v } => {
                assert(v == s.value && !some_written(s.units));
                assert(in_critical(t.units[i]));
                assert(some_critical(t.units));
                assert(t.units[i].phase is Written);
                assert(some_written(t.units));
                assert(forall|k: int|
                    0 <= k < t.units.len() ==> !((#[trigger] t.units[k]).phase is ReadValue)) by {
                    assert(forall|k: int|
                        0 <= k < t.units.len() && in_critical(#[trigger] t.units[k]) ==> k == i);
                }
                lemma_total_done_update(s.units, i, t.units[i]);
                assert(t.value == total_done(t.units) + 1);
            },
            UnitPhase::Written => {
                assert(some_written(s.units));
                assert(forall|k: int|
                    0 <= k < t.units.len() && in_critical(#[trigger] t.units[k]) ==> in_critical(
                        s.units[k],
                    ) && k == i);
                assert(!some_critical(t.units));
                assert(!some_written(t.units)) by {
                    assert(forall|k: int|
                        0 <= k < t.units.len() && (#[trigger] t.units[k]).phase is Written
                            ==> in_critical(t.units[k]));
                }
                lemma_total_done_update(s.units, i, t.units[i]);
                assert(total_done(t.units) == total_done(s.units) + 1);
            },
        }
    }
}

/// The invariant holds after any schedule.
pub proof fn lemma_run_schedule_inv(s: CounterState, schedule: Seq<int>, quota: nat)
    requires
        counter_inv(s, quota),
    ensures
        counter_inv(run_schedule(s, schedule, quota), quota),
    decreases schedule.len(),
{
    if schedule.len() > 0 {
        lemma_counter_step_preserves_inv(s, schedule[0], quota);
        lemma_run_schedule_inv(counter_step(s, schedule[0], quota), schedule.drop_first(), quota);
    }
}

/// No update is lost, over every interleaving: run any schedule of `n` units
/// from the start state, each incrementing through the lock; if afterwards
/// every unit is idle with its quota completed, the counter reads exactly
/// `n * quota`.
pub proof fn lemma_counter_ends_at_units_times_quota(n: nat, quota: nat, schedule: Seq<int>)
    requires
        forall|i: int|
            0 <= i < n ==> {
                let u = #[trigger] run_schedule(start_state(n), schedule, quota).units[i];
                u.phase is Idle && u.done == quota
            },
    ensures
        run_schedule(start_state(n), schedule, quota).value == n * quota,
{
    lemma_start_state_inv(n, quota);
    lemma_run_schedule_inv(start_state(n), schedule, quota);
    let end = run_schedule(start_state(n), schedule, quota);
    assert(end.units.len() == n) by {
        lemma_run_schedule_unit_count(start_state(n), schedule, quota);
    }
    assert(!some_written(end.units));
    lemma_total_done_full(end.units, quota);
}

/// A schedule never changes how many units there are.
proof fn lemma_run_schedule_unit_count(s: CounterState, schedule: Seq<int>, quota: nat)
    ensures
        run_schedule(s, schedule, quota).units.len() == s.units.len(),
    decreases schedule.len(),
{
    if schedule.len() > 0 {
        lemma_run_schedule_unit_count(counter_step(s, schedule[0], quota), schedule.drop_first(), quota);
    }
}

} // verus!
