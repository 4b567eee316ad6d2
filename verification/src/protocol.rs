//! A transition-system model of the compare-and-swap race that concurrent
//! acquirers of a `NaiveMutex` run on its flag.
//!
//! A state holds the atomic flag, one `holding` bit per execution unit and the
//! protected value; an event is one atomic step by one unit: an acquisition
//! attempt (the compare-and-swap: it wins exactly when the flag is clear), a
//! write to the protected value, or a release. An interleaving of any number
//! of concurrent units is a sequence of such events, and the lemmas at the end
//! prove, over every interleaving: mutual exclusion (at most one unit holds
//! the lock at any instant), that a held lock stays held until its holder
//! releases — so re-acquiring without releasing never succeeds — that a
//! release lets the next attempt win, and visibility (the value changes only
//! through a write made while holding the lock, so each holder reads what the
//! previous holder left).
//!
//! `LockRace` is the executable form of the same machine, pinned step by step
//! to the model, on which an interleaving can actually be run.

use vstd::prelude::*;

verus! {

/// One atomic step of the race, taken by execution unit `unit`.
pub enum Event {
    /// The unit tries to transition the flag from clear to set
    /// (the compare-and-swap); it acquires the lock exactly when it wins.
    Acquire { unit: int },
    /// The unit writes `value` to the protected value; it has an effect only
    /// while the unit holds the lock.
    Write { unit: int, value: int },
    /// The unit releases the lock it holds, clearing the flag.
    Release { unit: int },
}

/// A snapshot of the race: the flag, which units hold the lock, and the
/// protected value.
pub struct ModelState {
    pub flag: bool,
    pub holding: Seq<bool>,
    pub value: int,
}

/// Whether `u` names one of the execution units of state `s`.
pub open spec fn valid_unit(s: ModelState, u: int) -> bool {
    0 <= u < s.holding.len()
}

/// The initial state for `n` execution units: flag clear, nobody holding,
/// protected value `value`.
pub open spec fn initial_state(n: nat, value: int) -> ModelState {
    ModelState { flag: false, holding: Seq::new(n, |i: int| false), value }
}

/// The effect of one atomic event. A step that cannot happen (an acquisition
/// attempt while the flag is set, a write or release by a unit that does not
/// hold the lock, a nonexistent unit) leaves the state unchanged.
pub open spec fn step(s: ModelState, e: Event) -> ModelState {
    match e {
        Event::Acquire { unit } => {
            if valid_unit(s, unit) && !s.flag {
                ModelState { flag: true, holding: s.holding.update(unit, true), ..s }
            } else {
                s
            }
        },
        Event::Write { unit, value } => {
            if valid_unit(s, unit) && s.holding[unit] {
                ModelState { value, ..s }
            } else {
                s
            }
        },
        Event::Release { unit } => {
            if valid_unit(s, unit) && s.holding[unit] {
                ModelState { flag: false, holding: s.holding.update(unit, false), ..s }
            } else {
                s
            }
        },
    }
}

/// The state after running a whole interleaving from `s`.
pub open spec fn run(s: ModelState, trace: Seq<Event>) -> ModelState
    decreases trace.len(),
{
    if trace.len() == 0 {
        s
    } else {
        run(step(s, trace[0]), trace.drop_first())
    }
}

/// No two distinct positions of `holding` are set.
pub open spec fn no_two_holders(holding: Seq<bool>) -> bool {
    forall|i: int, j: int|
        0 <= i < holding.len() && 0 <= j < holding.len() && holding[i] && holding[j] ==> i == j
}

/// Some position of `holding` is set.
pub open spec fn some_holder(holding: Seq<bool>) -> bool {
    exists|i: int| 0 <= i < holding.len() && holding[i]
}

/// Mutual exclusion at one instant: no two distinct units hold the lock.
pub open spec fn at_most_one_holder(s: ModelState) -> bool {
    no_two_holders(s.holding)
}

/// The flag is set exactly while some unit holds the lock.
pub open spec fn flag_matches_holders(s: ModelState) -> bool {
    s.flag <==> some_holder(s.holding)
}

/// The invariant every reachable state satisfies.
pub open spec fn inv(s: ModelState) -> bool {
    at_most_one_holder(s) && flag_matches_holders(s)
}

/// Whether `e` is a write performed by a unit that holds the lock in `s` —
/// the only kind of event that changes the protected value.
pub open spec fn is_holder_write(s: ModelState, e: Event) -> bool {
    e matches Event::Write { unit, .. } && valid_unit(s, unit) && s.holding[unit]
}

/// The initial state satisfies the invariant.
pub proof fn lemma_initial_state_inv(n: nat, value: int)
    ensures
        inv(initial_state(n, value)),
        !initial_state(n, value).flag,
        initial_state(n, value).value == value,
{
}

/// One atomic step preserves the invariant: whichever unit moves, and whether
/// or not its compare-and-swap wins, at most one unit holds the lock
/// afterwards and the flag still tracks the holders.
pub proof fn lemma_step_preserves_inv(s: ModelState, e: Event)
    requires
        inv(s),
    ensures
        inv(step(s, e)),
{
    let t = step(s, e);
    match e {
        Event::Acquire { unit } => {
            if valid_unit(s, unit) && !s.flag {
                assert(forall|i: int|
                    0 <= i < s.holding.len() && #[trigger] s.holding[i] ==> false);
                assert(t.holding[unit]);
                assert(some_holder(t.holding));
                assert(no_two_holders(t.holding));
            }
        },
        Event::Write { .. } => {},
        Event::Release { unit } => {
            if valid_unit(s, unit) && s.holding[unit] {
                assert(forall|i: int|
                    0 <= i < t.holding.len() && #[trigger] t.holding[i] ==> s.holding[i]
                        && i != unit);
                assert(!some_holder(t.holding));
                assert(no_two_holders(t.holding));
            }
        },
    }
}

/// Mutual exclusion over every interleaving: however many concurrent units
/// race on the lock, and whatever order their steps interleave in, every state
/// the race passes through has at most one holder.
pub proof fn lemma_mutual_exclusion(s: ModelState, trace: Seq<Event>)
    requires
        inv(s),
    ensures
        inv(run(s, trace)),
        at_most_one_holder(run(s, trace)),
    decreases trace.len(),
{
    if trace.len() > 0 {
        lemma_step_preserves_inv(s, trace[0]);
        lemma_mutual_exclusion(step(s, trace[0]), trace.drop_first());
    }
}

/// While a unit holds the lock, no step it does not take part in — and no
/// renewed acquisition attempt of its own — changes who holds the lock: until
/// `u` releases, `u` stays the holder and the flag stays set, so every
/// acquisition attempt in between, including a second one by `u` itself,
/// loses and would be retried forever.
pub proof fn lemma_held_until_release(s: ModelState, trace: Seq<Event>, u: int)
    requires
        inv(s),
        valid_unit(s, u),
        s.holding[u],
        forall|k: int| 0 <= k < trace.len() ==> trace[k] != (Event::Release { unit: u }),
    ensures
        run(s, trace).holding == s.holding,
        run(s, trace).flag,
    decreases trace.len(),
{
    if trace.len() > 0 {
        let t = step(s, trace[0]);
        match trace[0] {
            Event::Acquire { .. } => {},
            Event::Write { .. } => {},
            Event::Release { unit } => {
                if valid_unit(s, unit) && s.holding[unit] {
                    assert(unit == u);
                }
            },
        }
        assert(t.holding == s.holding);
        lemma_step_preserves_inv(s, trace[0]);
        lemma_held_until_release(t, trace.drop_first(), u);
    }
}

/// Release makes the next acquisition attempt succeed: once the holder
/// releases, the flag is clear and any unit's compare-and-swap wins.
pub proof fn lemma_release_unblocks(s: ModelState, u: int, w: int)
    requires
        inv(s),
        valid_unit(s, u),
        s.holding[u],
        valid_unit(s, w),
    ensures
        !step(s, Event::Release { unit: u }).flag,
        inv(step(s, Event::Release { unit: u })),
        step(step(s, Event::Release { unit: u }), Event::Acquire { unit: w }).holding[w],
{
    lemma_step_preserves_inv(s, Event::Release { unit: u });
    let t = step(s, Event::Release { unit: u });
    assert(forall|i: int|
        0 <= i < t.holding.len() && #[trigger] t.holding[i] ==> s.holding[i] && i != u);
    assert(!some_holder(t.holding));
}

/// A step that is not a write by the current holder leaves the protected
/// value untouched.
pub proof fn lemma_step_keeps_value(s: ModelState, e: Event)
    requires
        !is_holder_write(s, e),
    ensures
        step(s, e).value == s.value,
{
}

/// Visibility: over any stretch of an interleaving in which no unit writes
/// while holding the lock, the protected value is observed unmodified — in
/// particular, whatever the holder of one guard wrote is exactly what the
/// next holder reads, no matter which other units raced in between.
pub proof fn lemma_visibility(s: ModelState, trace: Seq<Event>)
    requires
        forall|k: int|
            0 <= k < trace.len() ==> !is_holder_write(
                run(s, #[trigger] trace.take(k)),
                trace[k],
            ),
    ensures
        run(s, trace).value == s.value,
    decreases trace.len(),
{
    if trace.len() > 0 {
        assert(trace.take(0) == Seq::<Event>::empty());
        assert(!is_holder_write(s, trace[0]));
        lemma_step_keeps_value(s, trace[0]);
        let t = step(s, trace[0]);
        let rest = trace.drop_first();
        assert forall|k: int| 0 <= k < rest.len() implies !is_holder_write(
            run(t, #[trigger] rest.take(k)),
            rest[k],
        ) by {
            assert(trace.take(k + 1).drop_first() =~= rest.take(k));
            assert(run(s, trace.take(k + 1)) == run(t, rest.take(k)));
            assert(trace[k + 1] == rest[k]);
        }
        lemma_visibility(t, rest);
    }
}

/// Visibility, stated for one hand-over: a value the holder `u` writes is
/// observed, exactly as written, at every later point of any continuation of
/// the interleaving in which no holder writes again — in particular by the
/// next unit to acquire the lock, however many units raced in between.
pub proof fn lemma_written_value_reaches_next_holder(
    s: ModelState,
    u: int,
    v: int,
    trace: Seq<Event>,
)
    requires
        valid_unit(s, u),
        s.holding[u],
        forall|k: int|
            0 <= k < trace.len() ==> !is_holder_write(
                run(step(s, Event::Write { unit: u, value: v }), #[trigger] trace.take(k)),
                trace[k],
            ),
    ensures
        run(step(s, Event::Write { unit: u, value: v }), trace).value == v,
{
    let written = step(s, Event::Write { unit: u, value: v });
    assert(written.value == v);
    lemma_visibility(written, trace);
}

/// The executable form of the race: one flag, one `holding` bit per unit, the
/// protected value. Each method performs one atomic event of the model, and
/// its contract pins the new state to `step`, so everything proved of the
/// model holds of any interleaving actually run on this machine.
pub struct LockRace {
    flag: bool,
    holding: Vec<bool>,
    value: u64,
}

impl View for LockRace {
    type V = ModelState;

    closed spec fn view(&self) -> ModelState {
        ModelState { flag: self.flag, holding: self.holding@, value: self.value as int }
    }
}

impl LockRace {
    /// A fresh race among `units` execution units over an unlocked lock
    /// protecting `value`.
    pub fn new(units: usize, value: u64) -> (r: Self)
        ensures
            r@ == initial_state(units as nat, value as int),
            inv(r@),
    {
        let holding: Vec<bool> = vec![false; units];
        let r = LockRace { flag: false, holding, value };
        proof {
            assert(r@.holding =~= initial_state(units as nat, value as int).holding);
            lemma_initial_state_inv(units as nat, value as int);
        }
        r
    }

    /// The number of execution units racing.
    pub fn units(&self) -> (n: usize)
        ensures
            n == self@.holding.len(),
    {
        self.holding.len()
    }

    /// Whether `unit` currently holds the lock.
    pub fn holds(&self, unit: usize) -> (r: bool)
        requires
            unit < self@.holding.len(),
        ensures
            r == self@.holding[unit as int],
    {
        self.holding[unit]
    }

    /// The protected value as it stands now.
    pub fn read(&self) -> (r: u64)
        ensures
            r as int == self@.value,
    {
        self.value
    }

    /// One acquisition attempt by `unit`: the compare-and-swap on the flag.
    /// It wins, and `unit` becomes the holder, exactly when the flag was
    /// clear; otherwise nothing changes and the caller would retry.
    pub fn try_acquire(&mut self, unit: usize) -> (won: bool)
        requires
            unit < old(self)@.holding.len(),
        ensures
            final(self)@ == step(old(self)@, Event::Acquire { unit: unit as int }),
            won == !old(self)@.flag,
    {
        if self.flag {
            false
        } else {
            self.flag = true;
            self.holding[unit] = true;
            true
        }
    }

    /// One write of `value` by `unit`: it takes effect only while `unit`
    /// holds the lock.
    pub fn write(&mut self, unit: usize, value: u64)
        requires
            unit < old(self)@.holding.len(),
        ensures
            final(self)@ == step(
                old(self)@,
                Event::Write { unit: unit as int, value: value as int },
            ),
    {
        if self.holding[unit] {
            self.value = value;
        }
    }

    /// One release by `unit`: it clears the flag only if `unit` is a holder.
    pub fn release(&mut self, unit: usize)
        requires
            unit < old(self)@.holding.len(),
        ensures
            final(self)@ == step(old(self)@, Event::Release { unit: unit as int }),
    {
        if self.holding[unit] {
            self.holding[unit] = false;
            self.flag = false;
        }
    }
}

} // verus!
