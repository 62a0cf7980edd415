use vstd::prelude::*;
use crate::hw::component::ComponentRef;
use crate::hw::component::ExecutionError;
use crate::hw::component::Outcome;

verus! {

/// The time from one tick of a clock to the next, as a fraction: `nanos`
/// nanoseconds pass in every `ticks` ticks.
///
/// A period is never shorter than a nanosecond, so that no span of time
/// holds more ticks than nanoseconds.
#[derive(Clone, Copy, Debug, PartialEq, Eq)]
pub struct Period {
    nanos: u64,
    ticks: u64,
}

impl Period {
    /// The numerator: a number of nanoseconds.
    pub closed spec fn spec_nanos(&self) -> u64 {
        self.nanos
    }

    /// The denominator: the number of ticks that take those nanoseconds.
    pub closed spec fn spec_ticks(&self) -> u64 {
        self.ticks
    }

    /// At least one tick, and at least a nanosecond for each.
    pub open spec fn wf(&self) -> bool {
        1 <= self.ticks() <= self.nanos()
    }

    #[verifier::type_invariant]
    spec fn inv(&self) -> bool {
        self.wf()
    }

    /// The number of whole ticks in `nanos` nanoseconds: the quotient of the
    /// duration by the period, rounded down.
    pub open spec fn ticks_in(&self, nanos: nat) -> nat {
        nanos * self.ticks() as nat / self.nanos() as nat
    }

    /// The period of `ticks` ticks in every `nanos` nanoseconds, if there is
    /// at least one tick and at least a nanosecond for each.
    pub fn new(nanos: u64, ticks: u64) -> (r: Option<Period>)
        ensures
            r is Some <==> 1 <= ticks <= nanos,
            r matches Some(p) ==> p.nanos() == nanos && p.ticks() == ticks,
    {
        if 1 <= ticks && ticks <= nanos {
            Some(Period { nanos, ticks })
        } else {
            None
        }
    }

    /// The numerator: a number of nanoseconds.
    #[verifier::when_used_as_spec(spec_nanos)]
    pub fn nanos(&self) -> (r: u64)
        ensures
            r == self.spec_nanos(),
            self.wf(),
    {
        proof {
            use_type_invariant(self);
        }
        self.nanos
    }

    /// The denominator: the number of ticks that take those nanoseconds.
    #[verifier::when_used_as_spec(spec_ticks)]
    pub fn ticks(&self) -> (r: u64)
        ensures
            r == self.spec_ticks(),
            self.wf(),
    {
        proof {
            use_type_invariant(self);
        }
        self.ticks
    }

    /// The number of whole ticks in `nanos` nanoseconds.
    pub fn whole_ticks(&self, nanos: u64) -> (r: u64)
        ensures
            r == self.ticks_in(nanos as nat),
            r <= nanos,
    {
        proof {
            use_type_invariant(self);
            lemma_ticks_in_bounds(*self, nanos as nat);
            assert(nanos * self.ticks <= u128::MAX) by (nonlinear_arith)
                requires
                    nanos <= u64::MAX,
                    self.ticks <= u64::MAX,
            ;
        }
        ((nanos as u128 * self.ticks as u128) / self.nanos as u128) as u64
    }
}

/// The ticks in a duration take no longer than the duration, and one tick
/// more would: this is what it is to round the quotient down.
pub proof fn lemma_ticks_in_bounds(period: Period, nanos: nat)
    requires
        period.wf(),
    ensures
        period.ticks_in(nanos) * period.nanos() <= nanos * period.ticks(),
        nanos * period.ticks() < (period.ticks_in(nanos) + 1) * period.nanos(),
        period.ticks_in(nanos) <= nanos,
{
    let n = period.nanos() as int;
    let t = period.ticks() as int;
    let x = nanos * t;
    vstd::arithmetic::div_mod::lemma_fundamental_div_mod(x, n);
    vstd::arithmetic::div_mod::lemma_mod_bound(x, n);
    assert((x / n) * n == n * (x / n)) by (nonlinear_arith);
    assert(((x / n) + 1) * n == n * (x / n) + n) by (nonlinear_arith);
    assert(x / n <= nanos) by (nonlinear_arith)
        requires
            1 <= t <= n,
            0 <= nanos,
            x == nanos * t,
            (x / n) * n <= x,
    ;
}

/// A span of time as an exact fraction: `nanos` divided by `per`, in
/// nanoseconds.
#[derive(Clone, Copy, Debug, PartialEq, Eq)]
pub struct Span {
    pub nanos: u128,
    pub per: u64,
}

impl Span {
    /// The whole nanoseconds of the span, what is left over dropped.
    pub fn whole_nanos(&self) -> (r: u128)
        requires
            self.per > 0,
        ensures
            r == self.nanos / self.per as u128,
    {
        self.nanos / self.per as u128
    }
}

/// Has one component step once in every so many ticks of a clock.
///
/// After a step that took `c` of the component's cycles, the next is due
/// `ratio * c` ticks later. A divider counts the ticks down to it.
pub struct Divider {
    divider: u64,
    ticks_remaining: u128,
    component: ComponentRef,
}

impl Divider {
    /// The number of clock ticks that one cycle of the component takes.
    pub closed spec fn ratio(&self) -> u64 {
        self.divider
    }

    /// The number of ticks until the component steps, the tick on which it
    /// steps included. At zero it is due as well: a divider that was never
    /// seeded steps on its first tick.
    pub closed spec fn remaining(&self) -> u128 {
        self.ticks_remaining
    }

    /// The component that is stepped.
    pub closed spec fn component(&self) -> ComponentRef {
        self.component
    }

    /// Whether a countdown that stands at `remaining` ends on the next tick.
    pub open spec fn is_due(remaining: nat) -> bool {
        remaining <= 1
    }

    /// The countdown that a step leaves behind: for each of the `cycles` that
    /// it took, `ratio` ticks of the clock.
    pub open spec fn seed(ratio: u64, cycles: u64) -> nat {
        (ratio * cycles) as nat
    }

    /// What the step of a due component means for the tick that asked for
    /// it: a failed step ends it with an error, and so does a lock that is
    /// poisoned or held.
    pub open spec fn verdict(outcome: Outcome) -> Result<(), ExecutionError> {
        match outcome {
            Outcome::Ran(Ok(_)) => Ok(()),
            Outcome::Ran(Err(e)) => Err(e),
            Outcome::Poisoned => Err(ExecutionError::Poisoned),
            Outcome::Busy => Err(ExecutionError::Busy),
        }
    }

    /// The countdown one tick after it stood at `remaining`, if the step of
    /// the component, should it be due, meets with `outcome`.
    ///
    /// A countdown that does not end on the tick is one less. One that ends
    /// is seeded anew by the cycles that the step took, or, where the step
    /// failed, stands at zero, so that the component is due again on the
    /// next tick.
    pub open spec fn after_turn(ratio: u64, remaining: nat, outcome: Outcome) -> nat {
        if !Self::is_due(remaining) {
            (remaining - 1) as nat
        } else {
            match outcome {
                Outcome::Ran(Ok(cycles)) => Self::seed(ratio, cycles),
                _ => 0,
            }
        }
    }

    /// What a tick comes to for a divider whose countdown stood at
    /// `remaining`, if the step of the component, should it be due, meets
    /// with `outcome`: whether the component stepped, or why it did not get
    /// through its step.
    pub open spec fn result_of_turn(remaining: nat, outcome: Outcome) -> Result<
        bool,
        ExecutionError,
    > {
        if !Self::is_due(remaining) {
            Ok(false)
        } else {
            match Self::verdict(outcome) {
                Ok(()) => Ok(true),
                Err(e) => Err(e),
            }
        }
    }

    /// The countdown one tick after it stood at `remaining`, if the step of a
    /// component that is due takes `cycles` cycles.
    pub open spec fn after_tick(ratio: u64, cycles: u64, remaining: nat) -> nat {
        Self::after_turn(ratio, remaining, Outcome::Ran(Ok(cycles)))
    }

    /// The countdown `n` ticks after it stood at `remaining`, if every step
    /// takes `cycles` cycles.
    pub open spec fn after_ticks(ratio: u64, cycles: u64, remaining: nat, n: nat) -> nat
        decreases n,
    {
        if n == 0 {
            remaining
        } else {
            let earlier = Self::after_ticks(ratio, cycles, remaining, (n - 1) as nat);
            Self::after_tick(ratio, cycles, earlier)
        }
    }

    /// The number of steps within `n` ticks from a countdown at `remaining`,
    /// if every step takes `cycles` cycles.
    pub open spec fn steps_within(ratio: u64, cycles: u64, remaining: nat, n: nat) -> nat
        decreases n,
    {
        if n == 0 {
            0
        } else {
            let earlier = Self::steps_within(ratio, cycles, remaining, (n - 1) as nat);
            if Self::is_due(Self::after_ticks(ratio, cycles, remaining, (n - 1) as nat)) {
                earlier + 1
            } else {
                earlier
            }
        }
    }

    /// The same divider but for its countdown.
    pub open spec fn same_wiring(&self, other: &Divider) -> bool {
        self.ratio() == other.ratio() && self.component() == other.component()
    }

    /// A divider that has not been seeded yet.
    pub fn new(divider: u64, component: ComponentRef) -> (r: Self)
        ensures
            r.ratio() == divider,
            r.remaining() == 0,
            r.component() == component,
    {
        Self { divider, ticks_remaining: 0, component }
    }

    /// Lets one tick pass, and says whether the component is due on it.
    pub fn count_down(&mut self) -> (due: bool)
        ensures
            old(self).same_wiring(final(self)),
            due == Self::is_due(old(self).remaining() as nat),
            due ==> final(self).remaining() == 0,
            !due ==> final(self).remaining() == old(self).remaining() - 1,
    {
        if self.ticks_remaining <= 1 {
            self.ticks_remaining = 0;
            true
        } else {
            self.ticks_remaining -= 1;
            false
        }
    }

    /// Takes in what came of the step of a component that was due.
    ///
    /// A step that took `c` cycles puts the next one `ratio * c` ticks
    /// ahead. A step that failed, and a lock that was poisoned or held,
    /// leave the countdown as it was and are handed on as the error.
    pub fn settle(&mut self, outcome: Outcome) -> (r: Result<(), ExecutionError>)
        ensures
            old(self).same_wiring(final(self)),
            r == Self::verdict(outcome),
            match outcome {
                Outcome::Ran(Ok(cycles)) => final(self).remaining() == Self::seed(
                    old(self).ratio(),
                    cycles,
                ),
                _ => final(self).remaining() == old(self).remaining(),
            },
    {
        match outcome {
            Outcome::Ran(Ok(cycles)) => {
                assert(self.divider * cycles <= u128::MAX) by (nonlinear_arith)
                    requires
                        self.divider <= u64::MAX,
                        cycles <= u64::MAX,
                ;
                self.ticks_remaining = self.divider as u128 * cycles as u128;
                Ok(())
            },
            Outcome::Ran(Err(e)) => Err(e),
            Outcome::Poisoned => Err(ExecutionError::Poisoned),
            Outcome::Busy => Err(ExecutionError::Busy),
        }
    }

    /// Lets one tick pass and steps the component if it is due.
    ///
    /// Says whether the component stepped. Where it was not due, the
    /// countdown is one less and the call succeeds. Where it was, the
    /// countdown and the result are what the outcome of the step makes of
    /// them, whatever it was.
    pub fn tick(&mut self) -> (r: Result<bool, ExecutionError>)
        ensures
            old(self).same_wiring(final(self)),
            exists|outcome: Outcome|
                final(self).remaining() == #[trigger] Self::after_turn(
                    old(self).ratio(),
                    old(self).remaining() as nat,
                    outcome,
                ) && r == Self::result_of_turn(old(self).remaining() as nat, outcome),
            !Self::is_due(old(self).remaining() as nat) ==> r == Ok::<bool, ExecutionError>(false)
                && final(self).remaining() == old(self).remaining() - 1,
    {
        if self.count_down() {
            let outcome = self.component.step();
            let ghost seen = outcome;
            let settled = self.settle(outcome);
            assert(self.remaining() == Self::after_turn(
                old(self).ratio(),
                old(self).remaining() as nat,
                seen,
            ));
            match settled {
                Ok(done) => {
                    assert(done == ());
                    Ok(true)
                },
                Err(e) => Err(e),
            }
        } else {
            assert(self.remaining() == Self::after_turn(
                old(self).ratio(),
                old(self).remaining() as nat,
                Outcome::Busy,
            ));
            Ok(false)
        }
    }
}

/// How far a run of ticks has come.
pub struct Replay {
    /// The countdown of every divider.
    pub remaining: Seq<u128>,
    /// The number of steps that were asked for.
    pub used: nat,
    /// The failure that ended the run, if one did.
    pub failure: Option<ExecutionError>,
}

/// Counts time in ticks of one period and has each linked component step
/// at its own fraction of that rate.
pub struct Clock {
    period: Period,
    ticks: u64,
    dividers: Vec<Divider>,
}

impl Clock {
    /// The time from one tick to the next.
    pub closed spec fn spec_period(&self) -> Period {
        self.period
    }

    /// The number of ticks issued so far.
    pub closed spec fn ticks(&self) -> u64 {
        self.ticks
    }

    /// The dividers, in the order in which they were linked.
    pub closed spec fn dividers(&self) -> Seq<Divider> {
        self.dividers@
    }

    /// The time that the ticks issued so far have taken: their number times
    /// the period, exactly.
    pub open spec fn spec_elapsed(&self) -> Span {
        Span {
            nanos: (self.ticks() * self.period().nanos()) as u128,
            per: self.period().ticks(),
        }
    }

    /// The number of ticks that take the clock to the time `nanos`: none if
    /// it is there already or beyond.
    pub open spec fn ticks_to(&self, nanos: nat) -> nat {
        if self.period().ticks_in(nanos) > self.ticks() {
            (self.period().ticks_in(nanos) - self.ticks()) as nat
        } else {
            0
        }
    }

    /// What `count` ticks do to a clock whatever its components do: `after`
    /// has counted them all, and is wired as before.
    pub open spec fn ticked(&self, count: nat, after: &Clock) -> bool {
        &&& after.period() == self.period()
        &&& after.ticks() == self.ticks() + count
        &&& after.dividers().len() == self.dividers().len()
        &&& forall|i: int|
            0 <= i < self.dividers().len() ==> (#[trigger] self.dividers()[i]).same_wiring(
                &after.dividers()[i],
            )
    }

    /// No component comes due within the next `count` ticks.
    pub open spec fn quiet_for(&self, count: nat) -> bool {
        forall|i: int|
            0 <= i < self.dividers().len() ==> (#[trigger] self.dividers()[i]).remaining() > count
    }

    /// The countdown of every divider, in the order of linking.
    pub open spec fn countdowns(&self) -> Seq<u128> {
        Self::countdowns_of(self.dividers())
    }

    /// The countdown of each of `dividers`.
    pub open spec fn countdowns_of(dividers: Seq<Divider>) -> Seq<u128> {
        Seq::new(dividers.len(), |i: int| dividers[i].remaining())
    }

    /// The ratio of every divider, in the order of linking.
    pub open spec fn ratios(&self) -> Seq<u64> {
        Self::ratios_of(self.dividers())
    }

    /// The ratio of each of `dividers`.
    pub open spec fn ratios_of(dividers: Seq<Divider>) -> Seq<u64> {
        Seq::new(dividers.len(), |i: int| dividers[i].ratio())
    }

    /// The countdowns after the first `turns` turns of a run of ticks, in
    /// which the components that came due met with `outcomes`, one after
    /// the other.
    ///
    /// In every tick each divider has one turn, in the order of linking. In
    /// its turn a divider that is not due counts down by one. One that is
    /// due takes the next of the outcomes, and its countdown is what that
    /// outcome makes of it. A failure ends the run, so that no later turn
    /// changes anything.
    pub open spec fn replay(
        ratios: Seq<u64>,
        start: Seq<u128>,
        outcomes: Seq<Outcome>,
        turns: nat,
    ) -> Replay
        decreases turns,
    {
        if turns == 0 {
            Replay { remaining: start, used: 0, failure: None }
        } else {
            let before = Self::replay(ratios, start, outcomes, (turns - 1) as nat);
            let at = (turns - 1) as int % ratios.len() as int;
            let remaining = before.remaining[at] as nat;
            let outcome = outcomes[before.used as int];
            if before.failure is Some {
                before
            } else {
                Replay {
                    remaining: before.remaining.update(
                        at,
                        Divider::after_turn(ratios[at], remaining, outcome) as u128,
                    ),
                    used: if Divider::is_due(remaining) {
                        before.used + 1
                    } else {
                        before.used
                    },
                    failure: match Divider::result_of_turn(remaining, outcome) {
                        Ok(_) => None,
                        Err(e) => Some(e),
                    },
                }
            }
        }
    }

    /// The clock `after` is what `count` ticks make of this one if the
    /// components that come due meet with `outcomes`, with none of them
    /// left over, and `result` is what the ticks come to.
    pub open spec fn replayed(
        &self,
        count: nat,
        outcomes: Seq<Outcome>,
        after: &Clock,
        result: Result<(), ExecutionError>,
    ) -> bool {
        let end = Self::replay(
            self.ratios(),
            self.countdowns(),
            outcomes,
            count * self.dividers().len(),
        );
        &&& end.used == outcomes.len()
        &&& after.countdowns() == end.remaining
        &&& result == match end.failure {
            Some(e) => Err::<(), ExecutionError>(e),
            None => Ok(()),
        }
    }

    /// What is known of a clock `after` it was asked for `count` ticks,
    /// which came to `result`.
    ///
    /// The ticks are counted in full either way, and the wiring is as
    /// before. The countdowns are what the steps of the components that came
    /// due made of them, whatever these were. If no component was due within
    /// the ticks, the call succeeded. A divider that was not due within them
    /// has counted all of them down after a success, and some of them after
    /// a failure.
    pub open spec fn tick_outcome(
        &self,
        count: nat,
        after: &Clock,
        result: Result<(), ExecutionError>,
    ) -> bool {
        &&& self.ticked(count, after)
        &&& exists|outcomes: Seq<Outcome>| #[trigger] self.replayed(count, outcomes, after, result)
        &&& self.quiet_for(count) ==> result is Ok
        &&& forall|i: int|
            0 <= i < self.dividers().len() && (#[trigger] self.dividers()[i]).remaining() > count
                ==> if result is Ok {
                after.dividers()[i].remaining() == self.dividers()[i].remaining() - count
            } else {
                self.dividers()[i].remaining() - count <= after.dividers()[i].remaining()
                    <= self.dividers()[i].remaining()
            }
    }

    /// What a run of ticks that is asked to say their number comes to.
    pub open spec fn counted(count: nat, result: Result<(), ExecutionError>) -> Result<
        u64,
        ExecutionError,
    > {
        match result {
            Ok(()) => Ok(count as u64),
            Err(e) => Err(e),
        }
    }

    /// A clock of the given period at time zero, with nothing linked to it.
    pub fn new(period: Period) -> (r: Self)
        ensures
            r.period() == period,
            r.ticks() == 0,
            r.dividers() == Seq::<Divider>::empty(),
    {
        Self { period, ticks: 0, dividers: Vec::new() }
    }

    /// Links a component that is to run at one cycle in every `divider`
    /// ticks. It steps for the first time on the next tick, after the
    /// components that were linked before it.
    pub fn link(&mut self, divider: u64, component: ComponentRef)
        ensures
            final(self).period() == old(self).period(),
            final(self).ticks() == old(self).ticks(),
            final(self).dividers().len() == old(self).dividers().len() + 1,
            final(self).dividers().drop_last() == old(self).dividers(),
            final(self).dividers().last().ratio() == divider,
            final(self).dividers().last().remaining() == 0,
            final(self).dividers().last().component() == component,
    {
        self.dividers.push(Divider::new(divider, component));
    }

    /// Runs the clock for as many whole ticks as `nanos` nanoseconds hold,
    /// and says how many those were.
    pub fn run_for(&mut self, nanos: u64) -> (r: Result<u64, ExecutionError>)
        requires
            old(self).ticks() + old(self).period().ticks_in(nanos as nat) <= u64::MAX,
        ensures
            exists|result: Result<(), ExecutionError>|
                r == Self::counted(old(self).period().ticks_in(nanos as nat), result)
                    && #[trigger] old(self).tick_outcome(
                    old(self).period().ticks_in(nanos as nat),
                    final(self),
                    result,
                ),
    {
        let ticks = self.period.whole_ticks(nanos);
        let result = self.tick(ticks);
        assert(old(self).tick_outcome(old(self).period().ticks_in(nanos as nat), self, result));
        match result {
            Ok(()) => Ok(ticks),
            Err(e) => Err(e),
        }
    }

    /// Runs the clock up to the time `nanos`, counted from its start, and
    /// says how many ticks that took. A clock that is there already, or
    /// beyond, stays where it is.
    pub fn run_to(&mut self, nanos: u64) -> (r: Result<u64, ExecutionError>)
        ensures
            exists|result: Result<(), ExecutionError>|
                r == Self::counted(old(self).ticks_to(nanos as nat), result)
                    && #[trigger] old(self).tick_outcome(
                    old(self).ticks_to(nanos as nat),
                    final(self),
                    result,
                ),
    {
        let target = self.period.whole_ticks(nanos);
        let ticks = if target > self.ticks {
            target - self.ticks
        } else {
            0
        };
        let result = self.tick(ticks);
        assert(old(self).tick_outcome(old(self).ticks_to(nanos as nat), self, result));
        match result {
            Ok(()) => Ok(ticks),
            Err(e) => Err(e),
        }
    }

    /// Issues `count` ticks.
    ///
    /// The ticks are added to the time at once. Then, tick by tick, every
    /// divider counts down, in the order of linking, and a component that
    /// comes due steps. The first step that fails, or that cannot be asked
    /// for because the lock of its component is poisoned or held, ends the
    /// call with its error: the dividers that had their turn before it keep
    /// what they counted, and the time stays advanced.
    pub fn tick(&mut self, count: u64) -> (r: Result<(), ExecutionError>)
        requires
            old(self).ticks() + count <= u64::MAX,
        ensures
            old(self).tick_outcome(count as nat, final(self), r),
    {
        let ghost before = self.dividers@;
        let ghost ratios = Self::ratios_of(before);
        let ghost start = Self::countdowns_of(before);
        let ghost mut seen: Seq<Outcome> = Seq::empty();
        self.ticks = self.ticks + count;
        let len = self.dividers.len();
        let mut done: u64 = 0;
        while done < count
            invariant
                done <= count,
                self.period == old(self).period,
                self.ticks == old(self).ticks + count,
                before == old(self).dividers@,
                ratios == Self::ratios_of(before),
                start == Self::countdowns_of(before),
                len == self.dividers@.len() == before.len(),
                forall|i: int|
                    0 <= i < len ==> (#[trigger] before[i]).same_wiring(&self.dividers@[i]),
                forall|i: int|
                    0 <= i < len && (#[trigger] before[i]).remaining() > count
                        ==> self.dividers@[i].remaining() == before[i].remaining() - done,
                Self::replay(ratios, start, seen, done as nat * len as nat) == (Replay {
                    remaining: Self::countdowns_of(self.dividers@),
                    used: seen.len(),
                    failure: None,
                }),
            decreases count - done,
        {
            let mut at: usize = 0;
            while at < len
                invariant
                    done < count,
                    at <= len,
                    self.period == old(self).period,
                    self.ticks == old(self).ticks + count,
                    before == old(self).dividers@,
                    ratios == Self::ratios_of(before),
                    start == Self::countdowns_of(before),
                    len == self.dividers@.len() == before.len(),
                    forall|i: int|
                        0 <= i < len ==> (#[trigger] before[i]).same_wiring(&self.dividers@[i]),
                    forall|i: int|
                        0 <= i < len && (#[trigger] before[i]).remaining() > count
                            ==> self.dividers@[i].remaining() == before[i].remaining() - done - if i
                            < at {
                            1int
                        } else {
                            0int
                        },
                    Self::replay(ratios, start, seen, done as nat * len as nat + at as nat) == (
                    Replay {
                        remaining: Self::countdowns_of(self.dividers@),
                        used: seen.len(),
                        failure: None,
                    }),
                decreases len - at,
            {
                let ghost turn = done as nat * len as nat + at as nat;
                let ghost earlier = Self::countdowns_of(self.dividers@);
                let ghost ratio = self.dividers@[at as int].ratio();
                let turned = self.dividers[at].tick();
                proof {
                    let remaining = earlier[at as int] as nat;
                    let outcome = choose|outcome: Outcome|
                        self.dividers@[at as int].remaining() == #[trigger] Divider::after_turn(
                            ratio,
                            remaining,
                            outcome,
                        ) && turned == Divider::result_of_turn(remaining, outcome);
                    lemma_turn_of(done as nat, len as nat, at as nat);
                    assert(Self::countdowns_of(self.dividers@) =~= earlier.update(
                        at as int,
                        Divider::after_turn(ratio, remaining, outcome) as u128,
                    ));
                    if Divider::is_due(remaining) {
                        lemma_replay_reads_what_it_used(
                            ratios,
                            start,
                            seen,
                            seen.push(outcome),
                            turn,
                        );
                        seen = seen.push(outcome);
                    }
                }
                match turned {
                    Ok(_) => {},
                    Err(e) => {
                        proof {
                            assert(old(self).dividers()[at as int].remaining() <= count);
                            lemma_turns_of(done as nat, len as nat, at as nat + 1, count as nat);
                            lemma_replay_stays_failed(
                                ratios,
                                start,
                                seen,
                                turn + 1,
                                count as nat * len as nat,
                            );
                            assert(old(self).replayed(count as nat, seen, self, Err(e)));
                        }
                        return Err(e);
                    },
                }
                at += 1;
            }
            proof {
                lemma_turns_of(done as nat, len as nat, len as nat, count as nat);
            }
            done += 1;
        }
        assert(old(self).replayed(count as nat, seen, self, Ok(())));
        Ok(())
    }

    /// The time that the ticks issued so far have taken.
    #[verifier::when_used_as_spec(spec_elapsed)]
    pub fn elapsed(&self) -> (r: Span)
        ensures
            r == self.spec_elapsed(),
            r.per > 0,
    {
        let nanos = self.period.nanos();
        let per = self.period.ticks();
        assert(self.ticks * nanos <= u128::MAX) by (nonlinear_arith)
            requires
                self.ticks <= u64::MAX,
                nanos <= u64::MAX,
        ;
        Span { nanos: self.ticks as u128 * nanos as u128, per }
    }

    /// The time from one tick to the next.
    #[verifier::when_used_as_spec(spec_period)]
    pub fn period(&self) -> (r: Period)
        ensures
            r == self.spec_period(),
            r.wf(),
    {
        let nanos = self.period.nanos();
        self.period
    }
}

/// The turn after `done` whole ticks and `at` turns of the next is the turn
/// of the divider `at`.
proof fn lemma_turn_of(done: nat, len: nat, at: nat)
    requires
        at < len,
    ensures
        (done * len + at) as int % len as int == at,
{
    vstd::arithmetic::div_mod::lemma_fundamental_div_mod_converse(
        (done * len + at) as int,
        len as int,
        done as int,
        at as int,
    );
}

/// The turns of `done` whole ticks and of `at` dividers more are among those
/// of `count` ticks, and with the last divider another tick is whole.
proof fn lemma_turns_of(done: nat, len: nat, at: nat, count: nat)
    requires
        done < count,
        at <= len,
    ensures
        done * len + at <= count * len,
        done * len + len == (done + 1) * len,
{
    assert(done * len + len == (done + 1) * len) by (nonlinear_arith);
    assert((done + 1) * len <= count * len) by (nonlinear_arith)
        requires
            done + 1 <= count,
    ;
}

/// A run reads the outcomes from the first on and no further than it says:
/// two rows of outcomes that are the same that far make the same run.
pub proof fn lemma_replay_reads_what_it_used(
    ratios: Seq<u64>,
    start: Seq<u128>,
    outcomes: Seq<Outcome>,
    others: Seq<Outcome>,
    turns: nat,
)
    requires
        forall|i: int|
            0 <= i < Clock::replay(ratios, start, outcomes, turns).used ==> outcomes[i]
                == others[i],
    ensures
        Clock::replay(ratios, start, outcomes, turns) == Clock::replay(
            ratios,
            start,
            others,
            turns,
        ),
    decreases turns,
{
    if turns > 0 {
        let before = Clock::replay(ratios, start, outcomes, (turns - 1) as nat);
        assert(before.used <= Clock::replay(ratios, start, outcomes, turns).used);
        lemma_replay_reads_what_it_used(ratios, start, outcomes, others, (turns - 1) as nat);
    }
}

/// A run that has failed stays as it is.
pub proof fn lemma_replay_stays_failed(
    ratios: Seq<u64>,
    start: Seq<u128>,
    outcomes: Seq<Outcome>,
    turns: nat,
    later: nat,
)
    requires
        Clock::replay(ratios, start, outcomes, turns).failure is Some,
        turns <= later,
    ensures
        Clock::replay(ratios, start, outcomes, later) == Clock::replay(
            ratios,
            start,
            outcomes,
            turns,
        ),
    decreases later,
{
    if turns < later {
        lemma_replay_stays_failed(ratios, start, outcomes, turns, (later - 1) as nat);
    }
}

/// Ticks add up: `n` ticks and then `m` leave a clock at the time at which
/// `n + m` ticks at once leave it.
pub proof fn lemma_ticks_add_up(
    start: Clock,
    n: nat,
    between: Clock,
    m: nat,
    split: Clock,
    whole: Clock,
)
    requires
        start.ticked(n, &between),
        between.ticked(m, &split),
        start.ticked(n + m, &whole),
    ensures
        split.ticks() == whole.ticks(),
        split.elapsed() == whole.elapsed(),
{
}

/// The time on a clock that was run for `nanos` nanoseconds is ahead of the
/// time before by the period times the whole ticks in `nanos`, exactly. That
/// is no more than `nanos`, and short of it by less than a period.
pub proof fn lemma_run_for_elapsed(start: Clock, nanos: nat, after: Clock)
    requires
        start.period().wf(),
        start.ticked(start.period().ticks_in(nanos), &after),
    ensures
        after.elapsed().per == start.period().ticks(),
        after.elapsed().nanos == start.elapsed().nanos + start.period().ticks_in(nanos)
            * start.period().nanos(),
        start.period().ticks_in(nanos) * start.period().nanos() <= nanos * start.period().ticks(),
        nanos * start.period().ticks() < start.period().ticks_in(nanos) * start.period().nanos()
            + start.period().nanos(),
{
    let period = start.period();
    let ticks = period.ticks_in(nanos);
    lemma_ticks_in_bounds(period, nanos);
    assert((start.ticks() + ticks) * period.nanos() == start.ticks() * period.nanos() + ticks
        * period.nanos()) by (nonlinear_arith);
    assert((ticks + 1) * period.nanos() == ticks * period.nanos() + period.nanos())
        by (nonlinear_arith);
    assert(after.ticks() * period.nanos() <= u128::MAX) by (nonlinear_arith)
        requires
            after.ticks() <= u64::MAX,
            period.nanos() <= u64::MAX,
    ;
    assert(start.ticks() * period.nanos() <= u128::MAX) by (nonlinear_arith)
        requires
            start.ticks() <= u64::MAX,
            period.nanos() <= u64::MAX,
    ;
}

/// Running a clock to a time is running it for what is left until then:
/// the whole ticks in the time from the clock's own time to `nanos` are the
/// whole ticks in `nanos` less those that the clock has counted.
pub proof fn lemma_run_to_is_run_for_the_rest(period: Period, ticks: nat, nanos: nat)
    requires
        period.wf(),
        ticks * period.nanos() <= nanos * period.ticks(),
    ensures
        ticks <= period.ticks_in(nanos),
        (nanos * period.ticks() - ticks * period.nanos()) / period.nanos() as int
            == period.ticks_in(nanos) - ticks,
{
    let n = period.nanos() as int;
    let x = nanos * period.ticks() as int;
    let q = x / n;
    let r = x % n;
    vstd::arithmetic::div_mod::lemma_fundamental_div_mod(x, n);
    vstd::arithmetic::div_mod::lemma_mod_bound(x, n);
    assert(ticks <= q) by (nonlinear_arith)
        requires
            ticks * n <= x,
            x == n * q + r,
            0 <= r < n,
    ;
    assert(x - ticks * n == (q - ticks) * n + r) by (nonlinear_arith)
        requires
            x == n * q + r,
    ;
    vstd::arithmetic::div_mod::lemma_fundamental_div_mod_converse(x - ticks * n, n, q - ticks, r);
}

/// What one more makes of a quotient and a remainder.
proof fn lemma_div_mod_step(n: nat, d: nat)
    requires
        d > 0,
    ensures
        n % d == d - 1 ==> (n + 1) % d == 0 && (n + 1) / d == n / d + 1,
        n % d != d - 1 ==> (n + 1) % d == n % d + 1 && (n + 1) / d == n / d,
{
    let q = n as int / d as int;
    let r = n as int % d as int;
    vstd::arithmetic::div_mod::lemma_fundamental_div_mod(n as int, d as int);
    vstd::arithmetic::div_mod::lemma_mod_bound(n as int, d as int);
    if r == d - 1 {
        assert(n + 1 == (q + 1) * d + 0) by (nonlinear_arith)
            requires
                n == d * q + r,
                r == d - 1,
        ;
        vstd::arithmetic::div_mod::lemma_fundamental_div_mod_converse(
            (n + 1) as int,
            d as int,
            q + 1,
            0,
        );
    } else {
        assert(n + 1 == q * d + (r + 1)) by (nonlinear_arith)
            requires
                n == d * q + r,
        ;
        vstd::arithmetic::div_mod::lemma_fundamental_div_mod_converse(
            (n + 1) as int,
            d as int,
            q,
            r + 1,
        );
    }
}

/// A divider whose component takes the same number of cycles at every step
/// has it step once in every `ratio * cycles` ticks, for good.
///
/// Counted from a countdown that was just seeded: after `n` ticks there
/// were `n / every` steps, the countdown stands at `every - n % every`, and
/// the next tick brings a step exactly where it is a multiple of `every`.
pub proof fn lemma_steady_divider_steps_evenly(ratio: u64, cycles: u64, n: nat)
    requires
        ratio * cycles >= 1,
    ensures
        ({
            let every = Divider::seed(ratio, cycles);
            &&& Divider::after_ticks(ratio, cycles, every, n) == every - n % every
            &&& Divider::steps_within(ratio, cycles, every, n) == n / every
            &&& Divider::is_due(Divider::after_ticks(ratio, cycles, every, n)) <==> (n + 1)
                % every == 0
        }),
    decreases n,
{
    let every = Divider::seed(ratio, cycles);
    lemma_div_mod_step(n, every);
    if n == 0 {
        vstd::arithmetic::div_mod::lemma_small_mod(0, every);
        vstd::arithmetic::div_mod::lemma_div_basics(every as int);
    } else {
        let earlier = (n - 1) as nat;
        lemma_steady_divider_steps_evenly(ratio, cycles, earlier);
        lemma_div_mod_step(earlier, every);
    }
}

/// On a clock with one divider whose component takes `cycles` cycles at
/// every step, a run of `n` ticks leaves the countdown that `n` ticks of
/// the divider alone leave, and asks for as many steps as fall within them.
pub proof fn lemma_steady_component_replay(
    ratio: u64,
    cycles: u64,
    remaining: u128,
    outcomes: Seq<Outcome>,
    n: nat,
)
    requires
        forall|i: int|
            0 <= i < Divider::steps_within(ratio, cycles, remaining as nat, n) ==> outcomes[i]
                == Outcome::Ran(Ok(cycles)),
    ensures
        ({
            let end = Clock::replay(seq![ratio], seq![remaining], outcomes, n);
            &&& end.failure is None
            &&& end.used == Divider::steps_within(ratio, cycles, remaining as nat, n)
            &&& end.remaining.len() == 1
            &&& end.remaining[0] == Divider::after_ticks(ratio, cycles, remaining as nat, n)
        }),
    decreases n,
{
    if n > 0 {
        lemma_steady_component_replay(ratio, cycles, remaining, outcomes, (n - 1) as nat);
        assert(ratio * cycles <= u128::MAX) by (nonlinear_arith)
            requires
                ratio <= u64::MAX,
                cycles <= u64::MAX,
        ;
    }
}

/// A divider whose component takes the same number of cycles at every step
/// and whose countdown stands at `remaining`, at least one, has it step for
/// the first time on tick number `remaining`, and from then on once in every
/// `ratio * cycles` ticks.
///
/// After `n` ticks there were no steps below `remaining` and
/// `1 + (n - remaining) / every` from there on, and the next tick brings a
/// step exactly where its number is `remaining` plus a multiple of `every`.
pub proof fn lemma_seeded_divider_steps_evenly(ratio: u64, cycles: u64, remaining: nat, n: nat)
    requires
        ratio * cycles >= 1,
        remaining >= 1,
    ensures
        ({
            let every = Divider::seed(ratio, cycles);
            let after = Divider::after_ticks(ratio, cycles, remaining, n);
            let steps = Divider::steps_within(ratio, cycles, remaining, n);
            &&& n < remaining ==> after == remaining - n && steps == 0
            &&& n >= remaining ==> after == every - (n - remaining) % every as int && steps == 1 + (
            n - remaining) / every as int
            &&& Divider::is_due(after) <==> n + 1 >= remaining && (n + 1 - remaining) % every as int
                == 0
        }),
    decreases n,
{
    let every = Divider::seed(ratio, cycles);
    vstd::arithmetic::div_mod::lemma_small_mod(0, every);
    vstd::arithmetic::div_mod::lemma_div_basics(every as int);
    if n > 0 {
        lemma_seeded_divider_steps_evenly(ratio, cycles, remaining, (n - 1) as nat);
        if n > remaining {
            lemma_div_mod_step((n - 1 - remaining) as nat, every);
        }
    }
    if n >= remaining {
        lemma_div_mod_step((n - remaining) as nat, every);
    }
}

/// The same as [`lemma_steady_component_replay`], asked of the outcomes that
/// the run read.
proof fn lemma_steady_outcomes_replay(
    ratio: u64,
    cycles: u64,
    remaining: u128,
    outcomes: Seq<Outcome>,
    n: nat,
)
    requires
        forall|i: int|
            0 <= i < Clock::replay(seq![ratio], seq![remaining], outcomes, n).used ==> outcomes[i]
                == Outcome::Ran(Ok(cycles)),
    ensures
        ({
            let end = Clock::replay(seq![ratio], seq![remaining], outcomes, n);
            &&& end.failure is None
            &&& end.used == Divider::steps_within(ratio, cycles, remaining as nat, n)
            &&& end.remaining.len() == 1
            &&& end.remaining[0] == Divider::after_ticks(ratio, cycles, remaining as nat, n)
        }),
    decreases n,
{
    if n > 0 {
        let before = Clock::replay(seq![ratio], seq![remaining], outcomes, (n - 1) as nat);
        assert(before.used <= Clock::replay(seq![ratio], seq![remaining], outcomes, n).used);
        lemma_steady_outcomes_replay(ratio, cycles, remaining, outcomes, (n - 1) as nat);
        assert(ratio * cycles <= u128::MAX) by (nonlinear_arith)
            requires
                ratio <= u64::MAX,
                cycles <= u64::MAX,
        ;
    }
}

/// A clock with one divider, whose component took `cycles` cycles at every
/// step that it was asked for, has got through its ticks: the call
/// succeeded, the steps were those that fall within the ticks, and the
/// countdown is what that many ticks of the divider alone leave.
pub proof fn lemma_steady_clock_ticks(
    before: Clock,
    count: nat,
    outcomes: Seq<Outcome>,
    after: Clock,
    result: Result<(), ExecutionError>,
    cycles: u64,
)
    requires
        before.dividers().len() == 1,
        before.replayed(count, outcomes, &after, result),
        forall|i: int| 0 <= i < outcomes.len() ==> outcomes[i] == Outcome::Ran(Ok(cycles)),
    ensures
        result is Ok,
        outcomes.len() == Divider::steps_within(
            before.dividers()[0].ratio(),
            cycles,
            before.dividers()[0].remaining() as nat,
            count,
        ),
        after.countdowns().len() == 1,
        after.countdowns()[0] == Divider::after_ticks(
            before.dividers()[0].ratio(),
            cycles,
            before.dividers()[0].remaining() as nat,
            count,
        ),
{
    let ratio = before.dividers()[0].ratio();
    let remaining = before.dividers()[0].remaining();
    assert(before.ratios() =~= seq![ratio]);
    assert(before.countdowns() =~= seq![remaining]);
    assert(count * before.dividers().len() == count) by (nonlinear_arith)
        requires
            before.dividers().len() == 1,
    ;
    lemma_steady_outcomes_replay(ratio, cycles, remaining, outcomes, count);
}

} // verus!
