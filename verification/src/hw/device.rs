use vstd::prelude::*;
use std::time::Duration;
use std::time::Instant;
use crate::hw::clock::Clock;
use crate::hw::component::ExecutionError;

verus! {

/// A moment on the clock of the machine, `std::time::Instant`. It is known
/// by its name alone: nothing is claimed of when it was.
#[verifier::external_type_specification]
#[verifier::external_body]
pub struct ExInstant(Instant);

/// Reads the clock of the machine with `Instant::now`. Nothing is claimed
/// of the moment that comes back.
#[verifier::external_body]
fn now() -> Instant {
    Instant::now()
}

/// The time that has passed since `start` by the clock of the machine, as
/// `Instant::elapsed` reads it. Nothing is claimed of its length.
#[verifier::external_body]
fn elapsed_since(start: &Instant) -> Duration {
    start.elapsed()
}

/// The whole nanoseconds of `span`, from `Duration::as_nanos`. Nothing is
/// claimed of their number.
#[verifier::external_body]
fn whole_nanos(span: &Duration) -> u128 {
    span.as_nanos()
}

/// The time that a device has been active, told apart into the intervals
/// that are over and the one that is under way.
pub struct Watch {
    /// The nanoseconds of the active intervals that are over.
    pub prior: nat,
    /// The nanoseconds that the current interval has lasted, if there is one.
    pub active: Option<nat>,
}

/// What can happen to the time of a device.
pub enum Event {
    /// The device is paused.
    Pause,
    /// The device is resumed.
    Resume,
    /// This many nanoseconds go by.
    Wait(nat),
}

impl Watch {
    /// All the time that the device has been active.
    pub open spec fn total(self) -> nat {
        self.prior + match self.active {
            Some(active) => active,
            None => 0,
        }
    }

    /// The current interval, if there is one, is over and counted.
    pub open spec fn paused(self) -> Watch {
        Watch { prior: self.total(), active: None }
    }

    /// An interval is under way: the current one, or else a new one.
    pub open spec fn resumed(self) -> Watch {
        match self.active {
            Some(_) => self,
            None => Watch { prior: self.prior, active: Some(0) },
        }
    }

    /// The current interval, if there is one, has lasted `nanos` longer.
    pub open spec fn waited(self, nanos: nat) -> Watch {
        match self.active {
            Some(active) => Watch { prior: self.prior, active: Some(active + nanos) },
            None => self,
        }
    }

    /// The time after `event`.
    pub open spec fn after(self, event: Event) -> Watch {
        match event {
            Event::Pause => self.paused(),
            Event::Resume => self.resumed(),
            Event::Wait(nanos) => self.waited(nanos),
        }
    }

    /// The time after all of `events`, the first of them first.
    pub open spec fn after_all(self, events: Seq<Event>) -> Watch
        decreases events.len(),
    {
        if events.len() == 0 {
            self
        } else {
            self.after_all(events.drop_last()).after(events.last())
        }
    }
}

/// Whatever is done to a device, and in whatever order, the time that it
/// has been active never goes back.
pub proof fn lemma_total_elapsed_never_decreases(watch: Watch, events: Seq<Event>)
    ensures
        watch.total() <= watch.after_all(events).total(),
    decreases events.len(),
{
    if events.len() > 0 {
        lemma_total_elapsed_never_decreases(watch, events.drop_last());
    }
}

/// Only waiting while active adds to the time: a pause and a resume leave the
/// total as it is, one after the other too.
pub proof fn lemma_pause_and_resume_keep_the_total(watch: Watch)
    ensures
        watch.paused().total() == watch.total(),
        watch.resumed().total() == watch.total(),
        watch.paused().resumed().total() == watch.total(),
        watch.paused().paused() == watch.paused(),
        watch.resumed().resumed() == watch.resumed(),
{
}

/// To a device, a wait is a later reading of its current interval.
pub proof fn lemma_waiting_is_a_later_reading(device: Device, active: nat, nanos: nat)
    ensures
        device.watch_at(active + nanos) == device.watch_at(active).waited(nanos),
        device.watch_at(active).total() <= device.watch_at(active + nanos).total(),
{
}

/// The clocks of one machine, run by the time that the machine has been
/// active.
pub struct Device {
    clocks: Vec<Clock>,
    prior_elapsed: u64,
    current_start: Option<Instant>,
}

impl Device {
    /// The clocks, in the order in which they were attached.
    pub closed spec fn clocks(&self) -> Seq<Clock> {
        self.clocks@
    }

    /// The nanoseconds of the active intervals that are over.
    pub closed spec fn prior_elapsed(&self) -> u64 {
        self.prior_elapsed
    }

    /// Whether no interval is under way.
    pub closed spec fn spec_is_paused(&self) -> bool {
        self.current_start is None
    }

    /// The time of the device at a moment when the current interval, if
    /// there is one, has lasted `active` nanoseconds.
    pub open spec fn watch_at(&self, active: nat) -> Watch {
        Watch {
            prior: self.prior_elapsed() as nat,
            active: if self.is_paused() {
                None
            } else {
                Some(active)
            },
        }
    }

    /// What a run up to the time `nanos` that stopped at the clock
    /// `stopped` and came to `result` makes of the clocks `before`: those
    /// ahead of it have run there, it has itself failed on the way, which is
    /// how the run ended, and those behind it were not touched. A run that
    /// stopped at no clock stopped at their number.
    pub open spec fn clocks_ran_until(
        before: Seq<Clock>,
        nanos: nat,
        after: Seq<Clock>,
        stopped: int,
        result: Result<(), ExecutionError>,
    ) -> bool {
        &&& 0 <= stopped <= before.len() == after.len()
        &&& result is Ok <==> stopped == before.len()
        &&& forall|i: int|
            0 <= i < before.len() ==> if i < stopped {
                (#[trigger] before[i]).tick_outcome(before[i].ticks_to(nanos), &after[i], Ok(()))
            } else if i == stopped {
                before[i].tick_outcome(before[i].ticks_to(nanos), &after[i], result)
            } else {
                after[i] == before[i]
            }
    }

    /// What is known of the clocks `after` they were run up to the time
    /// `nanos`, which came to `result`: they were run there one after the
    /// other until one failed, or else all of them. So after a success all
    /// of them have run there, and success is certain where no component is
    /// due on the way.
    pub open spec fn clocks_ran_to(
        before: Seq<Clock>,
        nanos: nat,
        after: Seq<Clock>,
        result: Result<(), ExecutionError>,
    ) -> bool {
        &&& exists|stopped: int| #[trigger]
            Self::clocks_ran_until(before, nanos, after, stopped, result)
        &&& result is Ok ==> forall|i: int|
            #![trigger before[i]]
            #![trigger after[i]]
            0 <= i < before.len() ==> before[i].tick_outcome(
                before[i].ticks_to(nanos),
                &after[i],
                Ok(()),
            )
        &&& (forall|i: int|
            0 <= i < before.len() ==> (#[trigger] before[i]).quiet_for(before[i].ticks_to(nanos)))
            ==> result is Ok
    }

    /// What is known of a device `after` it was run up to the time `nanos`,
    /// which came to `result`: of its clocks what a run makes known, and
    /// that the time of the device itself is as before.
    pub open spec fn ran_to(
        &self,
        nanos: nat,
        after: &Device,
        result: Result<(), ExecutionError>,
    ) -> bool {
        &&& after.prior_elapsed() == self.prior_elapsed()
        &&& after.is_paused() == self.is_paused()
        &&& Self::clocks_ran_to(self.clocks(), nanos, after.clocks(), result)
    }

    /// A device without clocks that was never active.
    pub fn new() -> (r: Self)
        ensures
            r.clocks() == Seq::<Clock>::empty(),
            r.prior_elapsed() == 0,
            r.is_paused(),
    {
        Self { clocks: Vec::new(), prior_elapsed: 0, current_start: None }
    }

    /// Adds a clock behind those that the device has. This is for a device
    /// that has not run yet.
    pub fn attach(&mut self, clock: Clock)
        requires
            old(self).is_paused(),
            old(self).prior_elapsed() == 0,
        ensures
            final(self).clocks() == old(self).clocks().push(clock),
            final(self).prior_elapsed() == 0,
            final(self).is_paused(),
    {
        self.clocks.push(clock);
    }

    /// Whether no interval is under way.
    #[verifier::when_used_as_spec(spec_is_paused)]
    pub fn is_paused(&self) -> (r: bool)
        ensures
            r == self.spec_is_paused(),
    {
        self.current_start.is_none()
    }

    /// As much of a reading of `reading` nanoseconds for the current
    /// interval as the count of all the active time can hold.
    pub open spec fn spec_counted_nanos(&self, reading: u128) -> u64 {
        if reading <= u64::MAX - self.prior_elapsed() {
            reading as u64
        } else {
            (u64::MAX - self.prior_elapsed()) as u64
        }
    }

    /// As much of a reading of `reading` nanoseconds for the current
    /// interval as the count of all the active time can hold.
    #[verifier::when_used_as_spec(spec_counted_nanos)]
    pub fn counted_nanos(&self, reading: u128) -> (r: u64)
        ensures
            r == self.spec_counted_nanos(reading),
            self.prior_elapsed() + r <= u64::MAX,
    {
        let most = u64::MAX - self.prior_elapsed;
        if reading > most as u128 {
            most
        } else {
            reading as u64
        }
    }

    /// The nanoseconds that the current interval has lasted by the clock of
    /// the machine: none if the device is paused, and no more than the count
    /// of all the active time can hold.
    pub fn active_nanos(&self) -> (r: u64)
        ensures
            self.watch_at(r as nat).total() <= u64::MAX,
            self.is_paused() ==> r == 0,
            !self.is_paused() ==> exists|reading: u128| r == #[trigger] self.counted_nanos(reading),
    {
        match &self.current_start {
            Some(start) => {
                let span = elapsed_since(start);
                let reading = whole_nanos(&span);
                self.counted_nanos(reading)
            },
            None => 0,
        }
    }

    /// Pauses the device at a moment when the current interval, if there is
    /// one, has lasted `active` nanoseconds: the interval is over and
    /// counted.
    pub fn pause_at(&mut self, active: u64)
        requires
            old(self).watch_at(active as nat).total() <= u64::MAX,
        ensures
            final(self).is_paused(),
            final(self).watch_at(0) == old(self).watch_at(active as nat).paused(),
            final(self).clocks() == old(self).clocks(),
    {
        if self.current_start.is_some() {
            self.current_start = None;
            self.prior_elapsed = self.prior_elapsed + active;
        }
    }

    /// Pauses the device: the current interval, if there is one, is over,
    /// and as much of it is counted as the clock of the machine says, and as
    /// the count can hold.
    pub fn pause(&mut self)
        ensures
            final(self).is_paused(),
            final(self).clocks() == old(self).clocks(),
            exists|active: u64|
                final(self).watch_at(0) == (#[trigger] old(self).watch_at(active as nat)).paused(),
    {
        let active = self.active_nanos();
        self.pause_at(active);
    }

    /// Resumes the device: if it is paused, an interval begins now.
    pub fn resume(&mut self)
        ensures
            !final(self).is_paused(),
            final(self).watch_at(0) == old(self).watch_at(0).resumed(),
            final(self).clocks() == old(self).clocks(),
            !old(self).is_paused() ==> *final(self) == *old(self),
    {
        if self.is_paused() {
            self.current_start = Some(now());
        }
    }

    /// The time that the device has been active, at a moment when the
    /// current interval, if there is one, has lasted `active` nanoseconds.
    pub fn total_elapsed_at(&self, active: u64) -> (r: u64)
        requires
            self.watch_at(active as nat).total() <= u64::MAX,
        ensures
            r == self.watch_at(active as nat).total(),
    {
        if self.current_start.is_some() {
            self.prior_elapsed + active
        } else {
            self.prior_elapsed
        }
    }

    /// The time that the device has been active, by the clock of the
    /// machine.
    pub fn total_elapsed(&self) -> (r: u64)
        ensures
            exists|active: u64| r == (#[trigger] self.watch_at(active as nat)).total(),
    {
        let active = self.active_nanos();
        self.total_elapsed_at(active)
    }

    /// Runs every clock up to the time that the device has been active, at a
    /// moment when the current interval, if there is one, has lasted
    /// `active` nanoseconds.
    ///
    /// The clocks run one after the other, in the order in which they were
    /// attached. The first that fails ends the run with its error, and the
    /// clocks behind it stay where they are.
    pub fn run_at(&mut self, active: u64) -> (r: Result<(), ExecutionError>)
        requires
            old(self).watch_at(active as nat).total() <= u64::MAX,
        ensures
            old(self).ran_to(old(self).watch_at(active as nat).total(), final(self), r),
    {
        let total_elapsed = self.total_elapsed_at(active);
        let len = self.clocks.len();
        let mut at: usize = 0;
        while at < len
            invariant
                at <= len == self.clocks@.len() == old(self).clocks@.len(),
                total_elapsed == old(self).watch_at(active as nat).total(),
                self.prior_elapsed == old(self).prior_elapsed,
                self.current_start == old(self).current_start,
                forall|i: int|
                    0 <= i < len ==> if i < at {
                        (#[trigger] old(self).clocks@[i]).tick_outcome(
                            old(self).clocks@[i].ticks_to(total_elapsed as nat),
                            &self.clocks@[i],
                            Ok(()),
                        )
                    } else {
                        self.clocks@[i] == old(self).clocks@[i]
                    },
            decreases len - at,
        {
            match self.clocks[at].run_to(total_elapsed) {
                Ok(_) => {},
                Err(e) => {
                    assert(!old(self).clocks@[at as int].quiet_for(
                        old(self).clocks@[at as int].ticks_to(total_elapsed as nat),
                    ));
                    assert(Self::clocks_ran_until(
                        old(self).clocks@,
                        total_elapsed as nat,
                        self.clocks@,
                        at as int,
                        Err(e),
                    ));
                    return Err(e);
                },
            }
            at += 1;
        }
        assert(Self::clocks_ran_until(
            old(self).clocks@,
            total_elapsed as nat,
            self.clocks@,
            len as int,
            Ok(()),
        ));
        Ok(())
    }

    /// Runs every clock up to the time that the device has been active by
    /// the clock of the machine.
    pub fn run(&mut self) -> (r: Result<(), ExecutionError>)
        ensures
            exists|active: u64|
                old(self).ran_to(
                    (#[trigger] old(self).watch_at(active as nat)).total(),
                    final(self),
                    r,
                ),
    {
        let active = self.active_nanos();
        self.run_at(active)
    }
}

} // verus!
