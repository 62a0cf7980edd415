use std::sync::Arc;
use std::sync::RwLock;

use ners::hw::clock::Clock;
use ners::hw::clock::Divider;
use ners::hw::clock::Period;
use ners::hw::clock::Span;
use ners::hw::component::Component;
use ners::hw::component::ComponentRef;
use ners::hw::component::ExecutionError;
use ners::hw::component::Outcome;

/// Takes the same number of cycles at every step and counts its steps.
struct Steady {
    cycles: u64,
    steps: u64,
}

impl Component for Steady {
    fn step(&mut self) -> Result<u64, ExecutionError> {
        self.steps += 1;
        Ok(self.cycles)
    }
}

/// Works for a number of steps and fails from then on.
struct Failing {
    good_steps: u64,
    steps: u64,
}

impl Component for Failing {
    fn step(&mut self) -> Result<u64, ExecutionError> {
        self.steps += 1;
        if self.steps > self.good_steps {
            Err(ExecutionError::Failed(format!("gave up at step {}", self.steps)))
        } else {
            Ok(1)
        }
    }
}

/// Writes its name into a log that it shares with others.
struct Named {
    name: char,
    log: Arc<RwLock<Vec<char>>>,
}

impl Component for Named {
    fn step(&mut self) -> Result<u64, ExecutionError> {
        self.log.write().unwrap().push(self.name);
        Ok(1)
    }
}

fn steady(cycles: u64) -> Arc<RwLock<Steady>> {
    Arc::new(RwLock::new(Steady { cycles, steps: 0 }))
}

fn unit_clock() -> Clock {
    Clock::new(Period::new(1, 1).unwrap())
}

fn master_clock() -> Clock {
    Clock::new(Period::new(8800, 189).unwrap())
}

#[test]
fn period_needs_a_tick_and_a_nanosecond_for_each() {
    assert!(Period::new(1, 1).is_some());
    assert!(Period::new(8800, 189).is_some());
    assert!(Period::new(u64::MAX, u64::MAX).is_some());
    assert!(Period::new(u64::MAX, 1).is_some());
    assert!(Period::new(1, 0).is_none());
    assert!(Period::new(0, 0).is_none());
    assert!(Period::new(0, 1).is_none());
    assert!(Period::new(188, 189).is_none());
    let period = Period::new(8800, 189).unwrap();
    assert_eq!(period.nanos(), 8800);
    assert_eq!(period.ticks(), 189);
}

#[test]
fn whole_ticks_round_down() {
    let period = Period::new(8800, 189).unwrap();
    assert_eq!(period.whole_ticks(0), 0);
    assert_eq!(period.whole_ticks(46), 0);
    assert_eq!(period.whole_ticks(47), 1);
    assert_eq!(period.whole_ticks(8799), 188);
    assert_eq!(period.whole_ticks(8800), 189);
    assert_eq!(period.whole_ticks(1_000_000_000), 21_477_272);
    assert_eq!(period.whole_ticks(u64::MAX), 396_185_753_401_261_960);
    let unit = Period::new(1, 1).unwrap();
    assert_eq!(unit.whole_ticks(u64::MAX), u64::MAX);
    let slow = Period::new(u64::MAX, 1).unwrap();
    assert_eq!(slow.whole_ticks(u64::MAX - 1), 0);
    assert_eq!(slow.whole_ticks(u64::MAX), 1);
}

#[test]
fn new_clock_is_at_time_zero() {
    let clock = master_clock();
    assert_eq!(clock.elapsed(), Span { nanos: 0, per: 189 });
    assert_eq!(clock.period(), Period::new(8800, 189).unwrap());
}

#[test]
fn ticks_add_up() {
    for (n, m) in [(0u64, 0u64), (0, 5), (5, 0), (1, 1), (17, 4), (1000, 2345)] {
        let mut split = master_clock();
        split.link(3, ComponentRef::new(steady(2)));
        split.tick(n).unwrap();
        split.tick(m).unwrap();
        let mut whole = master_clock();
        whole.link(3, ComponentRef::new(steady(2)));
        whole.tick(n + m).unwrap();
        assert_eq!(split.elapsed(), whole.elapsed());
        assert_eq!(whole.elapsed(), Span { nanos: (n + m) as u128 * 8800, per: 189 });
    }
}

#[test]
fn elapsed_is_the_period_times_the_ticks() {
    let mut clock = master_clock();
    clock.tick(189).unwrap();
    assert_eq!(clock.elapsed(), Span { nanos: 189 * 8800, per: 189 });
    assert_eq!(clock.elapsed().whole_nanos(), 8800);
    clock.tick(1).unwrap();
    assert_eq!(clock.elapsed().whole_nanos(), 8846);
    let mut far = Clock::new(Period::new(u64::MAX, 1).unwrap());
    far.tick(u64::MAX).unwrap();
    assert_eq!(far.elapsed().nanos, u64::MAX as u128 * u64::MAX as u128);
}

#[test]
fn run_for_issues_the_whole_ticks_of_the_duration() {
    for nanos in [0u64, 1, 46, 47, 93, 94, 8800, 1_000_000, 16_666_667] {
        let mut clock = master_clock();
        let ticks = clock.run_for(nanos).unwrap();
        assert_eq!(ticks as u128, nanos as u128 * 189 / 8800);
        assert_eq!(clock.elapsed(), Span { nanos: ticks as u128 * 8800, per: 189 });
        assert!(clock.elapsed().nanos <= nanos as u128 * 189);
        assert!(nanos as u128 * 189 < clock.elapsed().nanos + 8800);
    }
}

#[test]
fn run_for_adds_to_the_time() {
    let mut clock = master_clock();
    assert_eq!(clock.run_for(100), Ok(2));
    assert_eq!(clock.run_for(100), Ok(2));
    assert_eq!(clock.elapsed(), Span { nanos: 4 * 8800, per: 189 });
}

#[test]
fn run_to_covers_what_is_left() {
    let mut clock = master_clock();
    assert_eq!(clock.run_to(100), Ok(2));
    assert_eq!(clock.run_to(100), Ok(0));
    assert_eq!(clock.run_to(200), Ok(2));
    assert_eq!(clock.run_to(8800), Ok(185));
    assert_eq!(clock.elapsed(), Span { nanos: 189 * 8800, per: 189 });
}

#[test]
fn run_to_an_earlier_time_does_nothing() {
    let steps = steady(1);
    let mut clock = unit_clock();
    clock.link(1, ComponentRef::new(steps.clone()));
    clock.tick(10).unwrap();
    assert_eq!(steps.read().unwrap().steps, 10);
    assert_eq!(clock.run_to(4), Ok(0));
    assert_eq!(clock.run_to(0), Ok(0));
    assert_eq!(clock.elapsed(), Span { nanos: 10, per: 1 });
    assert_eq!(steps.read().unwrap().steps, 10);
}

#[test]
fn new_divider_steps_on_the_first_tick() {
    let steps = steady(5);
    let mut clock = unit_clock();
    clock.link(2, ComponentRef::new(steps.clone()));
    assert_eq!(steps.read().unwrap().steps, 0);
    clock.tick(0).unwrap();
    assert_eq!(steps.read().unwrap().steps, 0);
    clock.tick(1).unwrap();
    assert_eq!(steps.read().unwrap().steps, 1);
}

#[test]
fn steady_component_steps_once_in_ratio_times_cycles_ticks() {
    for (ratio, cycles) in [(1u64, 1u64), (3, 2), (12, 1), (1, 7), (4, 4)] {
        let every = ratio * cycles;
        let steps = steady(cycles);
        let mut clock = unit_clock();
        clock.link(ratio, ComponentRef::new(steps.clone()));
        clock.tick(1).unwrap();
        assert_eq!(steps.read().unwrap().steps, 1);
        for n in 1..=5 * every {
            clock.tick(1).unwrap();
            assert_eq!(steps.read().unwrap().steps, 1 + n / every);
        }
        clock.tick(100 * every).unwrap();
        assert_eq!(steps.read().unwrap().steps, 1 + 5 + 100);
    }
}

#[test]
fn step_that_takes_no_cycles_is_due_again_at_once() {
    let steps = steady(0);
    let mut clock = unit_clock();
    clock.link(12, ComponentRef::new(steps.clone()));
    clock.tick(9).unwrap();
    assert_eq!(steps.read().unwrap().steps, 9);
}

#[test]
fn dividers_of_one_clock_keep_their_own_rates() {
    let fast = steady(1);
    let slow = steady(4);
    let mut clock = master_clock();
    clock.link(4, ComponentRef::new(fast.clone()));
    clock.link(3, ComponentRef::new(slow.clone()));
    clock.tick(1 + 120).unwrap();
    assert_eq!(fast.read().unwrap().steps, 1 + 30);
    assert_eq!(slow.read().unwrap().steps, 1 + 10);
}

#[test]
fn dividers_step_in_the_order_of_linking() {
    let log = Arc::new(RwLock::new(Vec::new()));
    let mut clock = unit_clock();
    for name in ['a', 'b', 'c'] {
        clock.link(1, ComponentRef::new(Arc::new(RwLock::new(Named { name, log: log.clone() }))));
    }
    clock.tick(2).unwrap();
    assert_eq!(*log.read().unwrap(), vec!['a', 'b', 'c', 'a', 'b', 'c']);
}

#[test]
fn failed_step_ends_the_tick_and_keeps_what_was_done() {
    let before = steady(1);
    let failing = Arc::new(RwLock::new(Failing { good_steps: 2, steps: 0 }));
    let behind = steady(1);
    let mut clock = master_clock();
    clock.link(1, ComponentRef::new(before.clone()));
    clock.link(1, ComponentRef::new(failing.clone()));
    clock.link(1, ComponentRef::new(behind.clone()));
    assert_eq!(
        clock.tick(10),
        Err(ExecutionError::Failed("gave up at step 3".to_string()))
    );
    assert_eq!(before.read().unwrap().steps, 3);
    assert_eq!(failing.read().unwrap().steps, 3);
    assert_eq!(behind.read().unwrap().steps, 2);
    assert_eq!(clock.elapsed(), Span { nanos: 10 * 8800, per: 189 });
}

#[test]
fn failed_component_is_due_again_on_the_next_tick() {
    let failing = Arc::new(RwLock::new(Failing { good_steps: 0, steps: 0 }));
    let mut clock = unit_clock();
    clock.link(5, ComponentRef::new(failing.clone()));
    assert!(clock.tick(1).is_err());
    assert!(clock.tick(1).is_err());
    assert_eq!(failing.read().unwrap().steps, 2);
    assert!(clock.run_for(3).is_err());
    assert!(clock.run_to(100).is_err());
    assert_eq!(failing.read().unwrap().steps, 4);
    assert_eq!(clock.elapsed(), Span { nanos: 100, per: 1 });
}

#[test]
fn clock_without_dividers_only_counts() {
    let mut clock = master_clock();
    assert_eq!(clock.tick(1_000_000), Ok(()));
    assert_eq!(clock.elapsed(), Span { nanos: 8_800_000_000, per: 189 });
}

#[test]
fn divider_counts_down_to_its_component() {
    let steps = steady(2);
    let mut divider = Divider::new(3, ComponentRef::new(steps.clone()));
    assert_eq!(divider.tick(), Ok(true));
    for _ in 0..5 {
        assert_eq!(divider.tick(), Ok(false));
    }
    assert_eq!(divider.tick(), Ok(true));
    assert_eq!(steps.read().unwrap().steps, 2);
}

#[test]
fn divider_settles_by_what_the_step_came_to() {
    let mut divider = Divider::new(3, ComponentRef::new(steady(1)));
    assert_eq!(divider.settle(Outcome::Poisoned), Err(ExecutionError::Poisoned));
    assert_eq!(divider.settle(Outcome::Busy), Err(ExecutionError::Busy));
    assert_eq!(
        divider.settle(Outcome::Ran(Err(ExecutionError::Failed("no".to_string())))),
        Err(ExecutionError::Failed("no".to_string()))
    );
    assert!(divider.count_down());
    assert_eq!(divider.settle(Outcome::Ran(Ok(2))), Ok(()));
    assert!(!divider.count_down());
    assert!(!divider.count_down());
    assert!(!divider.count_down());
    assert!(!divider.count_down());
    assert!(!divider.count_down());
    assert!(divider.count_down());
    assert!(divider.count_down());
    assert_eq!(divider.settle(Outcome::Ran(Ok(u64::MAX))), Ok(()));
    assert!(!divider.count_down());
}

#[test]
fn span_drops_what_is_left_over() {
    assert_eq!(Span { nanos: 17, per: 5 }.whole_nanos(), 3);
    assert_eq!(Span { nanos: 0, per: 5 }.whole_nanos(), 0);
    assert_eq!(Span { nanos: u128::MAX, per: 1 }.whole_nanos(), u128::MAX);
}

#[test]
fn held_lock_ends_the_tick_without_waiting() {
    let steps = steady(3);
    let mut clock = unit_clock();
    clock.link(1, ComponentRef::new(steps.clone()));
    {
        let reader = steps.read().unwrap();
        assert_eq!(clock.tick(2), Err(ExecutionError::Busy));
        assert_eq!(reader.steps, 0);
    }
    {
        let writer = steps.write().unwrap();
        assert_eq!(clock.tick(1), Err(ExecutionError::Busy));
        assert_eq!(writer.steps, 0);
    }
    assert_eq!(clock.elapsed(), Span { nanos: 3, per: 1 });
    assert_eq!(clock.tick(1), Ok(()));
    assert_eq!(steps.read().unwrap().steps, 1);
    assert_eq!(clock.tick(3), Ok(()));
    assert_eq!(steps.read().unwrap().steps, 2);
}

#[test]
fn held_lock_fails_the_divider_and_leaves_it_due() {
    let steps = steady(2);
    let mut divider = Divider::new(3, ComponentRef::new(steps.clone()));
    {
        let _reader = steps.read().unwrap();
        assert_eq!(divider.tick(), Err(ExecutionError::Busy));
        assert_eq!(divider.tick(), Err(ExecutionError::Busy));
    }
    assert_eq!(divider.tick(), Ok(true));
    assert_eq!(divider.tick(), Ok(false));
    assert_eq!(steps.read().unwrap().steps, 1);
}
