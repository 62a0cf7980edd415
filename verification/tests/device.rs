use std::sync::Arc;
use std::sync::RwLock;

use ners::hw::clock::Clock;
use ners::hw::clock::Period;
use ners::hw::component::Component;
use ners::hw::component::ComponentRef;
use ners::hw::component::ExecutionError;
use ners::hw::device::Device;
use ners::hw::nes::LoadOutcome;
use ners::hw::nes::Nes;
use ners::hw::nes::Progress;
use ners::rom::Cartridge;
use ners::rom::RomError;

/// Steps once in every tick and counts its steps.
struct Counter {
    steps: u64,
}

impl Component for Counter {
    fn step(&mut self) -> Result<u64, ExecutionError> {
        self.steps += 1;
        Ok(1)
    }
}

/// Fails at every step.
struct Broken;

impl Component for Broken {
    fn step(&mut self) -> Result<u64, ExecutionError> {
        Err(ExecutionError::Failed("broken".to_string()))
    }
}

fn counter() -> Arc<RwLock<Counter>> {
    Arc::new(RwLock::new(Counter { steps: 0 }))
}

/// A clock of the given period in nanoseconds that steps `component` on
/// every tick.
fn clock_with(nanos: u64, component: ComponentRef) -> Clock {
    let mut clock = Clock::new(Period::new(nanos, 1).unwrap());
    clock.link(1, component);
    clock
}

fn plain_image() -> Vec<u8> {
    let mut bytes = vec![b'N', b'E', b'S', 0x1a, 1, 1, 0, 0, 0, 0, 0, 0, 0, 0, 0, 0];
    bytes.resize(16 + 16384 + 8192, 0xea);
    bytes
}

#[test]
fn new_device_is_paused_at_time_zero() {
    let device = Device::new();
    assert!(device.is_paused());
    assert_eq!(device.total_elapsed(), 0);
    assert_eq!(device.total_elapsed_at(0), 0);
    assert_eq!(device.total_elapsed_at(12345), 0);
}

#[test]
fn time_is_counted_while_the_device_is_active() {
    let mut device = Device::new();
    device.resume();
    assert!(!device.is_paused());
    assert_eq!(device.total_elapsed_at(0), 0);
    assert_eq!(device.total_elapsed_at(700), 700);
    device.pause_at(700);
    assert!(device.is_paused());
    assert_eq!(device.total_elapsed_at(0), 700);
    assert_eq!(device.total_elapsed_at(1_000_000), 700);
    device.resume();
    assert_eq!(device.total_elapsed_at(0), 700);
    assert_eq!(device.total_elapsed_at(50), 750);
    device.pause_at(50);
    assert_eq!(device.total_elapsed_at(0), 750);
}

#[test]
fn pause_and_resume_do_nothing_twice() {
    let mut device = Device::new();
    device.pause_at(999);
    assert!(device.is_paused());
    assert_eq!(device.total_elapsed_at(0), 0);
    device.resume();
    device.resume();
    assert!(!device.is_paused());
    device.pause_at(10);
    device.pause_at(10);
    device.pause();
    assert!(device.is_paused());
    assert_eq!(device.total_elapsed_at(0), 10);
    assert_eq!(device.total_elapsed(), 10);
}

#[test]
fn total_elapsed_never_goes_back() {
    let mut device = Device::new();
    let mut last = device.total_elapsed_at(0);
    device.resume();
    for active in [0u64, 1, 1, 40, 1000] {
        let total = device.total_elapsed_at(active);
        assert!(total >= last);
        last = total;
    }
    device.pause_at(1000);
    assert_eq!(device.total_elapsed_at(0), last);
    device.resume();
    assert_eq!(device.total_elapsed_at(0), last);
    assert_eq!(device.total_elapsed_at(5), last + 5);
}

#[test]
fn total_elapsed_by_the_clock_of_the_machine_never_goes_back() {
    let mut device = Device::new();
    let mut last = device.total_elapsed();
    assert_eq!(last, 0);
    for _ in 0..3 {
        device.resume();
        for _ in 0..100 {
            let total = device.total_elapsed();
            assert!(total >= last);
            last = total;
        }
        device.pause();
        let paused = device.total_elapsed();
        assert!(paused >= last);
        assert_eq!(device.total_elapsed(), paused);
        last = paused;
    }
}

#[test]
fn pause_then_resume_at_once_changes_the_total_by_little() {
    let mut device = Device::new();
    device.resume();
    let before = device.total_elapsed();
    device.pause();
    device.resume();
    let after = device.total_elapsed();
    assert!(after >= before);
    assert!(after - before < 1_000_000_000);
}

#[test]
fn run_takes_every_clock_to_the_total() {
    let fast = counter();
    let slow = counter();
    let mut device = Device::new();
    device.attach(clock_with(10, ComponentRef::new(fast.clone())));
    device.attach(clock_with(25, ComponentRef::new(slow.clone())));
    assert_eq!(device.run_at(0), Ok(()));
    assert_eq!(fast.read().unwrap().steps, 0);
    device.resume();
    assert_eq!(device.run_at(100), Ok(()));
    assert_eq!(fast.read().unwrap().steps, 10);
    assert_eq!(slow.read().unwrap().steps, 4);
    assert_eq!(device.run_at(100), Ok(()));
    assert_eq!(fast.read().unwrap().steps, 10);
    assert_eq!(device.run_at(130), Ok(()));
    assert_eq!(fast.read().unwrap().steps, 13);
    assert_eq!(slow.read().unwrap().steps, 5);
    device.pause_at(130);
    assert_eq!(device.run_at(1000), Ok(()));
    assert_eq!(fast.read().unwrap().steps, 13);
    device.resume();
    assert_eq!(device.run_at(20), Ok(()));
    assert_eq!(fast.read().unwrap().steps, 15);
    assert_eq!(slow.read().unwrap().steps, 6);
}

#[test]
fn failed_clock_ends_the_run_before_the_clocks_behind_it() {
    let before = counter();
    let behind = counter();
    let mut device = Device::new();
    device.attach(clock_with(1, ComponentRef::new(before.clone())));
    device.attach(clock_with(1, ComponentRef::new(Arc::new(RwLock::new(Broken)))));
    device.attach(clock_with(1, ComponentRef::new(behind.clone())));
    device.resume();
    assert_eq!(device.run_at(7), Err(ExecutionError::Failed("broken".to_string())));
    assert_eq!(before.read().unwrap().steps, 7);
    assert_eq!(behind.read().unwrap().steps, 0);
    assert!(!device.is_paused());
    assert_eq!(device.total_elapsed_at(7), 7);
}

#[test]
fn run_by_the_clock_of_the_machine_goes_on() {
    let steps = counter();
    let mut device = Device::new();
    device.attach(clock_with(1000, ComponentRef::new(steps.clone())));
    assert_eq!(device.run(), Ok(()));
    assert_eq!(steps.read().unwrap().steps, 0);
    device.resume();
    let mut spins = 0u64;
    while device.total_elapsed() < 10_000 {
        spins += 1;
        assert!(spins < 1_000_000_000);
    }
    assert_eq!(device.run(), Ok(()));
    let first = steps.read().unwrap().steps;
    assert!(first >= 10);
    device.pause();
    let total = device.total_elapsed();
    assert_eq!(device.run(), Ok(()));
    assert_eq!(steps.read().unwrap().steps, total / 1000);
    assert_eq!(device.run(), Ok(()));
    assert_eq!(steps.read().unwrap().steps, total / 1000);
}

#[test]
fn new_console_is_paused_and_empty() {
    let console = Nes::new();
    assert!(console.is_paused());
    assert!(!console.is_cartridge_loaded());
    assert!(!console.is_running());
}

#[test]
fn console_runs_with_a_cartridge_and_unpaused() {
    let mut console = Nes::new();
    console.resume();
    assert!(!console.is_running());
    console.load_cartridge(Cartridge::from_rom(&plain_image()).unwrap());
    assert!(console.is_cartridge_loaded());
    assert!(console.is_running());
    console.pause();
    assert!(console.is_paused());
    assert!(!console.is_running());
    console.resume();
    assert!(console.is_running());
    let cartridge = console.eject_cartridge().unwrap();
    assert_eq!(cartridge.prg_rom().len(), 16384);
    assert!(!console.is_cartridge_loaded());
    assert!(!console.is_running());
    assert!(console.eject_cartridge().is_none());
}

#[test]
fn console_runs_its_master_clock() {
    let mut console = Nes::new();
    assert_eq!(console.run(), Ok(()));
    assert_eq!(console.run_at(0), Ok(()));
    console.resume();
    assert_eq!(console.run_at(16_666_667), Ok(()));
    assert_eq!(console.run(), Ok(()));
}

#[test]
fn loading_tells_cancelled_rejected_and_accepted_apart() {
    let mut console = Nes::new();
    assert_eq!(console.load_rom(None), LoadOutcome::Cancelled);
    assert!(!console.is_cartridge_loaded());
    assert_eq!(console.load_rom(Some(b"not a rom")), LoadOutcome::Rejected(RomError::BadMagic));
    assert!(!console.is_cartridge_loaded());
    assert_eq!(console.load_rom(Some(&plain_image())), LoadOutcome::Accepted);
    assert!(console.is_cartridge_loaded());
    let mut other = plain_image();
    other[6] = 0x04;
    assert_eq!(console.load_rom(Some(&other)), LoadOutcome::Rejected(RomError::Truncated));
    assert_eq!(console.load_rom(None), LoadOutcome::Cancelled);
    assert!(console.is_cartridge_loaded());
    assert_eq!(console.eject_cartridge().unwrap().chr_rom(), &plain_image()[16 + 16384..]);
}

#[test]
fn driving_task_leaves_a_console_alone_that_is_not_running() {
    let mut console = Nes::new();
    assert_eq!(console.advance_at(0), Progress::Idle);
    console.resume();
    assert_eq!(console.advance_at(500), Progress::Idle);
    console.pause();
    assert_eq!(console.load_rom(Some(&plain_image())), LoadOutcome::Accepted);
    assert_eq!(console.advance_at(0), Progress::Idle);
    console.resume();
    assert_eq!(console.advance_at(1000), Progress::Ran);
    assert!(console.is_running());
}

#[test]
fn driving_task_pauses_a_console_whose_component_fails() {
    let mut device = Device::new();
    device.attach(clock_with(1, ComponentRef::new(Arc::new(RwLock::new(Broken)))));
    device.resume();
    assert_eq!(device.run_at(3), Err(ExecutionError::Failed("broken".to_string())));
    device.pause_at(3);
    assert!(device.is_paused());
    assert_eq!(device.total_elapsed_at(0), 3);
    assert_eq!(device.active_nanos(), 0);
}

#[test]
fn driving_task_runs_a_console_by_the_clock_of_the_machine() {
    let mut console = Nes::new();
    assert_eq!(console.advance(), Progress::Idle);
    assert_eq!(console.load_rom(Some(&plain_image())), LoadOutcome::Accepted);
    assert_eq!(console.advance(), Progress::Idle);
    console.resume();
    assert_eq!(console.advance(), Progress::Ran);
    assert_eq!(console.advance(), Progress::Ran);
    assert!(console.is_running());
    console.pause();
    assert_eq!(console.advance(), Progress::Idle);
}

#[test]
fn active_time_is_read_while_the_device_is_active() {
    let mut device = Device::new();
    assert_eq!(device.active_nanos(), 0);
    device.resume();
    let first = device.active_nanos();
    let second = device.active_nanos();
    assert!(second >= first);
    device.pause();
    assert_eq!(device.active_nanos(), 0);
    assert!(device.total_elapsed() >= second);
}

#[test]
fn reading_is_cut_to_what_the_count_can_hold() {
    let mut device = Device::new();
    assert_eq!(device.counted_nanos(0), 0);
    assert_eq!(device.counted_nanos(12345), 12345);
    assert_eq!(device.counted_nanos(u64::MAX as u128), u64::MAX);
    assert_eq!(device.counted_nanos(u64::MAX as u128 + 1), u64::MAX);
    assert_eq!(device.counted_nanos(u128::MAX), u64::MAX);
    device.resume();
    device.pause_at(u64::MAX - 5);
    assert_eq!(device.counted_nanos(4), 4);
    assert_eq!(device.counted_nanos(5), 5);
    assert_eq!(device.counted_nanos(6), 5);
    device.resume();
    assert_eq!(device.total_elapsed_at(5), u64::MAX);
}
