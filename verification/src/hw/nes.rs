use vstd::prelude::*;
use crate::hw::clock::Clock;
use crate::hw::clock::Divider;
use crate::hw::clock::Period;
use crate::hw::component::ExecutionError;
use crate::hw::device::Device;
use crate::rom::Cartridge;
use crate::rom::RomError;

verus! {

/// The master clock of an NTSC console runs at 236.25 MHz / 11: it ticks 189
/// times in every 8800 nanoseconds.
pub const MASTER_PERIOD_NANOS: u64 = 8800;

/// See [`MASTER_PERIOD_NANOS`].
pub const MASTER_PERIOD_TICKS: u64 = 189;

/// What came of one turn of the task that drives the console.
#[derive(Debug, PartialEq, Eq)]
pub enum Progress {
    /// The console is not running, and nothing was done.
    Idle,
    /// The console ran up to the present.
    Ran,
    /// A component failed, and the console was paused.
    Halted(ExecutionError),
}

/// What came of an attempt to put a ROM image into the console.
#[derive(Debug, PartialEq, Eq)]
pub enum LoadOutcome {
    /// No image was chosen.
    Cancelled,
    /// The image was turned away.
    Rejected(RomError),
    /// The image is in the console as its cartridge.
    Accepted,
}

/// The console: its clocks and the cartridge in its slot.
pub struct Nes {
    device: Device,
    cartridge: Option<Cartridge>,
}

impl Nes {
    /// The clocks of the console and their time.
    pub closed spec fn device(&self) -> Device {
        self.device
    }

    /// The cartridge in the slot.
    pub closed spec fn cartridge(&self) -> Option<Cartridge> {
        self.cartridge
    }

    /// Whether there is a cartridge in the slot.
    pub open spec fn spec_is_cartridge_loaded(&self) -> bool {
        self.cartridge() is Some
    }

    /// Whether the clocks stand still.
    pub open spec fn spec_is_paused(&self) -> bool {
        self.device().is_paused()
    }

    /// A console runs while it has a cartridge and is not paused.
    pub open spec fn spec_is_running(&self) -> bool {
        self.is_cartridge_loaded() && !self.is_paused()
    }

    /// A console that is paused, with an empty slot and with its master
    /// clock at time zero.
    pub fn new() -> (r: Self)
        ensures
            r.cartridge() is None,
            r.device().is_paused(),
            r.device().prior_elapsed() == 0,
            r.device().clocks().len() == 1,
            r.device().clocks()[0].period().nanos() == MASTER_PERIOD_NANOS,
            r.device().clocks()[0].period().ticks() == MASTER_PERIOD_TICKS,
            r.device().clocks()[0].ticks() == 0,
            r.device().clocks()[0].dividers() == Seq::<Divider>::empty(),
    {
        let period = Period::new(MASTER_PERIOD_NANOS, MASTER_PERIOD_TICKS).unwrap();
        let master_clock = Clock::new(period);
        let mut device = Device::new();
        device.attach(master_clock);
        Self { device, cartridge: None }
    }

    /// Whether there is a cartridge in the slot.
    #[verifier::when_used_as_spec(spec_is_cartridge_loaded)]
    pub fn is_cartridge_loaded(&self) -> (r: bool)
        ensures
            r == self.spec_is_cartridge_loaded(),
    {
        self.cartridge.is_some()
    }

    /// Whether the clocks stand still.
    #[verifier::when_used_as_spec(spec_is_paused)]
    pub fn is_paused(&self) -> (r: bool)
        ensures
            r == self.spec_is_paused(),
    {
        self.device.is_paused()
    }

    /// Whether the console has a cartridge and is not paused.
    #[verifier::when_used_as_spec(spec_is_running)]
    pub fn is_running(&self) -> (r: bool)
        ensures
            r == self.spec_is_running(),
    {
        self.is_cartridge_loaded() && !self.is_paused()
    }

    /// Pauses the console by the clock of the machine.
    pub fn pause(&mut self)
        ensures
            final(self).is_paused(),
            final(self).cartridge() == old(self).cartridge(),
            final(self).device().clocks() == old(self).device().clocks(),
            exists|active: u64|
                final(self).device().watch_at(0) == (#[trigger] old(self).device().watch_at(
                    active as nat,
                )).paused(),
    {
        self.device.pause();
    }

    /// Resumes the console by the clock of the machine.
    pub fn resume(&mut self)
        ensures
            !final(self).is_paused(),
            final(self).cartridge() == old(self).cartridge(),
            final(self).device().clocks() == old(self).device().clocks(),
            final(self).device().watch_at(0) == old(self).device().watch_at(0).resumed(),
    {
        self.device.resume();
    }

    /// Puts a cartridge into the slot, in place of the one that may be there.
    pub fn load_cartridge(&mut self, cartridge: Cartridge)
        ensures
            final(self).cartridge() == Some(cartridge),
            final(self).device() == old(self).device(),
    {
        self.cartridge = Some(cartridge);
    }

    /// Takes the cartridge out of the slot.
    pub fn eject_cartridge(&mut self) -> (r: Option<Cartridge>)
        ensures
            r == old(self).cartridge(),
            final(self).cartridge() is None,
            final(self).device() == old(self).device(),
    {
        self.cartridge.take()
    }

    /// Puts the cartridge that a ROM image holds into the slot.
    ///
    /// Without an image (`None`), and with one that is turned away, the
    /// console stays as it is.
    pub fn load_rom(&mut self, image: Option<&[u8]>) -> (r: LoadOutcome)
        ensures
            final(self).device() == old(self).device(),
            match image {
                None => {
                    &&& r == LoadOutcome::Cancelled
                    &&& final(self).cartridge() == old(self).cartridge()
                },
                Some(bytes) => match Cartridge::rejection(bytes@) {
                    Some(e) => {
                        &&& r == LoadOutcome::Rejected(e)
                        &&& final(self).cartridge() == old(self).cartridge()
                    },
                    None => {
                        &&& r == LoadOutcome::Accepted
                        &&& final(self).cartridge() matches Some(cartridge)
                        &&& cartridge.program_memory() == crate::rom::ines::INes::image(
                            bytes@,
                        ).prg_rom
                        &&& cartridge.character_memory() == crate::rom::ines::INes::image(
                            bytes@,
                        ).chr_rom
                    },
                },
            },
    {
        match image {
            None => LoadOutcome::Cancelled,
            Some(bytes) => match Cartridge::from_rom(bytes) {
                Ok(cartridge) => {
                    self.load_cartridge(cartridge);
                    LoadOutcome::Accepted
                },
                Err(e) => LoadOutcome::Rejected(e),
            },
        }
    }

    /// Runs the clocks up to the time that the console has been active, at
    /// a moment when the current interval, if there is one, has lasted
    /// `active` nanoseconds.
    pub fn run_at(&mut self, active: u64) -> (r: Result<(), ExecutionError>)
        requires
            old(self).device().watch_at(active as nat).total() <= u64::MAX,
        ensures
            final(self).cartridge() == old(self).cartridge(),
            old(self).device().ran_to(
                old(self).device().watch_at(active as nat).total(),
                &final(self).device(),
                r,
            ),
    {
        self.device.run_at(active)
    }

    /// Runs the clocks up to the time that the console has been active by
    /// the clock of the machine.
    pub fn run(&mut self) -> (r: Result<(), ExecutionError>)
        ensures
            final(self).cartridge() == old(self).cartridge(),
            exists|active: u64|
                old(self).device().ran_to(
                    (#[trigger] old(self).device().watch_at(active as nat)).total(),
                    &final(self).device(),
                    r,
                ),
    {
        let r = self.device.run();
        assert(old(self).device() == old(self).device);
        r
    }

    /// What one turn of the task that drives the console makes of it, at a
    /// moment when the current interval, if there is one, has lasted
    /// `active` nanoseconds.
    ///
    /// A console that is not running is left alone. One that is running is
    /// run up to the present, and paused there if a component fails.
    pub open spec fn advanced(&self, active: nat, after: &Nes, progress: Progress) -> bool {
        &&& after.cartridge() == self.cartridge()
        &&& !self.is_running() ==> progress == Progress::Idle && after.device() == self.device()
        &&& self.is_running() ==> match progress {
            Progress::Idle => false,
            Progress::Ran => self.device().ran_to(
                self.device().watch_at(active).total(),
                &after.device(),
                Ok(()),
            ),
            Progress::Halted(e) => {
                &&& Device::clocks_ran_to(
                    self.device().clocks(),
                    self.device().watch_at(active).total(),
                    after.device().clocks(),
                    Err(e),
                )
                &&& after.device().watch_at(0) == self.device().watch_at(active).paused()
            },
        }
    }

    /// One turn of the task that drives the console, at a moment when the
    /// current interval, if there is one, has lasted `active` nanoseconds.
    ///
    /// A console that is not running is left alone. One that is running is
    /// run up to the present, and paused there if a component fails, so that
    /// no time is counted while it stands still.
    pub fn advance_at(&mut self, active: u64) -> (r: Progress)
        requires
            old(self).device().watch_at(active as nat).total() <= u64::MAX,
        ensures
            old(self).advanced(active as nat, final(self), r),
    {
        if !self.is_running() {
            return Progress::Idle;
        }
        match self.device.run_at(active) {
            Ok(done) => {
                assert(done == ());
                Progress::Ran
            },
            Err(e) => {
                self.device.pause_at(active);
                Progress::Halted(e)
            },
        }
    }

    /// One turn of the task that drives the console, by the clock of the
    /// machine.
    pub fn advance(&mut self) -> (r: Progress)
        ensures
            exists|active: u64| #[trigger] old(self).advanced(active as nat, final(self), r),
    {
        let active = self.device.active_nanos();
        self.advance_at(active)
    }
}

} // verus!
