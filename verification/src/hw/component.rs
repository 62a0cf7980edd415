use vstd::prelude::*;
use std::sync::Arc;
use std::sync::RwLock;

verus! {

/// Why a component did not get through a step.
#[derive(Debug, PartialEq, Eq)]
pub enum ExecutionError {
    /// The lock that guards the component was left poisoned by a holder that
    /// panicked, so the component may be in no state to go on. It was not
    /// asked.
    Poisoned,
    /// Another owner of the component held its lock at the moment, so the
    /// component was not asked. Nothing is wrong with it: it can be asked
    /// again.
    Busy,
    /// The component itself gave up, with its reason.
    Failed(String),
}

/// A part of the machine that runs on a clock of its own.
pub trait Component: Send + Sync {
    /// Runs one unit of work and says how many of the component's own
    /// cycles it took.
    fn step(&mut self) -> Result<u64, ExecutionError>;
}

/// The reader-writer lock of the standard library, `std::sync::RwLock`. It
/// is known by its name alone: nothing is claimed of what it holds.
#[verifier::external_type_specification]
#[verifier::external_body]
#[verifier::reject_recursive_types(T)]
pub struct ExRwLock<T: ?Sized>(RwLock<T>);

/// What came of asking a shared component for a step.
#[derive(Debug, PartialEq, Eq)]
pub enum Outcome {
    /// The component ran its step, which came to this.
    Ran(Result<u64, ExecutionError>),
    /// The lock was found poisoned, and the component was not run.
    Poisoned,
    /// The lock was held by another owner, and the component was not run.
    Busy,
}

/// A value that several owners share, each reaching it under its lock.
#[verifier::reject_recursive_types(C)]
pub struct Shared<C: ?Sized> {
    lock: Arc<RwLock<C>>,
}

/// A component that several owners share, each stepping it under its lock.
pub type ComponentRef = Shared<dyn Component>;

impl<C: Component + ?Sized> Shared<C> {
    /// The lock that is held.
    pub closed spec fn lock(&self) -> Arc<RwLock<C>> {
        self.lock
    }

    /// Holds on to `lock` as one of its owners.
    pub fn new(lock: Arc<RwLock<C>>) -> (r: Self)
        ensures
            r.lock() == lock,
    {
        Shared { lock }
    }

    /// Tries for the write lock with `RwLock::try_write` and, if it gets it,
    /// has the component run one step while it holds it.
    ///
    /// The call does not wait: a lock that is held comes back as
    /// [`Outcome::Busy`], and a poisoned one as [`Outcome::Poisoned`]. In
    /// neither case is the component run. Otherwise the outcome holds what
    /// the step returned. Nothing is claimed about which of these comes
    /// back: that is up to the component and to the other holders of the
    /// lock.
    #[verifier::external_body]
    pub(crate) fn step(&self) -> (outcome: Outcome) {
        match self.lock.try_write() {
            Ok(mut guard) => Outcome::Ran(guard.step()),
            Err(std::sync::TryLockError::Poisoned(_)) => Outcome::Poisoned,
            Err(std::sync::TryLockError::WouldBlock) => Outcome::Busy,
        }
    }
}

} // verus!
