//! One-shot kernel states: the init/main phase, and the guard that stops a
//! panic from panicking again.

use vstd::prelude::*;

verus! {

/// The phases of the kernel.
#[derive(Debug, Clone, Copy, PartialEq, Eq, Structural)]
pub enum State {
    /// Early init: single core, interrupts masked.
    Init,
    /// Init is over; the kernel runs its main loop on one core.
    SingleCoreMain,
}

/// Why a state transition was refused.
#[derive(Debug, Clone, Copy, PartialEq, Eq, Structural)]
pub enum StateError {
    /// The transition has already happened.
    AlreadyTransitioned,
}

/// Tracks the kernel's phase.
pub struct StateManager {
    state: State,
}

impl StateManager {
    /// The current phase.
    pub closed spec fn phase(&self) -> State {
        self.state
    }

    /// A manager in the init phase.
    pub fn new() -> (r: Self)
        ensures
            r.phase() == State::Init,
    {
        StateManager { state: State::Init }
    }

    /// The current phase.
    pub fn state(&self) -> (r: State)
        ensures
            r == self.phase(),
    {
        self.state
    }

    /// Whether init is still going on.
    pub fn is_init(&self) -> (r: bool)
        ensures
            r == (self.phase() == State::Init),
    {
        match self.state {
            State::Init => true,
            State::SingleCoreMain => false,
        }
    }

    /// Leave init for the main phase; allowed once.
    pub fn transition_to_single_core_main(&mut self) -> (r: Result<(), StateError>)
        ensures
            final(self).phase() == State::SingleCoreMain,
            r is Ok <==> old(self).phase() == State::Init,
            r is Err ==> r == Err::<(), StateError>(StateError::AlreadyTransitioned),
    {
        match self.state {
            State::Init => {
                self.state = State::SingleCoreMain;
                Ok(())
            },
            State::SingleCoreMain => Err(StateError::AlreadyTransitioned),
        }
    }
}

/// Remembers whether a panic is in progress.
pub struct PanicGuard {
    in_progress: bool,
}

impl PanicGuard {
    /// Whether a panic has started.
    pub closed spec fn panicking(&self) -> bool {
        self.in_progress
    }

    /// No panic yet.
    pub fn new() -> (r: Self)
        ensures
            !r.panicking(),
    {
        PanicGuard { in_progress: false }
    }

    /// Called on entering the panic handler: true for the first panic, which
    /// may report; false for any later one, which must park at once.
    pub fn panic_prevent_reenter(&mut self) -> (r: bool)
        ensures
            r == !old(self).panicking(),
            final(self).panicking(),
    {
        if !self.in_progress {
            self.in_progress = true;
            return true;
        }
        false
    }
}

} // verus!
