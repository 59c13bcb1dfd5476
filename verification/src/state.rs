//! The switchboard: which of the hosted simulations is active, and
//! whether it is paused. The host owns the simulations themselves and
//! keeps the inactive ones as they are; the switchboard tells it what a
//! selection asks of them.

use vstd::prelude::*;

verus! {

/// The simulations that a host can run.
#[derive(Debug, Clone, Copy, PartialEq, Eq, Hash, Structural)]
pub enum SystemId {
    Life,
    NBody,
    LangtonsAnt,
}

/// What the host does to a simulation after a selection.
#[derive(Debug, Clone, Copy, PartialEq, Eq, Structural)]
pub enum Selection {
    /// Another simulation becomes active: the host initialises it without
    /// a restart, so that it goes on where it was left, and keeps the one
    /// that was active as it is.
    Resume(SystemId),
    /// The active simulation was selected again: the host restarts it.
    Restart(SystemId),
}

impl SystemId {
    /// The name under which a simulation is shown.
    pub open spec fn display_name(self) -> Seq<char> {
        match self {
            SystemId::Life => "Game of Life"@,
            SystemId::NBody => "N-Body Simulation"@,
            SystemId::LangtonsAnt => "Langton's Ant"@,
        }
    }

    /// The name under which the simulation is shown.
    pub fn name(&self) -> (name: &'static str)
        ensures
            name@ == self.display_name(),
    {
        match self {
            SystemId::Life => "Game of Life",
            SystemId::NBody => "N-Body Simulation",
            SystemId::LangtonsAnt => "Langton's Ant",
        }
    }
}

/// The keys that every simulation shares, as the host found them pressed
/// in one frame.
#[derive(Debug, Clone, Copy, PartialEq, Eq, Structural)]
pub struct Keys {
    pub quit: bool,
    pub pause: bool,
    pub restart: bool,
    pub clear: bool,
}

/// What the shared keys of one frame ask of the host, in this order: to
/// quit, or else to restart the active simulation and to clear it.
#[derive(Debug, Clone, Copy, PartialEq, Eq, Structural)]
pub struct Requests {
    pub quit: bool,
    pub restart: bool,
    pub clear: bool,
}

/// The switchboard of a host.
#[derive(Debug, Clone, Copy, PartialEq, Eq, Structural)]
pub struct State {
    /// The active simulation.
    pub system: SystemId,
    pub is_paused: bool,
}

impl State {
    /// What selecting `new_system` asks of the host.
    pub open spec fn selection(self, new_system: SystemId) -> Selection {
        if new_system == self.system {
            Selection::Restart(self.system)
        } else {
            Selection::Resume(new_system)
        }
    }

    /// A host starts paused, with the cellular automaton active.
    pub fn new() -> (state: State)
        ensures
            state == (State { system: SystemId::Life, is_paused: true }),
    {
        State { system: SystemId::Life, is_paused: true }
    }

    /// Selects a simulation: another one than the active one becomes
    /// active and is resumed, the active one is restarted. Pausing is not
    /// touched.
    pub fn set_system(&mut self, new_system: SystemId) -> (selection: Selection)
        ensures
            selection == old(self).selection(new_system),
            final(self).system == new_system,
            final(self).is_paused == old(self).is_paused,
    {
        if new_system == self.system {
            Selection::Restart(self.system)
        } else {
            self.system = new_system;
            Selection::Resume(new_system)
        }
    }

    /// What the shared keys of one frame do: the quit key ends the frame
    /// before anything else is looked at; otherwise the pause key toggles
    /// pausing, and the restart and clear keys are handed on to the host.
    pub open spec fn after_keys(self, keys: Keys) -> (State, Requests) {
        if keys.quit {
            (self, Requests { quit: true, restart: false, clear: false })
        } else {
            (
                State { is_paused: self.is_paused != keys.pause, ..self },
                Requests { quit: false, restart: keys.restart, clear: keys.clear },
            )
        }
    }

    /// Takes the shared keys of one frame: toggles pausing where they ask
    /// for it, and says what is left for the host to do.
    pub fn handle_common_input(&mut self, keys: Keys) -> (asked: Requests)
        ensures
            (*final(self), asked) == old(self).after_keys(keys),
    {
        if keys.quit {
            return Requests { quit: true, restart: false, clear: false };
        }
        if keys.pause {
            self.toggle_pause();
        }
        Requests { quit: false, restart: keys.restart, clear: keys.clear }
    }

    /// Pauses a running host and lets a paused one run.
    pub fn toggle_pause(&mut self)
        ensures
            final(self).is_paused == !old(self).is_paused,
            final(self).system == old(self).system,
    {
        self.is_paused = !self.is_paused;
    }

    /// The active simulation.
    pub fn get_cur_system(&self) -> (system: SystemId)
        ensures
            system == self.system,
    {
        self.system
    }

    /// Whether the host is paused.
    pub fn is_paused(&self) -> (paused: bool)
        ensures
            paused == self.is_paused,
    {
        self.is_paused
    }
}

} // verus!
