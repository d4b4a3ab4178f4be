//! The requests that drive the simulation, and what its loop does on each.

use vstd::prelude::*;
use crate::materials::Catalog;
use crate::physics::{at_rest, tick, within};
use crate::sandbox::Sandbox;

verus! {

/// A request to the simulation.
#[derive(Clone, Copy, Debug, PartialEq, Eq, Structural)]
pub enum Command {
    /// Let time pass. The number is the sender's measure of how much; the
    /// simulation advances by one tick whatever it is.
    Pass(u32),
}

/// What a wait for the next request ended with.
#[derive(Clone, Copy, Debug, PartialEq, Eq, Structural)]
pub enum Received {
    /// A request arrived.
    Request(Command),
    /// Nobody is left who could send one.
    Disconnected,
}

/// What the simulation loop does next.
#[derive(Clone, Copy, Debug, PartialEq, Eq, Structural)]
pub enum Reaction {
    /// The grid has advanced by one tick: draw it and wait again.
    Redraw,
    /// Leave the loop.
    Stop,
}

/// Whether the loop goes on after `received`, given whether the window was
/// asked to close in the meantime.
pub open spec fn goes_on(received: Received, quit: bool) -> bool {
    received is Request && !quit
}

/// One turn of the simulation loop. A request advances the grid by exactly
/// one tick. The loop ends, with the grid untouched, when the sending side
/// is gone or the window was asked to close.
pub fn react(sandbox: &mut Sandbox, catalog: &Catalog, received: Received, quit: bool) -> (next:
    Reaction)
    requires
        old(sandbox).wf(),
        within(catalog@, old(sandbox)@),
    ensures
        final(sandbox).wf(),
        final(sandbox).spec_w() == old(sandbox).spec_w(),
        final(sandbox).spec_h() == old(sandbox).spec_h(),
        within(catalog@, final(sandbox)@),
        goes_on(received, quit) ==> next == Reaction::Redraw && final(sandbox)@ == tick(
            catalog@,
            old(sandbox)@,
        ) && at_rest(final(sandbox)@),
        !goes_on(received, quit) ==> next == Reaction::Stop && final(sandbox)@ == old(sandbox)@,
{
    match received {
        Received::Disconnected => Reaction::Stop,
        Received::Request(Command::Pass(_)) => {
            if quit {
                Reaction::Stop
            } else {
                sandbox.step(catalog);
                Reaction::Redraw
            }
        },
    }
}

} // verus!
