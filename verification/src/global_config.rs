//! Names for the board-level resources that the application shell wires up.

use vstd::prelude::*;

verus! {

/// The configurable hardware features of the system, used by the
/// application shell to pick pins for the heartbeat LED and the display bus.
pub enum ConfigSystemFeatures {
    LedHeartbeatGpio,
    SpiMosi,
    SpiClk,
    SpiCs,
}

} // verus!
