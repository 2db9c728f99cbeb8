//! The two capabilities a driver needs from its platform.

use vstd::prelude::*;

verus! {

/// Blocking, write-only access to a two-wire bus.
///
/// Nothing is assumed of an implementation: a driver's contract holds for
/// whatever `write` reports.
pub trait Bus {
    /// What the transport reports when a write fails.
    type Error;

    /// Writes `bytes` to the device at the 7-bit `address`. `Ok` means that
    /// the device accepted all of them.
    fn write(&mut self, address: u8, bytes: &[u8]) -> Result<(), Self::Error>;
}

/// Blocking delays.
pub trait Delay {
    /// Returns after at least `ms` milliseconds.
    fn delay_ms(&mut self, ms: u32);

    /// Returns after at least `us` microseconds.
    fn delay_us(&mut self, us: u32);
}

} // verus!
