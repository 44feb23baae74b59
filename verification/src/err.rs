//! Error kinds surfaced by the driver core.

use vstd::prelude::*;

verus! {

/// A failure of the driver core.
///
/// Transient conditions (`RingFull`, `LinkDown`) are retryable; a
/// `HardwareTimeout` during bring-up is fatal to the device; receive
/// checksum/frame errors are dropped inside the receive path and never
/// surfaced per packet.
#[derive(PartialEq, Eq, Structural, Clone, Copy, Debug)]
pub enum NicError {
    /// A bounded poll of the hardware exceeded its retry budget.
    HardwareTimeout,
    /// No free transmit descriptor: the caller must retry later.
    RingFull,
    /// A received frame's descriptor carried checksum or framing error bits.
    ChecksumOrFrameError,
    /// The status register reports no carrier.
    LinkDown,
    /// DMA-capable ring memory could not be obtained at bring-up.
    DmaAllocationFailed,
    /// The card carries flash instead of an EEPROM; such devices are rejected.
    EepromAbsent,
}

} // verus!
