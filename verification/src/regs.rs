//! The card's register file, as far as this driver touches it: offsets,
//! bit fields, and the pure functions that compose or decode register
//! words. The surrounding kernel owns the memory-mapped window; it
//! performs each [`RegAction`] this crate asks for and hands the read
//! values back.

use vstd::prelude::*;

verus! {

/// Register offset: device status (STATUS).
pub const REG_STATUS: u16 = 0x08;
/// Register offset: EEPROM/flash control and data (EECD).
pub const REG_EECD: u16 = 0x10;
/// Register offset: EEPROM read (EERD).
pub const REG_EERD: u16 = 0x14;
/// Register offset: receive control (RCTL).
pub const REG_RCTL: u16 = 0x100;
/// Register offset: transmit control (TCTL).
pub const REG_TCTL: u16 = 0x400;
/// Register offset: receive descriptor base, low 32 bits (RDBAL).
pub const REG_RDBAL: u16 = 0x2800;
/// Register offset: receive descriptor base, high 32 bits (RDBAH).
pub const REG_RDBAH: u16 = 0x2804;
/// Register offset: receive descriptor ring byte length (RDLEN).
pub const REG_RDLEN: u16 = 0x2808;
/// Register offset: receive descriptor head (RDH).
pub const REG_RDH: u16 = 0x2810;
/// Register offset: receive descriptor tail (RDT).
pub const REG_RDT: u16 = 0x2818;
/// Register offset: transmit descriptor base, low 32 bits (TDBAL).
pub const REG_TDBAL: u16 = 0x3800;
/// Register offset: transmit descriptor base, high 32 bits (TDBAH).
pub const REG_TDBAH: u16 = 0x3804;
/// Register offset: transmit descriptor ring byte length (TDLEN).
pub const REG_TDLEN: u16 = 0x3808;
/// Register offset: transmit descriptor head (TDH).
pub const REG_TDH: u16 = 0x3810;
/// Register offset: transmit descriptor tail (TDT).
pub const REG_TDT: u16 = 0x3818;

/// EECD bit 8: an EEPROM (rather than flash) is present.
pub const EECD_PRESENT: u32 = 0x100;
/// EECD bit 6: software requests exclusive use of the EEPROM.
pub const EECD_REQUEST: u32 = 0x40;
/// EERD bit 0: start a read.
pub const EERD_START: u32 = 0x1;
/// EERD bit 4: the read has completed.
pub const EERD_DONE: u32 = 0x10;
/// STATUS bit 1: link is up.
pub const STATUS_LINK_UP: u32 = 0x2;
/// TCTL bit 1: transmit ring enable.
pub const TCTL_ENABLE: u32 = 0x2;
/// RCTL bit 1: receive ring enable.
pub const RCTL_ENABLE: u32 = 0x2;
/// The byte size of one legacy descriptor, transmit or receive.
pub const DESC_BYTES: u32 = 16;

/// One memory-mapped register access that the kernel is asked to perform
/// on the driver's behalf.
#[derive(PartialEq, Eq, Structural, Clone, Copy, Debug)]
pub enum RegAction {
    /// Read the 32-bit register at this offset and hand the value back.
    Read(u16),
    /// Write the value to the 32-bit register at this offset.
    Write(u16, u32),
}

/// The EERD command word that starts a read of EEPROM word `addr`:
/// the start bit, with the word address in bits 15..8.
pub open spec fn eerd_command(addr: u8) -> u32 {
    EERD_START | ((addr as u32) << 8)
}

/// Whether an EERD value reports the read as done (bit 4).
pub open spec fn eerd_done(v: u32) -> bool {
    v & EERD_DONE != 0
}

/// The 16-bit data word carried in bits 31..16 of an EERD value.
pub open spec fn eerd_data(v: u32) -> u16 {
    ((v >> 16) & 0xffff) as u16
}

/// Whether an EECD value reports an EEPROM present (bit 8).
pub open spec fn eecd_present(v: u32) -> bool {
    v & EECD_PRESENT != 0
}

/// An EECD value with the software-request bit set.
pub open spec fn eecd_acquire(v: u32) -> u32 {
    v | EECD_REQUEST
}

/// An EECD value with the software-request bit cleared.
pub open spec fn eecd_release(v: u32) -> u32 {
    v & !EECD_REQUEST
}

/// Whether a STATUS value reports the link as up (bit 1).
pub open spec fn status_link_up(v: u32) -> bool {
    v & STATUS_LINK_UP != 0
}

} // verus!
