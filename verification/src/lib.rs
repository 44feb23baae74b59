//! Driver core for an e1000-family Ethernet network interface card.
//!
//! The crate holds the card's control-plane logic: the layout of the
//! EEPROM-related registers and their bit fields, the bounded handshake
//! that recovers the burned-in MAC address, and the transmit and receive
//! descriptor rings that carry packet I/O. Every register read or write
//! the logic needs is represented as a value (a [`regs::RegAction`] to
//! perform, or an observed register word handed in), so the surrounding
//! kernel performs the memory-mapped accesses and this crate makes the
//! decisions.

pub mod eeprom;
pub mod err;
pub mod nic;
pub mod regs;
pub mod ring;
