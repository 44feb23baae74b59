//! The network interface card and its capability interface.
//!
//! A [`NIC`] is created from the PCI values the device-enumeration
//! subsystem supplies, then brought up in three externally driven
//! steps: EEPROM detection from a read of EECD, MAC recovery from three
//! EEPROM word handshakes, and descriptor-ring initialization over
//! DMA-capable buffers. After bring-up it exposes the generic
//! interface: name, link state, MAC, bound addresses, and the read and
//! write paths over the two rings.
//!
//! Register values and DMA buffer addresses cross this boundary as
//! plain values: the surrounding kernel performs the memory-mapped
//! accesses, allocates the buffers, and copies payloads, while every
//! decision is made — and verified — here.

use vstd::prelude::*;
use crate::eeprom::{EepromRead, MacRead, EEPROM_POLL_RETRIES};
use crate::err::NicError;
use crate::regs::{
    eecd_present, status_link_up, RegAction, DESC_BYTES, RCTL_ENABLE, REG_RCTL, REG_RDBAH,
    REG_RDBAL, REG_RDH, REG_RDLEN, REG_RDT, REG_TCTL, REG_TDBAH, REG_TDBAL, REG_TDH, REG_TDLEN,
    REG_TDT, TCTL_ENABLE,
};
use crate::ring::{
    tx_done,
    chunks_of, rx_done, rx_probe, tx_submit, RxOutcome, RxRing, TxRing, RING_MAX,
};

verus! {

/// The low byte of an EEPROM word.
pub open spec fn word_lo(w: u16) -> u8 {
    (w & 0xff) as u8
}

/// The high byte of an EEPROM word.
pub open spec fn word_hi(w: u16) -> u8 {
    ((w >> 8) & 0xff) as u8
}

/// The register write plan that programs two freshly armed rings of
/// `tx_count` and `rx_count` descriptors at physical bases `tx_base`
/// and `rx_base` into the card: base address split low/high, byte
/// length, head and tail — transmit empty, receive fully pre-armed
/// with the tail one behind the head — and the enable bits set last,
/// on top of the current control values, so the card only starts once
/// both rings stand programmed.
pub open spec fn ring_setup_plan(
    tx_base: u64,
    tx_count: int,
    rx_base: u64,
    rx_count: int,
    tctl: u32,
    rctl: u32,
) -> Seq<RegAction> {
    seq![
        RegAction::Write(REG_TDBAL, (tx_base & 0xffffffff) as u32),
        RegAction::Write(REG_TDBAH, (tx_base >> 32) as u32),
        RegAction::Write(REG_TDLEN, (tx_count * (DESC_BYTES as int)) as u32),
        RegAction::Write(REG_TDH, 0u32),
        RegAction::Write(REG_TDT, 0u32),
        RegAction::Write(REG_RDBAL, (rx_base & 0xffffffff) as u32),
        RegAction::Write(REG_RDBAH, (rx_base >> 32) as u32),
        RegAction::Write(REG_RDLEN, (rx_count * (DESC_BYTES as int)) as u32),
        RegAction::Write(REG_RDH, 0u32),
        RegAction::Write(REG_RDT, (rx_count - 1) as u32),
        RegAction::Write(REG_TCTL, tctl | TCTL_ENABLE),
        RegAction::Write(REG_RCTL, rctl | RCTL_ENABLE),
    ]
}

/// A network address bound to the interface by a higher layer.
#[derive(PartialEq, Eq, Clone, Copy, Debug)]
pub enum BindAddr {
    /// A 4-byte address.
    V4([u8; 4]),
    /// A 16-byte address.
    V6([u8; 16]),
}

/// A frame delivery handed out by the read path.
#[derive(PartialEq, Eq, Structural, Clone, Copy, Debug)]
pub struct RxRead {
    /// The DMA buffer holding the payload; the caller copies it out
    /// and then owns the buffer.
    pub addr: u64,
    /// How many payload bytes the buffer holds.
    pub length: u16,
    /// The card's checksum for the frame.
    pub checksum: u16,
    /// Whether another completed frame is already waiting.
    pub more: bool,
}

/// A network interface card.
pub struct NIC {
    /// The PCI status register captured at discovery.
    pub status_reg: u16,
    /// The PCI command register captured at discovery.
    pub command_reg: u16,
    /// Whether the card carries an EEPROM (rather than flash).
    pub eeprom_exists: bool,
    /// The card's MAC address.
    pub mac: [u8; 6],
    /// The driver-assigned interface identifier.
    pub name: Vec<u8>,
    /// The addresses a higher layer has bound to the interface.
    pub addresses: Vec<BindAddr>,
    /// The transmit descriptor ring.
    pub tx: TxRing,
    /// The receive descriptor ring.
    pub rx: RxRing,
}

impl NIC {
    /// Creates an interface from the values the device-enumeration
    /// subsystem supplied: the PCI status and command registers and
    /// whether a usable memory-mapped register window (BAR 0) exists.
    /// Fails with a descriptive error when any of them is missing; the
    /// rings stay empty until [`NIC::init_desc`].
    pub fn new(status_reg: Option<u16>, command_reg: Option<u16>, bar_present: bool) -> (r:
        Result<NIC, &'static str>)
        ensures
            status_reg is None || command_reg is None ==> (r matches Err(e) && e@
                == "Invalid PCI informations for NIC!"@),
            status_reg is Some && command_reg is Some && !bar_present ==> (r matches Err(e) && e@
                == "Invalid BAR for NIC!"@),
            status_reg is Some && command_reg is Some && bar_present ==> (r matches Ok(n)
                && n.status_reg == status_reg->0
                && n.command_reg == command_reg->0
                && !n.eeprom_exists
                && n.mac@ == seq![0u8, 0u8, 0u8, 0u8, 0u8, 0u8]
                && n.name@ == seq![0x65u8, 0x74u8, 0x68u8, 0x30u8]
                && n.addresses@.len() == 0
                && n.tx.descs@.len() == 0
                && n.rx.descs@.len() == 0),
    {
        let status_reg = match status_reg {
            Some(v) => v,
            None => {
                return Err("Invalid PCI informations for NIC!");
            }
        };
        let command_reg = match command_reg {
            Some(v) => v,
            None => {
                return Err("Invalid PCI informations for NIC!");
            }
        };
        if !bar_present {
            return Err("Invalid BAR for NIC!");
        }
        let mut name: Vec<u8> = Vec::new();
        name.push(0x65);
        name.push(0x74);
        name.push(0x68);
        name.push(0x30);
        let nic = NIC {
            status_reg,
            command_reg,
            eeprom_exists: false,
            mac: [0u8, 0u8, 0u8, 0u8, 0u8, 0u8],
            name,
            addresses: Vec::new(),
            tx: TxRing::empty(),
            rx: RxRing::empty(),
        };
        proof {
            assert(nic.mac@ =~= seq![0u8, 0u8, 0u8, 0u8, 0u8, 0u8]);
            assert(nic.name@ =~= seq![0x65u8, 0x74u8, 0x68u8, 0x30u8]);
        }
        Ok(nic)
    }

    /// Records whether an EEPROM is present, from a fresh read of the
    /// EECD register: its bit 8 decides.
    pub fn detect_eeprom(&mut self, eecd: u32)
        ensures
            *final(self) == (NIC { eeprom_exists: eecd_present(eecd), ..*old(self) }),
    {
        self.eeprom_exists = eecd & crate::regs::EECD_PRESENT != 0;
    }

    /// Starts a handshake that reads EEPROM word `addr`, with the
    /// driver's poll retry budget. The caller drives the returned
    /// machine to completion — one at a time, since the card has a
    /// single read cursor. A card without an EEPROM is rejected: its
    /// flash path is not supported.
    pub fn eeprom_read(&self, addr: u8) -> (r: Result<EepromRead, NicError>)
        ensures
            self.eeprom_exists ==> (r matches Ok(m) && m.addr == addr && m.retries_left
                == EEPROM_POLL_RETRIES && m.phase is AcquireRead),
            !self.eeprom_exists ==> r == Err::<EepromRead, NicError>(NicError::EepromAbsent),
    {
        if self.eeprom_exists {
            Ok(EepromRead::new(addr, EEPROM_POLL_RETRIES))
        } else {
            Err(NicError::EepromAbsent)
        }
    }

    /// Starts the MAC recovery sequence: EEPROM words 0, 1 and 2, read
    /// in that order, each through its own bounded handshake. The
    /// caller drives the machine and hands the finished sequence to
    /// [`NIC::load_mac`]. A card without an EEPROM is rejected.
    pub fn start_mac_read(&self) -> (r: Result<MacRead, NicError>)
        ensures
            self.eeprom_exists ==> {
                &&& r matches Ok(s)
                &&& s.wf()
                &&& s matches MacRead::Reading { off, m, .. }
                &&& off == 0
                &&& m.addr == 0
                &&& m.retries_left == EEPROM_POLL_RETRIES
                &&& m.phase is AcquireRead
            },
            !self.eeprom_exists ==> r == Err::<MacRead, NicError>(NicError::EepromAbsent),
    {
        if self.eeprom_exists {
            Ok(MacRead::start(EEPROM_POLL_RETRIES))
        } else {
            Err(NicError::EepromAbsent)
        }
    }

    /// Takes the MAC address from a finished recovery sequence: the
    /// three words it recovered — EEPROM words 0, 1 and 2, in that
    /// order by the sequence's own invariant — composed as
    /// [`NIC::read_mac`] states. A timed-out sequence cannot be loaded:
    /// bring-up aborts instead.
    pub fn load_mac(&mut self, mr: &MacRead)
        requires
            *mr matches MacRead::Done { .. },
        ensures
            *mr matches MacRead::Done { w0, w1, w2 } ==> final(self).mac@ == seq![
                word_lo(w0),
                word_hi(w0),
                word_lo(w1),
                word_hi(w1),
                word_lo(w2),
                word_hi(w2),
            ],
            *final(self) == (NIC { mac: final(self).mac, ..*old(self) }),
    {
        match mr {
            MacRead::Done { w0, w1, w2 } => {
                self.read_mac(*w0, *w1, *w2);
            }
            _ => {
                proof {
                    assert(false);
                }
            }
        }
    }

    /// Composes the MAC address from the first three EEPROM words,
    /// little-endian within each word: the bytes are exactly
    /// `[w0.lo, w0.hi, w1.lo, w1.hi, w2.lo, w2.hi]`.
    pub fn read_mac(&mut self, w0: u16, w1: u16, w2: u16)
        ensures
            final(self).mac@ == seq![
                word_lo(w0),
                word_hi(w0),
                word_lo(w1),
                word_hi(w1),
                word_lo(w2),
                word_hi(w2),
            ],
            *final(self) == (NIC { mac: final(self).mac, ..*old(self) }),
    {
        self.mac = [
            (w0 & 0xff) as u8,
            ((w0 >> 8) & 0xff) as u8,
            (w1 & 0xff) as u8,
            ((w1 >> 8) & 0xff) as u8,
            (w2 & 0xff) as u8,
            ((w2 >> 8) & 0xff) as u8,
        ];
        proof {
            assert(self.mac@ =~= seq![
                word_lo(w0),
                word_hi(w0),
                word_lo(w1),
                word_hi(w1),
                word_lo(w2),
                word_hi(w2),
            ]);
        }
    }

    /// Initializes the rings: `tx_count` empty transmit slots, and one
    /// armed receive slot per supplied DMA buffer. Every receive slot
    /// ends up with its own distinct, valid buffer; every transmit slot
    /// is empty. The caller supplies distinct, nonzero buffer addresses
    /// from its DMA allocator.
    pub fn init_desc(&mut self, tx_count: usize, rx_bufs: &Vec<u64>)
        requires
            1 <= tx_count <= RING_MAX,
            1 <= rx_bufs@.len() <= RING_MAX,
            forall|i: int| 0 <= i < rx_bufs@.len() ==> rx_bufs@[i] != 0,
            forall|i: int, j: int| 0 <= i < j < rx_bufs@.len() ==> rx_bufs@[i] != rx_bufs@[j],
        ensures
            final(self).tx.wf(),
            final(self).rx.wf(),
            final(self).tx.descs@.len() == tx_count,
            final(self).tx.head == 0,
            final(self).tx.tail == 0,
            final(self).tx.in_flight == 0,
            forall|i: int|
                0 <= i < tx_count ==> final(self).tx.descs@[i] == crate::ring::zero_tx_desc(),
            final(self).rx.next == 0,
            final(self).rx.descs@.len() == rx_bufs@.len(),
            forall|i: int|
                0 <= i < rx_bufs@.len() ==> final(self).rx.descs@[i] == crate::ring::armed_rx_desc(
                    rx_bufs@[i],
                ),
            *final(self) == (NIC { tx: final(self).tx, rx: final(self).rx, ..*old(self) }),
    {
        self.tx = TxRing::new(tx_count);
        self.rx = RxRing::new(rx_bufs);
    }

    /// The register writes that hand the freshly armed rings to the
    /// card, in order: each ring's descriptor base address and byte
    /// length, the head and tail — the transmit ring empty (tail equal
    /// to head at zero), the receive ring fully pre-armed (tail one
    /// behind head) — and, only after both rings are programmed, the
    /// two control-register writes that set the enable bits on top of
    /// the current control values `tctl` and `rctl`. `tx_base` and
    /// `rx_base` are the physical base addresses of the two descriptor
    /// arrays in DMA memory.
    pub fn ring_setup(&self, tx_base: u64, rx_base: u64, tctl: u32, rctl: u32) -> (r: Vec<
        RegAction,
    >)
        requires
            self.tx.wf(),
            self.rx.wf(),
            self.tx.head == 0,
            self.tx.tail == 0,
            self.tx.in_flight == 0,
            self.rx.next == 0,
        ensures
            r@ == ring_setup_plan(
                tx_base,
                self.tx.descs@.len() as int,
                rx_base,
                self.rx.descs@.len() as int,
                tctl,
                rctl,
            ),
    {
        let tx_count = self.tx.descs.len();
        let rx_count = self.rx.descs.len();
        let mut v: Vec<RegAction> = Vec::new();
        v.push(RegAction::Write(REG_TDBAL, (tx_base & 0xffffffff) as u32));
        v.push(RegAction::Write(REG_TDBAH, (tx_base >> 32) as u32));
        v.push(RegAction::Write(REG_TDLEN, (tx_count as u32) * DESC_BYTES));
        v.push(RegAction::Write(REG_TDH, 0));
        v.push(RegAction::Write(REG_TDT, 0));
        v.push(RegAction::Write(REG_RDBAL, (rx_base & 0xffffffff) as u32));
        v.push(RegAction::Write(REG_RDBAH, (rx_base >> 32) as u32));
        v.push(RegAction::Write(REG_RDLEN, (rx_count as u32) * DESC_BYTES));
        v.push(RegAction::Write(REG_RDH, 0));
        v.push(RegAction::Write(REG_RDT, (rx_count - 1) as u32));
        v.push(RegAction::Write(REG_TCTL, tctl | TCTL_ENABLE));
        v.push(RegAction::Write(REG_RCTL, rctl | RCTL_ENABLE));
        proof {
            assert(v@ =~= ring_setup_plan(
                tx_base,
                self.tx.descs@.len() as int,
                rx_base,
                self.rx.descs@.len() as int,
                tctl,
                rctl,
            ));
        }
        v
    }

    /// The driver-assigned interface identifier.
    pub fn get_name(&self) -> (r: &Vec<u8>)
        ensures
            r@ == self.name@,
    {
        &self.name
    }

    /// Whether the link is up, from a fresh read of the status
    /// register: its link-up bit decides.
    pub fn is_up(&self, status: u32) -> (r: bool)
        ensures
            r == status_link_up(status),
    {
        status & crate::regs::STATUS_LINK_UP != 0
    }

    /// The card's MAC address.
    pub fn get_mac(&self) -> (r: [u8; 6])
        ensures
            r == self.mac,
    {
        self.mac
    }

    /// The addresses a higher layer has bound to the interface.
    pub fn get_addresses(&self) -> (r: &Vec<BindAddr>)
        ensures
            r@ == self.addresses@,
    {
        &self.addresses
    }

    /// Replaces the bound addresses; they are owned by a higher layer
    /// and only stored here.
    pub fn set_addresses(&mut self, addresses: Vec<BindAddr>)
        ensures
            *final(self) == (NIC { addresses, ..*old(self) }),
    {
        self.addresses = addresses;
    }

    /// The read path: probes the receive ring once. A completed frame
    /// is handed out with a flag saying whether more are already
    /// waiting; a frame with error bits is dropped silently — the
    /// caller sees no frame and no error — and nothing is ready when
    /// the card has not finished the next descriptor. The fresh DMA
    /// buffer re-arms the ring when a frame is handed out.
    pub fn read(&mut self, fresh_buf: u64) -> (r: Option<RxRead>)
        requires
            old(self).rx.wf(),
            fresh_buf != 0,
            forall|i: int|
                0 <= i < old(self).rx.descs@.len() ==> old(self).rx.descs@[i].addr != fresh_buf,
        ensures
            final(self).rx.wf(),
            *final(self) == (NIC { rx: final(self).rx, ..*old(self) }),
            ({
                let cur = old(self).rx.descs@[old(self).rx.next as int];
                &&& (!rx_done(cur) ==> r is None && final(self).rx == old(self).rx)
                &&& (rx_done(cur) && cur.errors != 0 ==> r is None && rx_probe(
                    old(self).rx,
                    final(self).rx,
                    fresh_buf,
                    RxOutcome::Discarded(NicError::ChecksumOrFrameError),
                ))
                &&& (rx_done(cur) && cur.errors == 0 ==> (r matches Some(d)
                    && d.addr == cur.addr
                    && d.length == cur.length
                    && d.checksum == cur.checksum
                    && d.more == rx_done(final(self).rx.descs@[final(self).rx.next as int])
                    && rx_probe(old(self).rx, final(self).rx, fresh_buf, RxOutcome::Delivered {
                        addr: cur.addr,
                        length: cur.length,
                        checksum: cur.checksum,
                    })))
            }),
    {
        let outcome = self.rx.receive(fresh_buf);
        match outcome {
            RxOutcome::NotReady => None,
            RxOutcome::Discarded(_) => None,
            RxOutcome::Delivered { addr, length, checksum } => {
                let more = self.rx.ready();
                Some(RxRead { addr, length, checksum, more })
            }
        }
    }

    /// The write path: hands a payload of `len` bytes at physical
    /// address `buf_addr` to the transmit ring. With the link down the
    /// caller sees `LinkDown`; an empty payload is accepted without
    /// touching the ring; a full ring surfaces `RingFull` and leaves
    /// every descriptor as it was; otherwise all `len` bytes are
    /// accepted, split across `ceil(len / TX_MAX_CHUNK)` descriptors
    /// with end-of-packet on the last.
    pub fn write(&mut self, link_up: bool, buf_addr: u64, len: usize) -> (r: Result<
        u64,
        NicError,
    >)
        requires
            old(self).tx.wf(),
            buf_addr + len <= u64::MAX,
        ensures
            final(self).tx.wf(),
            *final(self) == (NIC { tx: final(self).tx, ..*old(self) }),
            !link_up ==> r == Err::<u64, NicError>(NicError::LinkDown) && final(self).tx == old(
                self,
            ).tx,
            link_up && len == 0 ==> r == Ok::<u64, NicError>(0) && final(self).tx == old(self).tx,
            link_up && len > 0 && chunks_of(len as int) > old(self).tx.free_slots() ==> r == Err::<
                u64,
                NicError,
            >(NicError::RingFull) && final(self).tx == old(self).tx,
            link_up && len > 0 && chunks_of(len as int) <= old(self).tx.free_slots() ==> r == Ok::<
                u64,
                NicError,
            >(len as u64) && tx_submit(old(self).tx, final(self).tx, buf_addr, len as int),
    {
        if !link_up {
            return Err(NicError::LinkDown);
        }
        if len == 0 {
            return Ok(0);
        }
        match self.tx.transmit(buf_addr, len) {
            Ok(_) => Ok(len as u64),
            Err(e) => Err(e),
        }
    }

    /// Retires transmit descriptors the card has finished, freeing
    /// their slots; returns how many were retired. Only descriptors
    /// whose done bit is set are freed, oldest first, and it stops
    /// exactly at the first one the card has not finished — a slot
    /// whose buffer is still in flight is never handed back.
    pub fn reclaim_tx(&mut self) -> (r: usize)
        requires
            old(self).tx.wf(),
        ensures
            final(self).tx.wf(),
            *final(self) == (NIC { tx: final(self).tx, ..*old(self) }),
            r <= old(self).tx.in_flight,
            final(self).tx.in_flight == old(self).tx.in_flight - r,
            final(self).tx.descs@ == old(self).tx.descs@,
            final(self).tx.tail == old(self).tx.tail,
            final(self).tx.head == (old(self).tx.head + r) % (old(self).tx.descs@.len() as int),
            forall|k: int|
                0 <= k < r ==> tx_done(
                    old(self).tx.descs@[#[trigger] ((old(self).tx.head + k) % (
                    old(self).tx.descs@.len() as int))],
                ),
            final(self).tx.in_flight == 0 || !tx_done(
                old(self).tx.descs@[(old(self).tx.head + r) % (old(self).tx.descs@.len() as int)],
            ),
    {
        self.tx.reclaim()
    }
}

} // verus!
