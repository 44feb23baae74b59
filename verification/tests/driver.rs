//! Tests that drive the driver core the way the surrounding kernel
//! would: register values and DMA completions are simulated and handed
//! in as plain values.

use e1000::eeprom::{EepromRead, MacRead, EEPROM_POLL_RETRIES};
use e1000::err::NicError;
use e1000::nic::{BindAddr, NIC};
use e1000::regs::{
    RegAction, DESC_BYTES, EECD_PRESENT, EECD_REQUEST, EERD_DONE, RCTL_ENABLE, REG_EECD,
    REG_EERD, REG_RCTL, REG_RDBAH, REG_RDBAL, REG_RDH, REG_RDLEN, REG_RDT, REG_TCTL, REG_TDBAH,
    REG_TDBAL, REG_TDH, REG_TDLEN, REG_TDT, TCTL_ENABLE,
};
use e1000::ring::{
    RxOutcome, RxRing, TxRing, TX_CMD_EOP, TX_CMD_IFCS, TX_CMD_RS, TX_MAX_CHUNK, TX_STA_DD,
};

/// A simulated EEPROM-backed register pair.
struct SimDev {
    eecd: u32,
    eerd: u32,
    words: [u16; 3],
    /// Fault injection: the done bit never rises.
    fail: bool,
}

impl SimDev {
    fn new(words: [u16; 3]) -> SimDev {
        SimDev { eecd: EECD_PRESENT, eerd: 0, words, fail: false }
    }
}

/// Drives one handshake to completion against the simulated device,
/// returning the outcome and how many EERD polls it took.
fn drive(m: &mut EepromRead, dev: &mut SimDev) -> (Result<u16, NicError>, u32) {
    let mut polls: u32 = 0;
    loop {
        match m.pending_action() {
            None => break,
            Some(RegAction::Read(off)) => {
                let v = if off == REG_EECD {
                    dev.eecd
                } else if off == REG_EERD {
                    polls += 1;
                    dev.eerd
                } else {
                    panic!("unexpected register read");
                };
                m.note_read(v);
            }
            Some(RegAction::Write(off, v)) => {
                if off == REG_EECD {
                    dev.eecd = v;
                } else if off == REG_EERD {
                    if !dev.fail && v & 1 != 0 {
                        let addr = ((v >> 8) & 0xff) as usize;
                        assert!(addr < 3, "address out of the simulated EEPROM");
                        dev.eerd = EERD_DONE | ((dev.words[addr] as u32) << 16);
                    } else {
                        dev.eerd = 0;
                    }
                } else {
                    panic!("unexpected register write");
                }
                m.note_written();
            }
        }
        assert!(polls <= EEPROM_POLL_RETRIES + 2, "handshake did not stay within its bound");
    }
    (m.result(), polls)
}

fn fresh_nic() -> NIC {
    NIC::new(Some(0x0010), Some(0x0007), true).unwrap()
}

#[test]
fn mac_little_endian_pairing() {
    let mut n = fresh_nic();
    n.read_mac(0x3412, 0x7856, 0xbc9a);
    assert_eq!(n.get_mac(), [0x12, 0x34, 0x56, 0x78, 0x9a, 0xbc]);
}

#[test]
fn mac_from_simulated_eeprom() {
    let mut n = fresh_nic();
    let mut dev = SimDev::new([0x3412, 0x7856, 0xbc9a]);
    n.detect_eeprom(dev.eecd);
    assert!(n.eeprom_exists);
    let mut words = [0u16; 3];
    for (i, w) in words.iter_mut().enumerate() {
        let mut m = n.eeprom_read(i as u8).unwrap();
        *w = drive(&mut m, &mut dev).0.unwrap();
    }
    n.read_mac(words[0], words[1], words[2]);
    assert_eq!(n.get_mac(), [0x12, 0x34, 0x56, 0x78, 0x9a, 0xbc]);
}

#[test]
fn eeprom_handshake_releases_request_bit() {
    let mut dev = SimDev::new([0xaaaa, 0xbbbb, 0xcccc]);
    let mut m = EepromRead::new(1, EEPROM_POLL_RETRIES);
    assert!(!m.is_done());
    let (r, _) = drive(&mut m, &mut dev);
    assert!(m.is_done());
    assert_eq!(r, Ok(0xbbbb));
    assert_eq!(dev.eecd & EECD_REQUEST, 0, "request bit must be released");
}

#[test]
fn eeprom_serialized_reads_do_not_mix() {
    let mut dev = SimDev::new([0x1111, 0x2222, 0x3333]);
    let mut a = EepromRead::new(0, EEPROM_POLL_RETRIES);
    let mut b = EepromRead::new(2, EEPROM_POLL_RETRIES);
    let (ra, _) = drive(&mut a, &mut dev);
    let (rb, _) = drive(&mut b, &mut dev);
    assert_eq!(ra, Ok(0x1111));
    assert_eq!(rb, Ok(0x3333));
}

#[test]
fn eeprom_poll_timeout_is_bounded() {
    let mut dev = SimDev::new([0x1234, 0, 0]);
    dev.fail = true;
    let mut m = EepromRead::new(0, EEPROM_POLL_RETRIES);
    let (r, polls) = drive(&mut m, &mut dev);
    assert_eq!(r, Err(NicError::HardwareTimeout));
    assert_eq!(polls, EEPROM_POLL_RETRIES + 1);
    assert_eq!(dev.eecd & EECD_REQUEST, 0, "request bit must be released on timeout too");
}

/// Drives the whole MAC recovery sequence against the simulated device.
fn drive_mac(mr: &mut MacRead, dev: &mut SimDev) {
    let mut steps: u32 = 0;
    loop {
        match mr.pending_action() {
            Some(RegAction::Read(off)) => {
                let v = if off == REG_EECD {
                    dev.eecd
                } else if off == REG_EERD {
                    dev.eerd
                } else {
                    panic!("unexpected register read");
                };
                mr.note_read(v);
            }
            Some(RegAction::Write(off, v)) => {
                if off == REG_EECD {
                    dev.eecd = v;
                } else if off == REG_EERD {
                    if !dev.fail && v & 1 != 0 {
                        let addr = ((v >> 8) & 0xff) as usize;
                        assert!(addr < 3, "address out of the simulated EEPROM");
                        dev.eerd = EERD_DONE | ((dev.words[addr] as u32) << 16);
                    } else {
                        dev.eerd = 0;
                    }
                } else {
                    panic!("unexpected register write");
                }
                mr.note_written();
            }
            None => {
                if mr.finished() {
                    break;
                }
                mr.advance();
            }
        }
        steps += 1;
        assert!(steps <= 3 * (EEPROM_POLL_RETRIES + 10), "sequence did not stay bounded");
    }
}

#[test]
fn mac_sequence_reads_words_in_order() {
    let mut n = fresh_nic();
    let mut dev = SimDev::new([0x3412, 0x7856, 0xbc9a]);
    n.detect_eeprom(dev.eecd);
    let mut mr = n.start_mac_read().unwrap();
    drive_mac(&mut mr, &mut dev);
    assert!(!mr.timed_out());
    n.load_mac(&mr);
    assert_eq!(n.get_mac(), [0x12, 0x34, 0x56, 0x78, 0x9a, 0xbc]);
}

#[test]
fn mac_sequence_timeout_aborts() {
    let mut n = fresh_nic();
    let mut dev = SimDev::new([0x3412, 0x7856, 0xbc9a]);
    dev.fail = true;
    n.detect_eeprom(dev.eecd);
    let mut mr = n.start_mac_read().unwrap();
    drive_mac(&mut mr, &mut dev);
    assert!(mr.finished());
    assert!(mr.timed_out(), "a handshake timeout must abort the sequence");
    assert_eq!(n.get_mac(), [0; 6], "no MAC may be loaded from an aborted sequence");
}

#[test]
fn mac_sequence_rejected_without_eeprom() {
    let mut n = fresh_nic();
    n.detect_eeprom(0);
    assert_eq!(n.start_mac_read().err(), Some(NicError::EepromAbsent));
}

#[test]
fn ring_setup_programs_registers_enable_last() {
    let mut n = fresh_nic();
    let bufs: Vec<u64> = vec![0x1000, 0x2000, 0x3000, 0x4000];
    n.init_desc(8, &bufs);
    let plan = n.ring_setup(0x1_2345_6000, 0xa_0000_8000, 0x0100, 0x0200);
    let expected = vec![
        RegAction::Write(REG_TDBAL, 0x2345_6000),
        RegAction::Write(REG_TDBAH, 0x1),
        RegAction::Write(REG_TDLEN, 8 * DESC_BYTES),
        RegAction::Write(REG_TDH, 0),
        RegAction::Write(REG_TDT, 0),
        RegAction::Write(REG_RDBAL, 0x0000_8000),
        RegAction::Write(REG_RDBAH, 0xa),
        RegAction::Write(REG_RDLEN, 4 * DESC_BYTES),
        RegAction::Write(REG_RDH, 0),
        RegAction::Write(REG_RDT, 3),
        RegAction::Write(REG_TCTL, 0x0100 | TCTL_ENABLE),
        RegAction::Write(REG_RCTL, 0x0200 | RCTL_ENABLE),
    ];
    assert_eq!(plan, expected);
}

#[test]
fn reclaim_tx_frees_only_finished_slots() {
    let mut n = fresh_nic();
    let bufs: Vec<u64> = vec![0x8000];
    n.init_desc(4, &bufs);
    assert_eq!(n.write(true, 0x1000, 64), Ok(64));
    assert_eq!(n.write(true, 0x2000, 64), Ok(64));
    assert_eq!(n.reclaim_tx(), 0, "an unfinished descriptor must not be reclaimed");
    n.tx.hw_complete(0);
    assert_eq!(n.reclaim_tx(), 1);
    assert_eq!(n.tx.head, 1);
    assert_eq!(n.tx.in_flight, 1);
}

#[test]
fn eeprom_absent_is_rejected() {
    let mut n = fresh_nic();
    n.detect_eeprom(0);
    assert!(!n.eeprom_exists);
    assert_eq!(n.eeprom_read(0).err(), Some(NicError::EepromAbsent));
}

#[test]
fn detect_eeprom_reads_presence_bit() {
    let mut n = fresh_nic();
    n.detect_eeprom(EECD_PRESENT);
    assert!(n.eeprom_exists);
    n.detect_eeprom(!EECD_PRESENT);
    assert!(!n.eeprom_exists);
}

#[test]
fn new_rejects_missing_pci_values() {
    assert_eq!(
        NIC::new(None, Some(1), true).err(),
        Some("Invalid PCI informations for NIC!")
    );
    assert_eq!(
        NIC::new(Some(1), None, true).err(),
        Some("Invalid PCI informations for NIC!")
    );
    assert_eq!(NIC::new(Some(1), Some(1), false).err(), Some("Invalid BAR for NIC!"));
}

#[test]
fn new_captures_pci_values() {
    let n = fresh_nic();
    assert_eq!(n.status_reg, 0x0010);
    assert_eq!(n.command_reg, 0x0007);
    assert_eq!(n.get_mac(), [0; 6]);
    assert_eq!(n.get_name().as_slice(), b"eth0");
}

#[test]
fn init_desc_leaves_tx_empty_and_rx_armed() {
    let mut n = fresh_nic();
    let bufs: Vec<u64> = vec![0x1000, 0x2000, 0x3000, 0x4000];
    n.init_desc(8, &bufs);
    assert_eq!(n.tx.descs.len(), 8);
    for d in n.tx.descs.iter() {
        assert_eq!((d.addr, d.length, d.cmd, d.status), (0, 0, 0, 0));
    }
    assert_eq!(n.rx.descs.len(), 4);
    for (i, d) in n.rx.descs.iter().enumerate() {
        assert_eq!(d.addr, bufs[i]);
        assert_eq!((d.status, d.errors), (0, 0));
        for other in n.rx.descs.iter().skip(i + 1) {
            assert_ne!(d.addr, other.addr, "two receive slots share a buffer");
        }
    }
}

#[test]
fn transmit_chunks_long_payload() {
    let mut t = TxRing::new(8);
    let r = t.transmit(0x10000, 200000);
    assert_eq!(r, Ok(4));
    // 200000 = 3 * 65535 + 3395
    let lens: Vec<u16> = (0..4).map(|i| t.descs[i].length).collect();
    assert_eq!(lens, vec![65535, 65535, 65535, 3395]);
    for k in 0..4 {
        let d = &t.descs[k];
        assert_eq!(d.addr, 0x10000 + (k as u64) * TX_MAX_CHUNK as u64);
        assert_eq!(d.cmd & (TX_CMD_IFCS | TX_CMD_RS), TX_CMD_IFCS | TX_CMD_RS);
        assert_eq!(d.cmd & TX_CMD_EOP != 0, k == 3, "end-of-packet only on the last chunk");
    }
    assert_eq!(t.in_flight, 4);
    assert_eq!(t.tail, 4);
}

#[test]
fn transmit_exact_chunk_boundaries() {
    let mut t = TxRing::new(8);
    assert_eq!(t.transmit(0x1000, TX_MAX_CHUNK), Ok(1));
    assert_eq!(t.descs[0].length as usize, TX_MAX_CHUNK);
    assert_ne!(t.descs[0].cmd & TX_CMD_EOP, 0);
    assert_eq!(t.transmit(0x9000, TX_MAX_CHUNK + 1), Ok(2));
    assert_eq!(t.descs[1].length as usize, TX_MAX_CHUNK);
    assert_eq!(t.descs[1].cmd & TX_CMD_EOP, 0);
    assert_eq!(t.descs[2].length, 1);
    assert_ne!(t.descs[2].cmd & TX_CMD_EOP, 0);
}

#[test]
fn ninth_write_hits_ring_full_without_corruption() {
    let mut n = fresh_nic();
    let bufs: Vec<u64> = vec![0x8000];
    n.init_desc(8, &bufs);
    for i in 0..8u64 {
        let r = n.write(true, 0x10000 + i * 0x100, 64);
        assert_eq!(r, Ok(64));
    }
    let before = n.tx.descs.clone();
    let r9 = n.write(true, 0xdead0000, 64);
    assert_eq!(r9, Err(NicError::RingFull));
    for (a, b) in n.tx.descs.iter().zip(before.iter()) {
        assert_eq!(a, b, "a full ring must be left untouched");
    }
    assert_eq!(n.tx.descs[0].addr, 0x10000, "descriptor 0 must not be overwritten");
    assert_eq!(n.tx.in_flight, 8);
}

#[test]
fn reclaim_frees_only_finished_slots() {
    let mut t = TxRing::new(4);
    assert_eq!(t.transmit(0x1000, 64), Ok(1));
    assert_eq!(t.transmit(0x2000, 64), Ok(1));
    assert_eq!(t.transmit(0x3000, 64), Ok(1));
    // nothing finished yet
    assert_eq!(t.reclaim(), 0);
    // the card finishes the first two
    t.hw_complete(0);
    t.hw_complete(1);
    assert_ne!(t.descs[0].status & TX_STA_DD, 0);
    assert_eq!(t.reclaim(), 2);
    assert_eq!(t.in_flight, 1);
    assert_eq!(t.head, 2);
    // the freed room can be filled again
    assert_eq!(t.transmit(0x4000, 64), Ok(1));
    assert_eq!(t.transmit(0x5000, 64), Ok(1));
    assert_eq!(t.transmit(0x6000, 64), Ok(1));
    assert_eq!(t.in_flight, 4);
    assert_eq!(t.transmit(0x7000, 64), Err(NicError::RingFull));
}

#[test]
fn transmit_backpressure_on_partial_fit() {
    let mut t = TxRing::new(4);
    for i in 0..3u64 {
        assert_eq!(t.transmit(0x1000 + i * 0x100, 64), Ok(1));
    }
    // one slot free, but the payload needs two
    let before: Vec<_> = t.descs.clone();
    assert_eq!(t.transmit(0x9000, TX_MAX_CHUNK + 1), Err(NicError::RingFull));
    assert_eq!(t.descs, before, "a payload that does not fit must touch nothing");
    assert_eq!(t.in_flight, 3);
}

#[test]
fn write_path_splits_across_descriptors() {
    let mut n = fresh_nic();
    let bufs: Vec<u64> = vec![0x1000];
    n.init_desc(8, &bufs);
    assert_eq!(n.write(true, 0x20000, 70000), Ok(70000));
    assert_eq!(n.tx.in_flight, 2);
    assert_eq!(n.tx.descs[0].length as usize, TX_MAX_CHUNK);
    assert_eq!(n.tx.descs[1].length as usize, 70000 - TX_MAX_CHUNK);
}

#[test]
fn receive_not_ready_without_completion() {
    let bufs: Vec<u64> = vec![0x1000, 0x2000];
    let mut r = RxRing::new(&bufs);
    assert!(!r.ready());
    assert_eq!(r.receive(0x3000), RxOutcome::NotReady);
    assert_eq!(r.next, 0);
    assert_eq!(r.descs[0].addr, 0x1000);
}

#[test]
fn receive_discards_errored_frame_without_delivery() {
    let bufs: Vec<u64> = vec![0x1000, 0x2000];
    let mut r = RxRing::new(&bufs);
    r.hw_write(0, 333, 9, 0x01);
    let o = r.receive(0x3000);
    assert_eq!(o, RxOutcome::Discarded(NicError::ChecksumOrFrameError));
    // recycled in place: same buffer, card-written fields cleared, cursor advanced
    assert_eq!(r.descs[0].addr, 0x1000);
    assert_eq!((r.descs[0].status, r.descs[0].errors, r.descs[0].length), (0, 0, 0));
    assert_eq!(r.next, 1);
}

#[test]
fn receive_delivers_good_frame_and_rearms() {
    let bufs: Vec<u64> = vec![0x1000, 0x2000];
    let mut r = RxRing::new(&bufs);
    r.hw_write(0, 150, 0xbeef, 0);
    let o = r.receive(0x3000);
    assert_eq!(o, RxOutcome::Delivered { addr: 0x1000, length: 150, checksum: 0xbeef });
    assert_eq!(r.descs[0].addr, 0x3000, "the slot must keep the fresh buffer");
    assert_eq!(r.next, 1);
}

#[test]
fn read_path_silences_errors_and_reports_more() {
    let mut n = fresh_nic();
    let bufs: Vec<u64> = vec![0x1000, 0x2000, 0x3000];
    n.init_desc(4, &bufs);
    // an errored frame, then two good ones
    n.rx.hw_write(0, 60, 0, 0x01);
    n.rx.hw_write(1, 70, 5, 0);
    n.rx.hw_write(2, 80, 6, 0);
    // the errored frame is dropped silently
    assert_eq!(n.read(0x4000), None);
    // the first good frame reports another one waiting
    let d = n.read(0x4000).unwrap();
    assert_eq!((d.addr, d.length, d.checksum, d.more), (0x2000, 70, 5, true));
    // the second is the last
    let d = n.read(0x5000).unwrap();
    assert_eq!((d.addr, d.length, d.checksum, d.more), (0x3000, 80, 6, false));
    assert_eq!(n.read(0x6000), None);
}

#[test]
fn write_path_link_down_and_empty_payload() {
    let mut n = fresh_nic();
    let bufs: Vec<u64> = vec![0x1000];
    n.init_desc(4, &bufs);
    assert_eq!(n.write(false, 0x2000, 64), Err(NicError::LinkDown));
    assert_eq!(n.tx.in_flight, 0);
    assert_eq!(n.write(true, 0x2000, 0), Ok(0));
    assert_eq!(n.tx.in_flight, 0);
    assert_eq!(n.write(true, 0x2000, 64), Ok(64));
    assert_eq!(n.tx.in_flight, 1);
}

#[test]
fn is_up_reads_link_bit() {
    let n = fresh_nic();
    assert!(n.is_up(0x2));
    assert!(!n.is_up(!0x2u32));
}

#[test]
fn addresses_are_stored_and_returned() {
    let mut n = fresh_nic();
    assert!(n.get_addresses().is_empty());
    n.set_addresses(vec![BindAddr::V4([10, 0, 0, 1]), BindAddr::V6([1; 16])]);
    assert_eq!(
        n.get_addresses().as_slice(),
        &[BindAddr::V4([10, 0, 0, 1]), BindAddr::V6([1; 16])]
    );
}
