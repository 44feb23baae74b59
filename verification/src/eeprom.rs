//! The EEPROM read handshake.
//!
//! Recovering one 16-bit EEPROM word takes four register steps: acquire
//! the EEPROM by setting the request bit in EECD, write the read command
//! into EERD, poll EERD until its done bit rises (bounded by a retry
//! budget), and release the request bit again. The handshake is modeled
//! as a state machine: [`EepromRead::pending_action`] names the next
//! register access to perform, and the caller reports each outcome with
//! [`EepromRead::note_read`] or [`EepromRead::note_written`]. One machine
//! must be driven to completion before another is started — the owner
//! serializes handshakes — since the card has a single read cursor.

use vstd::prelude::*;
use crate::regs::{
    RegAction, REG_EECD, REG_EERD, eerd_command, eerd_done, eerd_data, eecd_acquire,
    eecd_release,
};
use crate::err::NicError;

verus! {

/// How many extra EERD polls a handshake performs before giving up.
pub const EEPROM_POLL_RETRIES: u32 = 1000;

/// Where a handshake stands, and what it remembers.
#[derive(PartialEq, Eq, Structural, Clone, Copy, Debug)]
pub enum EepromPhase {
    /// About to read EECD so the request bit can be set on top of it.
    AcquireRead,
    /// Holds the EECD value read; about to write it back with the request bit set.
    AcquireWrite(u32),
    /// About to write the read command into EERD.
    Issue,
    /// About to read EERD, watching for the done bit.
    Poll,
    /// Polling ended; holds the data word, or nothing on timeout.
    /// About to read EECD so the request bit can be cleared.
    ReleaseRead(Option<u16>),
    /// Holds the EECD value read and the outcome; about to write EECD
    /// back with the request bit cleared.
    ReleaseWrite(u32, Option<u16>),
    /// The handshake is over; holds the data word, or nothing on timeout.
    Done(Option<u16>),
}

/// One EEPROM word read in progress.
#[derive(PartialEq, Eq, Structural, Clone, Copy, Debug)]
pub struct EepromRead {
    /// The EEPROM word address this handshake asks for.
    pub addr: u8,
    /// How many more EERD polls may come back not-done before the
    /// handshake gives up.
    pub retries_left: u32,
    /// Where the handshake stands.
    pub phase: EepromPhase,
}

/// The register access a handshake in state `m` asks for next, if any.
pub open spec fn pending(m: EepromRead) -> Option<RegAction> {
    match m.phase {
        EepromPhase::AcquireRead => Some(RegAction::Read(REG_EECD)),
        EepromPhase::AcquireWrite(v) => Some(RegAction::Write(REG_EECD, eecd_acquire(v))),
        EepromPhase::Issue => Some(RegAction::Write(REG_EERD, eerd_command(m.addr))),
        EepromPhase::Poll => Some(RegAction::Read(REG_EERD)),
        EepromPhase::ReleaseRead(_) => Some(RegAction::Read(REG_EECD)),
        EepromPhase::ReleaseWrite(v, _) => Some(RegAction::Write(REG_EECD, eecd_release(v))),
        EepromPhase::Done(_) => None,
    }
}

/// Whether the pending action is a register read.
pub open spec fn expects_read(m: EepromRead) -> bool {
    ||| m.phase is AcquireRead
    ||| m.phase is Poll
    ||| m.phase is ReleaseRead
}

/// Whether the pending action is a register write.
pub open spec fn expects_write(m: EepromRead) -> bool {
    ||| m.phase is AcquireWrite
    ||| m.phase is Issue
    ||| m.phase is ReleaseWrite
}

/// The state after the pending register read returned `v`.
pub open spec fn step_read(m: EepromRead, v: u32) -> EepromRead {
    match m.phase {
        EepromPhase::AcquireRead => (EepromRead { phase: EepromPhase::AcquireWrite(v), ..m }),
        EepromPhase::Poll => if eerd_done(v) {
            EepromRead { phase: EepromPhase::ReleaseRead(Some(eerd_data(v))), ..m }
        } else if m.retries_left > 0 {
            EepromRead { retries_left: (m.retries_left - 1) as u32, ..m }
        } else {
            EepromRead { phase: EepromPhase::ReleaseRead(None), ..m }
        },
        EepromPhase::ReleaseRead(r) => (EepromRead { phase: EepromPhase::ReleaseWrite(v, r), ..m }),
        _ => m,
    }
}

/// The state after the pending register write was performed.
pub open spec fn step_write(m: EepromRead) -> EepromRead {
    match m.phase {
        EepromPhase::AcquireWrite(_) => (EepromRead { phase: EepromPhase::Issue, ..m }),
        EepromPhase::Issue => (EepromRead { phase: EepromPhase::Poll, ..m }),
        EepromPhase::ReleaseWrite(_, r) => (EepromRead { phase: EepromPhase::Done(r), ..m }),
        _ => m,
    }
}

impl EepromRead {
    /// Starts a handshake for EEPROM word `addr` with the given poll
    /// retry budget.
    pub fn new(addr: u8, retries: u32) -> (m: Self)
        ensures
            m.addr == addr,
            m.retries_left == retries,
            m.phase is AcquireRead,
    {
        EepromRead { addr, retries_left: retries, phase: EepromPhase::AcquireRead }
    }

    /// The register access to perform next, or `None` once the handshake
    /// is over.
    pub fn pending_action(&self) -> (r: Option<RegAction>)
        ensures
            r == pending(*self),
    {
        match self.phase {
            EepromPhase::AcquireRead => Some(RegAction::Read(REG_EECD)),
            EepromPhase::AcquireWrite(v) => Some(RegAction::Write(REG_EECD, v | crate::regs::EECD_REQUEST)),
            EepromPhase::Issue => Some(
                RegAction::Write(REG_EERD, crate::regs::EERD_START | ((self.addr as u32) << 8)),
            ),
            EepromPhase::Poll => Some(RegAction::Read(REG_EERD)),
            EepromPhase::ReleaseRead(_) => Some(RegAction::Read(REG_EECD)),
            EepromPhase::ReleaseWrite(v, _) => Some(
                RegAction::Write(REG_EECD, v & !crate::regs::EECD_REQUEST),
            ),
            EepromPhase::Done(_) => None,
        }
    }

    /// Reports the value the pending register read returned.
    pub fn note_read(&mut self, v: u32)
        requires
            expects_read(*old(self)),
        ensures
            *final(self) == step_read(*old(self), v),
    {
        match self.phase {
            EepromPhase::AcquireRead => {
                self.phase = EepromPhase::AcquireWrite(v);
            }
            EepromPhase::Poll => {
                if v & crate::regs::EERD_DONE != 0 {
                    let data: u16 = ((v >> 16) & 0xffff) as u16;
                    self.phase = EepromPhase::ReleaseRead(Some(data));
                } else if self.retries_left > 0 {
                    self.retries_left = self.retries_left - 1;
                } else {
                    self.phase = EepromPhase::ReleaseRead(None);
                }
            }
            EepromPhase::ReleaseRead(r) => {
                self.phase = EepromPhase::ReleaseWrite(v, r);
            }
            _ => {}
        }
    }

    /// Reports that the pending register write was performed.
    pub fn note_written(&mut self)
        requires
            expects_write(*old(self)),
        ensures
            *final(self) == step_write(*old(self)),
    {
        match self.phase {
            EepromPhase::AcquireWrite(_) => {
                self.phase = EepromPhase::Issue;
            }
            EepromPhase::Issue => {
                self.phase = EepromPhase::Poll;
            }
            EepromPhase::ReleaseWrite(_, r) => {
                self.phase = EepromPhase::Done(r);
            }
            _ => {}
        }
    }

    /// Whether the handshake is over.
    pub fn is_done(&self) -> (r: bool)
        ensures
            r == (self.phase is Done),
    {
        match self.phase {
            EepromPhase::Done(_) => true,
            _ => false,
        }
    }

    /// The word the handshake recovered, or `HardwareTimeout` if the
    /// done bit never rose within the retry budget.
    pub fn result(&self) -> (r: Result<u16, NicError>)
        requires
            self.phase is Done,
        ensures
            self.phase matches EepromPhase::Done(Some(d)) ==> r == Ok::<u16, NicError>(d),
            self.phase matches EepromPhase::Done(None) ==> r == Err::<u16, NicError>(
                NicError::HardwareTimeout,
            ),
    {
        match self.phase {
            EepromPhase::Done(Some(d)) => Ok(d),
            _ => Err(NicError::HardwareTimeout),
        }
    }
}

/// The MAC recovery sequence: three EEPROM handshakes at word offsets
/// 0, 1 and 2, in that order, and nothing else. Each inner handshake
/// carries its own offset as its word address, so the words cannot be
/// swapped or repeated; a single timeout aborts the whole sequence,
/// which is how an EEPROM fault surfaces as a bring-up failure. The
/// poll retry budget spans the whole sequence — polls spent on an
/// earlier word are not granted again — so bring-up as a whole is
/// bounded by it.
#[derive(PartialEq, Eq, Structural, Clone, Copy, Debug)]
pub enum MacRead {
    /// The handshake for word `off` is in progress; the words before
    /// `off` are already recovered.
    Reading { off: u8, w0: u16, w1: u16, m: EepromRead },
    /// All three words are recovered: word 0, word 1, word 2.
    Done { w0: u16, w1: u16, w2: u16 },
    /// A handshake timed out: the MAC cannot be recovered and bring-up
    /// must abort.
    TimedOut,
}

impl MacRead {
    /// The sequence only ever reads words 0, 1 and 2, and the inner
    /// handshake always asks for the word the sequence stands at.
    pub open spec fn wf(&self) -> bool {
        self matches MacRead::Reading { off, m, .. } ==> off <= 2 && m.addr == off
    }

    /// Starts the sequence at word offset 0.
    pub fn start(retries: u32) -> (r: Self)
        ensures
            r.wf(),
            (r matches MacRead::Reading { off, m, .. } && off == 0 && m.addr == 0
                && m.retries_left == retries && m.phase is AcquireRead),
    {
        MacRead::Reading { off: 0, w0: 0, w1: 0, m: EepromRead::new(0, retries) }
    }

    /// The register access to perform next, or `None` when the current
    /// handshake is over (see [`MacRead::advance`]) or the sequence is.
    pub fn pending_action(&self) -> (r: Option<RegAction>)
        ensures
            *self matches MacRead::Reading { m, .. } ==> r == pending(m),
            !(self is Reading) ==> r is None,
    {
        match self {
            MacRead::Reading { m, .. } => m.pending_action(),
            _ => None,
        }
    }

    /// Reports the value the pending register read returned.
    pub fn note_read(&mut self, v: u32)
        requires
            *old(self) matches MacRead::Reading { m, .. } && expects_read(m),
        ensures
            final(self).wf() == old(self).wf(),
            *old(self) matches MacRead::Reading { off, w0, w1, m } ==> *final(self) == (
            MacRead::Reading { off, w0, w1, m: step_read(m, v) }),
    {
        match self {
            MacRead::Reading { m, .. } => m.note_read(v),
            _ => {}
        }
    }

    /// Reports that the pending register write was performed.
    pub fn note_written(&mut self)
        requires
            *old(self) matches MacRead::Reading { m, .. } && expects_write(m),
        ensures
            final(self).wf() == old(self).wf(),
            *old(self) matches MacRead::Reading { off, w0, w1, m } ==> *final(self) == (
            MacRead::Reading { off, w0, w1, m: step_write(m) }),
    {
        match self {
            MacRead::Reading { m, .. } => m.note_written(),
            _ => {}
        }
    }

    /// Moves past a finished handshake: its word is recorded and the
    /// next offset's handshake starts — 0, then 1, then 2, then done —
    /// with whatever retry budget is left, while a timeout aborts the
    /// whole sequence.
    pub fn advance(&mut self)
        requires
            old(self).wf(),
            *old(self) matches MacRead::Reading { m, .. } && m.phase is Done,
        ensures
            final(self).wf(),
            *old(self) matches MacRead::Reading { off, w0, w1, m } ==> {
                &&& (m.phase matches EepromPhase::Done(None) ==> *final(self) is TimedOut)
                &&& (m.phase matches EepromPhase::Done(Some(w)) ==> {
                    &&& (off == 0 ==> {
                        &&& *final(self) matches MacRead::Reading { off: o2, w0: x0, m: m2, .. }
                        &&& o2 == 1
                        &&& x0 == w
                        &&& m2.addr == 1
                        &&& m2.retries_left == m.retries_left
                        &&& m2.phase is AcquireRead
                    })
                    &&& (off == 1 ==> {
                        &&& *final(self) matches MacRead::Reading { off: o2, w0: x0, w1: x1, m: m2 }
                        &&& o2 == 2
                        &&& x0 == w0
                        &&& x1 == w
                        &&& m2.addr == 2
                        &&& m2.retries_left == m.retries_left
                        &&& m2.phase is AcquireRead
                    })
                    &&& (off == 2 ==> *final(self) == (MacRead::Done { w0, w1, w2: w }))
                })
            },
    {
        let (off, w0, w1, m) = match *self {
            MacRead::Reading { off, w0, w1, m } => (off, w0, w1, m),
            _ => {
                proof {
                    assert(false);
                }
                return;
            }
        };
        match m.result() {
            Err(_) => {
                *self = MacRead::TimedOut;
            }
            Ok(w) => {
                if off == 0 {
                    *self = MacRead::Reading {
                        off: 1,
                        w0: w,
                        w1: 0,
                        m: EepromRead::new(1, m.retries_left),
                    };
                } else if off == 1 {
                    *self = MacRead::Reading {
                        off: 2,
                        w0,
                        w1: w,
                        m: EepromRead::new(2, m.retries_left),
                    };
                } else {
                    *self = MacRead::Done { w0, w1, w2: w };
                }
            }
        }
    }

    /// Whether the sequence is over, well or badly. While the current
    /// handshake still runs this is false even when [`MacRead::pending_action`]
    /// is `None`: then [`MacRead::advance`] is what comes next.
    pub fn finished(&self) -> (r: bool)
        ensures
            r == !(self is Reading),
    {
        match self {
            MacRead::Reading { .. } => false,
            _ => true,
        }
    }

    /// Whether the sequence was aborted by a handshake timeout.
    pub fn timed_out(&self) -> (r: bool)
        ensures
            r == (self is TimedOut),
    {
        match self {
            MacRead::TimedOut => true,
            _ => false,
        }
    }
}

/// The state after a whole driving trace, oldest step first: `Some(v)`
/// delivers the value a register read returned, `None` reports a
/// register write as performed.
pub open spec fn apply_trace(m: EepromRead, tr: Seq<Option<u32>>) -> EepromRead
    decreases tr.len(),
{
    if tr.len() == 0 {
        m
    } else {
        apply_trace(
            match tr[0] {
                Some(v) => step_read(m, v),
                None => step_write(m),
            },
            tr.drop_first(),
        )
    }
}

/// The state after a run of poll reads returning `vs`, oldest first.
pub open spec fn apply_reads(m: EepromRead, vs: Seq<u32>) -> EepromRead
    decreases vs.len(),
{
    if vs.len() == 0 {
        m
    } else {
        apply_reads(step_read(m, vs[0]), vs.drop_first())
    }
}

/// The data word a state carries once polling has decided, if any.
pub open spec fn data_of(m: EepromRead) -> Option<u16> {
    match m.phase {
        EepromPhase::ReleaseRead(r) => r,
        EepromPhase::ReleaseWrite(_, r) => r,
        EepromPhase::Done(r) => r,
        _ => None,
    }
}

proof fn lemma_trace_data_source(m: EepromRead, tr: Seq<Option<u32>>)
    ensures
        apply_trace(m, tr).addr == m.addr,
        data_of(apply_trace(m, tr)) matches Some(d) ==> data_of(m) == Some(d) || exists|i: int|
            #![trigger tr[i]]
            {
                &&& 0 <= i < tr.len()
                &&& tr[i] matches Some(v)
                &&& eerd_done(v)
                &&& d == eerd_data(v)
            },
    decreases tr.len(),
{
    if tr.len() > 0 {
        let m1 = match tr[0] {
            Some(v) => step_read(m, v),
            None => step_write(m),
        };
        lemma_trace_data_source(m1, tr.drop_first());
        match data_of(apply_trace(m, tr)) {
            Some(d) => {
                if data_of(m1) == Some(d) {
                    if data_of(m) != Some(d) {
                        assert({
                            &&& tr[0] matches Some(v)
                            &&& eerd_done(v)
                            &&& d == eerd_data(v)
                        });
                    }
                } else {
                    let i = choose|i: int|
                        #![trigger tr.drop_first()[i]]
                        {
                            &&& 0 <= i < tr.drop_first().len()
                            &&& tr.drop_first()[i] matches Some(v)
                            &&& eerd_done(v)
                            &&& d == eerd_data(v)
                        };
                    assert(tr.drop_first()[i] == tr[i + 1]);
                    assert({
                        &&& 0 <= i + 1 < tr.len()
                        &&& tr[i + 1] matches Some(v)
                        &&& eerd_done(v)
                        &&& d == eerd_data(v)
                    });
                }
            }
            None => {}
        }
    }
}

/// A complete handshake never mixes another caller's data into its
/// result: however a machine for word address `addr` is driven, the
/// address it asks for never changes, and if it finishes holding a data
/// word, that word was decoded — done bit checked, data field taken —
/// from one of the register values delivered to this machine itself.
/// Together with [`lemma_issue_encodes_own_addr`] this is why
/// serialized handshakes cannot cross results: each machine asks only
/// for its own address and returns only what it itself polled.
pub proof fn lemma_run_unmixed(addr: u8, retries: u32, tr: Seq<Option<u32>>)
    ensures
        ({
            let end = apply_trace(
                EepromRead { addr, retries_left: retries, phase: EepromPhase::AcquireRead },
                tr,
            );
            &&& end.addr == addr
            &&& (end.phase matches EepromPhase::Done(Some(d)) ==> exists|i: int|
                #![trigger tr[i]]
                {
                    &&& 0 <= i < tr.len()
                    &&& tr[i] matches Some(v)
                    &&& eerd_done(v)
                    &&& d == eerd_data(v)
                })
        }),
{
    lemma_trace_data_source(
        EepromRead { addr, retries_left: retries, phase: EepromPhase::AcquireRead },
        tr,
    );
}

/// The only EERD command a handshake ever issues encodes its own word
/// address.
pub proof fn lemma_issue_encodes_own_addr(m: EepromRead)
    ensures
        m.phase is Issue ==> pending(m) == Some(
            RegAction::Write(REG_EERD, eerd_command(m.addr)),
        ),
{
}

/// No step of a handshake ever changes the word address it asks for.
pub proof fn lemma_addr_stable(m: EepromRead, v: u32)
    ensures
        step_read(m, v).addr == m.addr,
        step_write(m).addr == m.addr,
{
}

/// Once polling has given up, the release steps carry the empty outcome
/// through to the end: whatever EECD value the release read returns,
/// the finished handshake holds no data and its result is
/// `HardwareTimeout`.
pub proof fn lemma_timeout_surfaces(m: EepromRead, v: u32)
    requires
        m.phase matches EepromPhase::ReleaseRead(None),
    ensures
        step_write(step_read(m, v)).phase matches EepromPhase::Done(r) && r is None,
{
}

/// Polling is bounded: if the card never raises the done bit, a
/// handshake in the poll phase gives up after exactly `retries_left + 1`
/// reads, moving on to release with no data — the caller then sees
/// `HardwareTimeout`, never an unbounded spin.
pub proof fn lemma_poll_times_out(m: EepromRead, vs: Seq<u32>)
    requires
        m.phase is Poll,
        vs.len() == m.retries_left + 1,
        forall|i: int| 0 <= i < vs.len() ==> !eerd_done(vs[i]),
    ensures
        apply_reads(m, vs).phase matches EepromPhase::ReleaseRead(r) && r is None,
        apply_reads(m, vs).addr == m.addr,
    decreases vs.len(),
{
    let m1 = step_read(m, vs[0]);
    if m.retries_left == 0 {
        assert(m1.phase is ReleaseRead);
        assert(vs.drop_first().len() == 0);
    } else {
        assert(m1.phase is Poll && m1.retries_left == m.retries_left - 1);
        assert(forall|i: int|
            0 <= i < vs.drop_first().len() ==> !eerd_done(#[trigger] vs.drop_first()[i]));
        lemma_poll_times_out(m1, vs.drop_first());
    }
}

} // verus!
