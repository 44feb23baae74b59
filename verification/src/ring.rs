//! The transmit and receive descriptor rings.
//!
//! Each ring is an array of fixed-layout descriptors handed between the
//! driver and the card. The driver fills transmit descriptors in tail
//! order and never reuses a slot that is still in flight; the card marks
//! a descriptor done by setting the low bit of its status byte. On the
//! receive side every slot stays armed with its own DMA buffer, no two
//! slots ever share one, and a frame whose descriptor carries error bits
//! is dropped without its payload being handed anywhere.
//!
//! The card's own writes (status bytes, received lengths) enter the
//! model through the `hw_` methods: in a live system the kernel reads
//! them out of the volatile descriptor memory and reports them here.

use vstd::prelude::*;
use vstd::arithmetic::div_mod::{
    lemma_fundamental_div_mod, lemma_fundamental_div_mod_converse_mod, lemma_mod_bound,
    lemma_mod_equivalence, lemma_small_mod,
};
use crate::err::NicError;

verus! {

/// The longest payload one descriptor can carry.
pub const TX_MAX_CHUNK: usize = 65535;
/// The most descriptors a ring can hold.
pub const RING_MAX: usize = 65536;

/// Transmit command flag: end of packet.
pub const TX_CMD_EOP: u8 = 0x01;
/// Transmit command flag: insert the frame check sequence.
pub const TX_CMD_IFCS: u8 = 0x02;
/// Transmit command flag: insert a checksum.
pub const TX_CMD_IC: u8 = 0x04;
/// Transmit command flag: report status.
pub const TX_CMD_RS: u8 = 0x08;
/// Transmit command flag: report packet sent.
pub const TX_CMD_RPS: u8 = 0x10;
/// Transmit command flag: VLAN packet enable.
pub const TX_CMD_VLE: u8 = 0x40;
/// Transmit command flag: interrupt delay enable.
pub const TX_CMD_IDE: u8 = 0x80;

/// Status flag written by the card: descriptor done.
pub const TX_STA_DD: u8 = 0x01;
/// Status flag written by the card: descriptor done.
pub const RX_STA_DD: u8 = 0x01;

/// One legacy transmit descriptor.
#[derive(PartialEq, Eq, Structural, Clone, Copy, Debug)]
pub struct TxDesc {
    /// Physical address of the payload.
    pub addr: u64,
    /// Payload length.
    pub length: u16,
    /// Offset at which an inserted checksum is placed.
    pub cso: u8,
    /// Command flags.
    pub cmd: u8,
    /// Status flags, written by the card.
    pub status: u8,
    /// Offset at which checksum computation starts.
    pub css: u8,
    /// VLAN and special-handling field.
    pub special: u16,
}

/// One legacy receive descriptor.
#[derive(PartialEq, Eq, Structural, Clone, Copy, Debug)]
pub struct RxDesc {
    /// Physical address of the armed DMA buffer.
    pub addr: u64,
    /// Received payload length, written by the card.
    pub length: u16,
    /// Packet checksum, written by the card.
    pub checksum: u16,
    /// Status flags, written by the card.
    pub status: u8,
    /// Error flags, written by the card.
    pub errors: u8,
    /// VLAN and special-handling field.
    pub special: u16,
}

/// An all-zero transmit descriptor: the empty state of a ring slot.
pub open spec fn zero_tx_desc() -> TxDesc {
    TxDesc { addr: 0, length: 0, cso: 0, cmd: 0, status: 0, css: 0, special: 0 }
}

/// A receive descriptor freshly armed with buffer `buf`, all
/// card-written fields cleared.
pub open spec fn armed_rx_desc(buf: u64) -> RxDesc {
    RxDesc { addr: buf, length: 0, checksum: 0, status: 0, errors: 0, special: 0 }
}

/// Whether the card has marked a transmit descriptor done.
pub open spec fn tx_done(d: TxDesc) -> bool {
    d.status & TX_STA_DD != 0
}

/// Whether the card has marked a receive descriptor done.
pub open spec fn rx_done(d: RxDesc) -> bool {
    d.status & RX_STA_DD != 0
}

/// How many descriptors a payload of `len` bytes needs: the ceiling of
/// `len` over the per-descriptor maximum.
pub open spec fn chunks_of(len: int) -> int {
    len / (TX_MAX_CHUNK as int) + if len % (TX_MAX_CHUNK as int) == 0 {
        0int
    } else {
        1int
    }
}

/// The length of chunk `k` of a payload of `len` bytes: the maximum,
/// except on the final chunk, which takes what is left.
pub open spec fn chunk_len(len: int, k: int) -> int {
    if len - k * (TX_MAX_CHUNK as int) < TX_MAX_CHUNK as int {
        len - k * (TX_MAX_CHUNK as int)
    } else {
        TX_MAX_CHUNK as int
    }
}

/// The command byte of chunk `k` of `c`: insert-FCS and report-status
/// always, end-of-packet only on the last chunk.
pub open spec fn chunk_cmd(c: int, k: int) -> u8 {
    if k == c - 1 {
        TX_CMD_IFCS | TX_CMD_RS | TX_CMD_EOP
    } else {
        TX_CMD_IFCS | TX_CMD_RS
    }
}

/// The transmit descriptor for chunk `k` of `c` of a payload of `len`
/// bytes at physical address `buf`.
pub open spec fn chunk_desc(buf: u64, len: int, c: int, k: int) -> TxDesc {
    TxDesc {
        addr: (buf + k * (TX_MAX_CHUNK as int)) as u64,
        length: chunk_len(len, k) as u16,
        cso: 0,
        cmd: chunk_cmd(c, k),
        status: 0,
        css: 0,
        special: 0,
    }
}

/// Whether ring slot `i` is among the `c` slots written starting at
/// tail `t0` in a ring of `n` slots.
pub open spec fn written_slot(t0: int, c: int, n: int, i: int) -> bool {
    exists|k: int| 0 <= k < c && i == #[trigger] ((t0 + k) % n)
}

/// Basic bounds on the chunk count of a nonempty payload.
proof fn lemma_chunks_bounds(len: int)
    requires
        0 < len,
    ensures
        1 <= chunks_of(len),
        (chunks_of(len) - 1) * (TX_MAX_CHUNK as int) < len,
        len <= chunks_of(len) * (TX_MAX_CHUNK as int),
{
    let c = TX_MAX_CHUNK as int;
    lemma_fundamental_div_mod(len, c);
    lemma_mod_bound(len, c);
    let q = len / c;
    let r = len % c;
    if r == 0 {
        assert(q >= 1) by (nonlinear_arith)
            requires
                len == c * q + r,
                r == 0,
                0 < len,
                c == 65535,
        ;
        assert((q - 1) * c < len && len <= q * c) by (nonlinear_arith)
            requires
                len == c * q + r,
                r == 0,
                c == 65535,
        ;
    } else {
        assert(q * c < len && len <= (q + 1) * c) by (nonlinear_arith)
            requires
                len == c * q + r,
                0 < r < c,
                c == 65535,
        ;
        assert(q >= 0) by (nonlinear_arith)
            requires
                len == c * q + r,
                0 < len,
                0 <= r < c,
                c == 65535,
        ;
    }
}

/// Facts about chunk `k` of a nonempty payload: it starts inside the
/// payload, only the final chunk can be short, and no chunk is empty or
/// over the maximum.
proof fn lemma_chunk_facts(len: int, k: int)
    requires
        0 < len,
        0 <= k < chunks_of(len),
    ensures
        k * (TX_MAX_CHUNK as int) < len,
        k < chunks_of(len) - 1 ==> len - k * (TX_MAX_CHUNK as int) > TX_MAX_CHUNK as int,
        0 < chunk_len(len, k) <= TX_MAX_CHUNK as int,
{
    let c = TX_MAX_CHUNK as int;
    let q = chunks_of(len);
    lemma_chunks_bounds(len);
    assert(k * c <= (q - 1) * c) by (nonlinear_arith)
        requires
            k <= q - 1,
            c == 65535,
    ;
    if k < q - 1 {
        assert((k + 1) * c <= (q - 1) * c) by (nonlinear_arith)
            requires
                k + 1 <= q - 1,
                c == 65535,
        ;
        assert((k + 1) * c == k * c + c) by (nonlinear_arith);
    }
    assert(k * c >= 0) by (nonlinear_arith)
        requires
            k >= 0,
            c == 65535,
    ;
}

/// Stepping one slot forward in a ring of `n` wraps at the edge.
proof fn lemma_ring_step(x: int, n: int)
    requires
        0 < n,
        0 <= x,
    ensures
        (x + 1) % n == if x % n + 1 == n {
            0int
        } else {
            x % n + 1
        },
{
    lemma_fundamental_div_mod(x, n);
    lemma_mod_bound(x, n);
    if x % n + 1 == n {
        assert(x + 1 == (x / n + 1) * n + 0) by (nonlinear_arith)
            requires
                x == n * (x / n) + x % n,
                x % n + 1 == n,
        ;
        lemma_fundamental_div_mod_converse_mod(x + 1, n, x / n + 1, 0);
    } else {
        assert(x + 1 == (x / n) * n + (x % n + 1)) by (nonlinear_arith)
            requires
                x == n * (x / n) + x % n,
        ;
        lemma_fundamental_div_mod_converse_mod(x + 1, n, x / n, x % n + 1);
    }
}

/// Two offsets less than a full turn apart land on distinct ring slots.
proof fn lemma_ring_slots_distinct(t0: int, a: int, b: int, n: int)
    requires
        0 < n,
        0 <= t0,
        0 <= a < b,
        b - a < n,
    ensures
        (t0 + a) % n != (t0 + b) % n,
{
    lemma_mod_equivalence(t0 + b, t0 + a, n);
    lemma_small_mod((b - a) as nat, n as nat);
}

/// Offsets from a tail that itself sits `f` slots past the head reach
/// the same slot as offsets from the head.
proof fn lemma_tail_offset(h: int, f: int, k: int, n: int)
    requires
        0 < n,
        0 <= h,
        0 <= f,
        0 <= k,
    ensures
        ((h + f) % n + k) % n == (h + (f + k)) % n,
{
    lemma_fundamental_div_mod(h + f, n);
    lemma_mod_bound(h + f, n);
    let q = (h + f) / n;
    let r = (h + f) % n;
    lemma_mod_equivalence((h + f) % n + k, h + f + k, n);
    assert((((h + f) % n + k) - (h + f + k)) == n * (-q)) by (nonlinear_arith)
        requires
            h + f == n * q + r,
            r == (h + f) % n,
    ;
    assert((n * (-q)) % n == 0) by {
        vstd::arithmetic::div_mod::lemma_mod_multiples_basic(-q, n);
    }
}

/// A transmit ring: descriptors in ring order, the oldest in-flight
/// slot (`head`), the next slot to fill (`tail`), and how many slots
/// are in flight between them.
pub struct TxRing {
    /// The descriptors, in ring order.
    pub descs: Vec<TxDesc>,
    /// The oldest slot still owned by the card.
    pub head: usize,
    /// The next slot the driver will fill.
    pub tail: usize,
    /// How many slots are in flight, from `head` up to `tail`.
    pub in_flight: usize,
}

/// The relation between a transmit ring before and after a successful
/// hand-over of a payload of `len` bytes at `buf_addr`: the chunk
/// descriptors stand in tail order, the tail has moved past them, and
/// every other slot — every in-flight slot in particular — is untouched.
pub open spec fn tx_submit(pre: TxRing, post: TxRing, buf_addr: u64, len: int) -> bool {
    let n = pre.descs@.len() as int;
    let c = chunks_of(len);
    &&& post.descs@.len() == n
    &&& post.head == pre.head
    &&& post.in_flight == pre.in_flight + c
    &&& post.tail == (pre.tail + c) % n
    &&& forall|k: int|
        0 <= k < c ==> post.descs@[(pre.tail + k) % n] == chunk_desc(buf_addr, len, c, k)
    &&& forall|i: int|
        0 <= i < n && !written_slot(pre.tail as int, c, n, i) ==> post.descs@[i] == pre.descs@[i]
}

impl TxRing {
    /// The ring is well formed: indices are in range and the tail sits
    /// exactly `in_flight` slots past the head.
    pub open spec fn wf(&self) -> bool {
        let n = self.descs@.len() as int;
        &&& 1 <= n <= RING_MAX
        &&& self.head < n
        &&& self.tail < n
        &&& self.in_flight <= n
        &&& self.tail == (self.head + self.in_flight) % n
    }

    /// How many slots are free for the driver to fill.
    pub open spec fn free_slots(&self) -> int {
        self.descs@.len() - self.in_flight
    }

    /// A ring with no slots: the state before bring-up.
    pub fn empty() -> (r: Self)
        ensures
            r.descs@.len() == 0,
            r.head == 0,
            r.tail == 0,
            r.in_flight == 0,
    {
        TxRing { descs: Vec::new(), head: 0, tail: 0, in_flight: 0 }
    }

    /// A freshly initialized ring of `count` slots, every one empty.
    pub fn new(count: usize) -> (r: Self)
        requires
            1 <= count <= RING_MAX,
        ensures
            r.wf(),
            r.descs@.len() == count,
            r.head == 0,
            r.tail == 0,
            r.in_flight == 0,
            forall|i: int| 0 <= i < count ==> r.descs@[i] == zero_tx_desc(),
    {
        let mut descs: Vec<TxDesc> = Vec::new();
        let mut i: usize = 0;
        while i < count
            invariant
                i <= count,
                descs@.len() == i,
                forall|j: int| 0 <= j < i ==> descs@[j] == zero_tx_desc(),
            decreases count - i,
        {
            descs.push(TxDesc { addr: 0, length: 0, cso: 0, cmd: 0, status: 0, css: 0, special: 0 });
            i = i + 1;
        }
        proof {
            lemma_small_mod(0nat, count as nat);
        }
        TxRing { descs, head: 0, tail: 0, in_flight: 0 }
    }

    /// Hands a payload of `len` bytes at physical address `buf_addr` to
    /// the card, split into chunks of at most [`TX_MAX_CHUNK`] bytes.
    ///
    /// Exactly `ceil(len / TX_MAX_CHUNK)` descriptors are filled, with
    /// end-of-packet set only on the last, or the ring is left exactly
    /// as it was and the caller sees `RingFull` to retry later: a slot
    /// whose buffer is still in flight is never overwritten.
    pub fn transmit(&mut self, buf_addr: u64, len: usize) -> (r: Result<usize, NicError>)
        requires
            old(self).wf(),
            0 < len,
            buf_addr + len <= u64::MAX,
        ensures
            final(self).wf(),
            chunks_of(len as int) > old(self).free_slots() ==> r == Err::<usize, NicError>(
                NicError::RingFull,
            ) && *final(self) == *old(self),
            chunks_of(len as int) <= old(self).free_slots() ==> r == Ok::<usize, NicError>(
                chunks_of(len as int) as usize,
            ) && tx_submit(*old(self), *final(self), buf_addr, len as int),
            forall|j: int|
                0 <= j < old(self).in_flight ==> final(self).descs@[#[trigger] ((old(self).head
                + j) % (old(self).descs@.len() as int))] == old(self).descs@[(old(self).head + j)
                % (old(self).descs@.len() as int)],
    {
        let n = self.descs.len();
        proof {
            lemma_chunks_bounds(len as int);
        }
        let chunks = len / TX_MAX_CHUNK + if len % TX_MAX_CHUNK != 0 {
            1usize
        } else {
            0usize
        };
        if chunks > n - self.in_flight {
            return Err(NicError::RingFull);
        }
        let ghost pre = *self;
        proof {
            lemma_small_mod(pre.tail as nat, n as nat);
        }
        let mut k: usize = 0;
        while k < chunks
            invariant
                pre.wf(),
                0 < len,
                buf_addr + len <= u64::MAX,
                chunks == chunks_of(len as int),
                chunks <= pre.descs@.len() - pre.in_flight,
                0 <= k <= chunks,
                n == pre.descs@.len(),
                self.descs@.len() == n,
                self.head == pre.head,
                self.in_flight == pre.in_flight + k,
                self.tail == (pre.tail + k) % (n as int),
                forall|kk: int|
                    0 <= kk < k ==> self.descs@[(pre.tail + kk) % (n as int)] == chunk_desc(
                        buf_addr,
                        len as int,
                        chunks as int,
                        kk,
                    ),
                forall|i: int|
                    0 <= i < n && !written_slot(pre.tail as int, k as int, n as int, i)
                        ==> self.descs@[i] == pre.descs@[i],
            decreases chunks - k,
        {
            proof {
                lemma_mod_bound(pre.tail + k, n as int);
                lemma_chunk_facts(len as int, k as int);
            }
            let idx = self.tail;
            let chunk_start = k * TX_MAX_CHUNK;
            let remaining = len - chunk_start;
            let this_len = if remaining < TX_MAX_CHUNK {
                remaining
            } else {
                TX_MAX_CHUNK
            };
            let cmd = if k == chunks - 1 {
                TX_CMD_IFCS | TX_CMD_RS | TX_CMD_EOP
            } else {
                TX_CMD_IFCS | TX_CMD_RS
            };
            let d = TxDesc {
                addr: buf_addr + chunk_start as u64,
                length: this_len as u16,
                cso: 0,
                cmd,
                status: 0,
                css: 0,
                special: 0,
            };
            self.descs.set(idx, d);
            self.tail = if self.tail + 1 == n {
                0
            } else {
                self.tail + 1
            };
            self.in_flight = self.in_flight + 1;
            proof {
                assert(d == chunk_desc(buf_addr, len as int, chunks as int, k as int));
                lemma_ring_step(pre.tail + k, n as int);
                assert forall|kk: int| 0 <= kk < k + 1 implies self.descs@[(pre.tail + kk) % (
                n as int)] == chunk_desc(buf_addr, len as int, chunks as int, kk) by {
                    if kk < k {
                        lemma_ring_slots_distinct(pre.tail as int, kk, k as int, n as int);
                    }
                }
                assert forall|i: int|
                    0 <= i < n && !written_slot(pre.tail as int, (k + 1) as int, n as int, i)
                    implies self.descs@[i] == pre.descs@[i] by {
                    assert(!written_slot(pre.tail as int, k as int, n as int, i)) by {
                        if written_slot(pre.tail as int, k as int, n as int, i) {
                            let kk = choose|kk: int|
                                0 <= kk < k && i == #[trigger] ((pre.tail + kk) % (n as int));
                            assert(0 <= kk < k + 1 && i == (pre.tail + kk) % (n as int));
                        }
                    }
                    assert(i != idx) by {
                        if i == idx {
                            assert(0 <= k < k + 1 && i == (pre.tail + k as int) % (n as int));
                        }
                    }
                }
            }
            k = k + 1;
        }
        proof {
            lemma_no_inflight_overlap(pre, chunks as int);
            lemma_tail_offset(pre.head as int, pre.in_flight as int, chunks as int, n as int);
            lemma_mod_bound(pre.tail + chunks, n as int);
            lemma_mod_bound(pre.head + pre.in_flight + chunks, n as int);
        }
        Ok(chunks)
    }

    /// Retires finished descriptors: walks forward from the head while
    /// the oldest in-flight descriptor has its done bit set, freeing its
    /// slot. Returns how many were retired; it stops at the first
    /// descriptor the card has not finished.
    pub fn reclaim(&mut self) -> (r: usize)
        requires
            old(self).wf(),
        ensures
            final(self).wf(),
            final(self).descs@ == old(self).descs@,
            final(self).tail == old(self).tail,
            r <= old(self).in_flight,
            final(self).in_flight == old(self).in_flight - r,
            final(self).head == (old(self).head + r) % (old(self).descs@.len() as int),
            forall|k: int|
                0 <= k < r ==> tx_done(
                    old(self).descs@[#[trigger] ((old(self).head + k) % (
                    old(self).descs@.len() as int))],
                ),
            final(self).in_flight == 0 || !tx_done(
                old(self).descs@[(old(self).head + r) % (old(self).descs@.len() as int)],
            ),
    {
        let ghost pre = *self;
        let n = self.descs.len();
        let mut r: usize = 0;
        proof {
            lemma_small_mod(pre.head as nat, n as nat);
        }
        while self.in_flight > 0 && self.descs[self.head].status & TX_STA_DD != 0
            invariant
                pre.wf(),
                n == pre.descs@.len(),
                self.descs@ == pre.descs@,
                self.tail == pre.tail,
                r <= pre.in_flight,
                self.in_flight == pre.in_flight - r,
                self.head == (pre.head + r) % (n as int),
                self.head < n,
                forall|k: int|
                    0 <= k < r ==> tx_done(pre.descs@[#[trigger] ((pre.head + k) % (n as int))]),
            decreases self.in_flight,
        {
            proof {
                lemma_ring_step(pre.head + r, n as int);
            }
            self.head = if self.head + 1 == n {
                0
            } else {
                self.head + 1
            };
            self.in_flight = self.in_flight - 1;
            r = r + 1;
        }
        proof {
            lemma_wf_after_reclaim(pre, r as int);
        }
        r
    }

    /// Models the card's DMA write of a status byte: the in-flight
    /// descriptor `k` slots past the head is marked done. In a live
    /// system the kernel observes this in the descriptor's volatile
    /// status field and reports it here.
    pub fn hw_complete(&mut self, k: usize)
        requires
            old(self).wf(),
            k < old(self).in_flight,
        ensures
            final(self).wf(),
            final(self).head == old(self).head,
            final(self).tail == old(self).tail,
            final(self).in_flight == old(self).in_flight,
            final(self).descs@ == old(self).descs@.update(
                (old(self).head + k) % (old(self).descs@.len() as int),
                tx_marked_done(
                    old(self).descs@[(old(self).head + k) % (old(self).descs@.len() as int)],
                ),
            ),
    {
        let n = self.descs.len();
        let idx = (self.head + k) % n;
        proof {
            lemma_mod_bound(self.head + k, n as int);
        }
        let mut d = self.descs[idx];
        d.status = d.status | TX_STA_DD;
        self.descs.set(idx, d);
    }
}

/// A transmit descriptor as the card leaves it after sending: the done
/// bit is set on top of whatever status it had.
pub open spec fn tx_marked_done(d: TxDesc) -> TxDesc {
    TxDesc { status: d.status | TX_STA_DD, ..d }
}

/// In a well-formed ring with room for `c` more descriptors, none of
/// the `c` slots written from the tail onward is an in-flight slot.
proof fn lemma_no_inflight_overlap(pre: TxRing, c: int)
    requires
        pre.wf(),
        0 <= c <= pre.free_slots(),
    ensures
        forall|j: int|
            0 <= j < pre.in_flight ==> !written_slot(
                pre.tail as int,
                c,
                pre.descs@.len() as int,
                #[trigger] ((pre.head + j) % (pre.descs@.len() as int)),
            ),
{
    let n = pre.descs@.len() as int;
    let h = pre.head as int;
    let f = pre.in_flight as int;
    assert forall|j: int| 0 <= j < f implies !written_slot(
        pre.tail as int,
        c,
        n,
        #[trigger] ((h + j) % n),
    ) by {
        if written_slot(pre.tail as int, c, n, (h + j) % n) {
            let kk = choose|kk: int| 0 <= kk < c && (h + j) % n == #[trigger] ((pre.tail + kk) % n);
            lemma_tail_offset(h, f, kk, n);
            lemma_ring_slots_distinct(h, j, f + kk, n);
        }
    }
}

/// Retiring `r` slots from the head keeps the ring well formed.
proof fn lemma_wf_after_reclaim(pre: TxRing, r: int)
    requires
        pre.wf(),
        0 <= r <= pre.in_flight,
    ensures
        ((pre.head + r) % (pre.descs@.len() as int) + (pre.in_flight - r)) % (
        pre.descs@.len() as int) == pre.tail,
{
    let n = pre.descs@.len() as int;
    lemma_tail_offset(pre.head as int, r, pre.in_flight - r, n);
    assert(((pre.head + r) % n + (pre.in_flight - r)) % n == (pre.head + pre.in_flight) % n);
}

/// What one probe of the receive ring produced.
#[derive(PartialEq, Eq, Structural, Clone, Copy, Debug)]
pub enum RxOutcome {
    /// The next descriptor is not done: no frame is ready.
    NotReady,
    /// The next descriptor carried error bits: the frame was dropped
    /// and the slot recycled without the payload being handed anywhere.
    Discarded(NicError),
    /// A frame arrived. The caller copies `length` bytes out of the DMA
    /// buffer at `addr` and then owns that buffer; the ring keeps the
    /// fresh buffer it was given instead.
    Delivered { addr: u64, length: u16, checksum: u16 },
}

/// A receive ring: descriptors in ring order and the consumer cursor.
pub struct RxRing {
    /// The descriptors, in ring order.
    pub descs: Vec<RxDesc>,
    /// The next slot the driver will inspect.
    pub next: usize,
}

/// The relation between a receive ring before and after one probe with
/// fresh buffer `fresh_buf` and outcome `r`.
pub open spec fn rx_probe(pre: RxRing, post: RxRing, fresh_buf: u64, r: RxOutcome) -> bool {
    let n = pre.descs@.len() as int;
    let cur = pre.descs@[pre.next as int];
    &&& post.descs@.len() == n
    &&& (!rx_done(cur) ==> r == RxOutcome::NotReady && post == pre)
    &&& (rx_done(cur) && cur.errors != 0 ==> r == RxOutcome::Discarded(
        NicError::ChecksumOrFrameError,
    ) && post.next == (pre.next + 1) % n && post.descs@ == pre.descs@.update(
        pre.next as int,
        armed_rx_desc(cur.addr),
    ))
    &&& (rx_done(cur) && cur.errors == 0 ==> r == (RxOutcome::Delivered {
        addr: cur.addr,
        length: cur.length,
        checksum: cur.checksum,
    }) && post.next == (pre.next + 1) % n && post.descs@ == pre.descs@.update(
        pre.next as int,
        armed_rx_desc(fresh_buf),
    ))
}

impl RxRing {
    /// The ring is well formed: the cursor is in range, every slot is
    /// armed with a buffer, and no two slots share one.
    pub open spec fn wf(&self) -> bool {
        let n = self.descs@.len() as int;
        &&& 1 <= n <= RING_MAX
        &&& self.next < n
        &&& forall|i: int| 0 <= i < n ==> self.descs@[i].addr != 0
        &&& forall|i: int, j: int|
            0 <= i < j < n ==> self.descs@[i].addr != self.descs@[j].addr
    }

    /// A ring with no slots: the state before bring-up.
    pub fn empty() -> (r: Self)
        ensures
            r.descs@.len() == 0,
            r.next == 0,
    {
        RxRing { descs: Vec::new(), next: 0 }
    }

    /// A freshly initialized ring, slot `i` armed with buffer
    /// `bufs[i]`: every slot holds its own valid buffer and no two
    /// slots share one.
    pub fn new(bufs: &Vec<u64>) -> (r: Self)
        requires
            1 <= bufs@.len() <= RING_MAX,
            forall|i: int| 0 <= i < bufs@.len() ==> bufs@[i] != 0,
            forall|i: int, j: int| 0 <= i < j < bufs@.len() ==> bufs@[i] != bufs@[j],
        ensures
            r.wf(),
            r.next == 0,
            r.descs@.len() == bufs@.len(),
            forall|i: int| 0 <= i < bufs@.len() ==> r.descs@[i] == armed_rx_desc(bufs@[i]),
    {
        let mut descs: Vec<RxDesc> = Vec::new();
        let mut i: usize = 0;
        while i < bufs.len()
            invariant
                i <= bufs@.len(),
                descs@.len() == i,
                forall|j: int| 0 <= j < i ==> descs@[j] == armed_rx_desc(bufs@[j]),
            decreases bufs@.len() - i,
        {
            descs.push(
                RxDesc { addr: bufs[i], length: 0, checksum: 0, status: 0, errors: 0, special: 0 },
            );
            i = i + 1;
        }
        RxRing { descs, next: 0 }
    }

    /// Whether the next descriptor has been completed by the card.
    pub fn ready(&self) -> (r: bool)
        requires
            self.wf(),
        ensures
            r == rx_done(self.descs@[self.next as int]),
    {
        self.descs[self.next].status & RX_STA_DD != 0
    }

    /// Probes the next descriptor. If the card has not finished it, no
    /// frame is ready and nothing changes. If it carries error bits,
    /// the frame is dropped: the slot is recycled with its own buffer
    /// and the payload is never handed to the caller. Otherwise the
    /// frame's buffer, length and checksum are handed out and the slot
    /// is re-armed with `fresh_buf`.
    pub fn receive(&mut self, fresh_buf: u64) -> (r: RxOutcome)
        requires
            old(self).wf(),
            fresh_buf != 0,
            forall|i: int|
                0 <= i < old(self).descs@.len() ==> old(self).descs@[i].addr != fresh_buf,
        ensures
            final(self).wf(),
            rx_probe(*old(self), *final(self), fresh_buf, r),
    {
        let n = self.descs.len();
        let cur = self.descs[self.next];
        if cur.status & RX_STA_DD == 0 {
            return RxOutcome::NotReady;
        }
        let ghost pre = *self;
        let rearm = if cur.errors != 0 {
            cur.addr
        } else {
            fresh_buf
        };
        self.descs.set(
            self.next,
            RxDesc { addr: rearm, length: 0, checksum: 0, status: 0, errors: 0, special: 0 },
        );
        proof {
            lemma_ring_step(pre.next as int, n as int);
            lemma_small_mod(pre.next as nat, n as nat);
            assert forall|i: int, j: int|
                0 <= i < j < n implies self.descs@[i].addr != self.descs@[j].addr by {
                assert(pre.descs@[i].addr != pre.descs@[j].addr);
            }
        }
        self.next = if self.next + 1 == n {
            0
        } else {
            self.next + 1
        };
        if cur.errors != 0 {
            RxOutcome::Discarded(NicError::ChecksumOrFrameError)
        } else {
            RxOutcome::Delivered { addr: cur.addr, length: cur.length, checksum: cur.checksum }
        }
    }

    /// Models the card's DMA completion of slot `i`: the received
    /// frame's length, checksum and error bits are written and the done
    /// bit is set. In a live system the kernel observes this in the
    /// descriptor's volatile fields and reports it here.
    pub fn hw_write(&mut self, i: usize, length: u16, checksum: u16, errors: u8)
        requires
            old(self).wf(),
            i < old(self).descs@.len(),
        ensures
            final(self).wf(),
            final(self).next == old(self).next,
            final(self).descs@ == old(self).descs@.update(
                i as int,
                (RxDesc {
                    addr: old(self).descs@[i as int].addr,
                    length,
                    checksum,
                    status: old(self).descs@[i as int].status | RX_STA_DD,
                    errors,
                    special: old(self).descs@[i as int].special,
                }),
            ),
    {
        let mut d = self.descs[i];
        d.length = length;
        d.checksum = checksum;
        d.errors = errors;
        d.status = d.status | RX_STA_DD;
        self.descs.set(i, d);
        proof {
            assert forall|a: int, b: int|
                0 <= a < b < self.descs@.len() implies self.descs@[a].addr != self.descs@[b].addr by {
                assert(old(self).descs@[a].addr != old(self).descs@[b].addr);
            }
        }
    }
}

} // verus!
