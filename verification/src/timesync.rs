//! AUTOSAR CanTSyn: time synchronisation over CAN.
//!
//! Frame format (classic CAN, DLC 8):
//!
//! ```text
//! Byte 0: message type
//! Byte 1: CRC8H2F (0x00 if unsecured)
//! Byte 2: domain[7:4] | sequence_counter[3:0]
//! Byte 3: flags, bit2 = SGW
//! Bytes 4-7: seconds (u32 big-endian)
//! ```
//!
//! The FUP frame reuses the seconds field for the nanosecond correction
//! between the time placed in the SYNC and the measured transmit time.

use crate::can_driver::CanFrame;
use crate::msg_type;
use vstd::prelude::*;

verus! {

/// SGW flag in byte 3: set when this master is itself a slave of a
/// higher-level time domain (gateway).
pub const FLAG_SGW: u8 = 0x04;

/// Maximum sequence counter value (4 bits, wraps 15 -> 0).
pub const SEQ_CTR_MAX: u8 = 15;

/// Nanoseconds in one second.
pub const NANOS_PER_SEC: u64 = 1_000_000_000;

/// A timestamp made of whole seconds and nanoseconds.
#[derive(Clone, Copy, Debug, Default, PartialEq, Eq, PartialOrd, Ord, Structural)]
pub struct Timestamp {
    pub seconds: u32,
    pub nanoseconds: u32,
}

impl Timestamp {
    /// The instant as a count of nanoseconds.
    pub open spec fn total_nanos(self) -> int {
        self.seconds * 1_000_000_000 + self.nanoseconds
    }

    pub fn new(seconds: u32, nanoseconds: u32) -> (t: Self)
        ensures
            t.seconds == seconds,
            t.nanoseconds == nanoseconds,
    {
        Timestamp { seconds, nanoseconds }
    }

    /// `seconds * 1_000_000_000 + nanoseconds`; it always fits in a `u64`.
    pub fn as_nanos_u64(self) -> (n: u64)
        ensures
            n == self.total_nanos(),
    {
        self.seconds as u64 * NANOS_PER_SEC + self.nanoseconds as u64
    }

    /// The same seconds with `ns` more nanoseconds, the nanoseconds
    /// saturating at `u32::MAX` and not carried into the seconds.
    pub fn add_subsec_nanos(self, ns: u32) -> (t: Timestamp)
        ensures
            t.seconds == self.seconds,
            t.nanoseconds == (if self.nanoseconds + ns > u32::MAX {
                u32::MAX as int
            } else {
                self.nanoseconds + ns
            }),
    {
        Timestamp { seconds: self.seconds, nanoseconds: self.nanoseconds.saturating_add(ns) }
    }
}

/// The value of four bytes read as a big-endian unsigned integer.
pub open spec fn be_u32(b0: u8, b1: u8, b2: u8, b3: u8) -> int {
    b0 * 0x100_0000 + b1 * 0x1_0000 + b2 * 0x100 + b3
}

/// The four big-endian bytes of `v`.
pub open spec fn be_bytes(v: u32) -> Seq<u8> {
    seq![
        (v / 0x100_0000) as u8,
        ((v / 0x1_0000) % 0x100) as u8,
        ((v / 0x100) % 0x100) as u8,
        (v % 0x100) as u8,
    ]
}

/// Byte 2 of a PDU: the domain in the high nibble, the sequence counter in
/// the low nibble. Both are taken modulo 16.
pub open spec fn header_byte(domain: u8, seq: u8) -> u8 {
    ((domain % 16) * 16 + seq % 16) as u8
}

/// Byte 3 of a PDU.
pub open spec fn flags_byte(sgw: bool) -> u8 {
    if sgw {
        FLAG_SGW
    } else {
        0
    }
}

/// The eight bytes of an unsecured PDU of type `kind`, carrying `value` in
/// bytes 4 to 7.
pub open spec fn encode_pdu(kind: u8, domain: u8, seq: u8, value: u32, sgw: bool) -> Seq<u8> {
    seq![kind, 0u8, header_byte(domain, seq), flags_byte(sgw)] + be_bytes(value)
}

/// A raw 8-byte CanTSyn PDU.
#[derive(Clone, Copy, Debug, Default)]
pub struct Pdu(pub [u8; 8]);

/// The domain number carried in the high nibble of byte 2 of `bytes`.
pub open spec fn field_domain(bytes: Seq<u8>) -> u8 {
    bytes[2] / 16
}

/// The sequence counter carried in the low nibble of byte 2 of `bytes`.
pub open spec fn field_seq(bytes: Seq<u8>) -> u8 {
    bytes[2] % 16
}

/// Whether the SGW bit of byte 3 of `bytes` is set.
pub open spec fn field_sgw(bytes: Seq<u8>) -> bool {
    (bytes[3] / 4) % 2 == 1
}

/// Bytes 4 to 7 of `bytes` read as a big-endian integer.
pub open spec fn field_value(bytes: Seq<u8>) -> u32 {
    be_u32(bytes[4], bytes[5], bytes[6], bytes[7]) as u32
}

impl Pdu {
    pub fn msg_type(&self) -> (t: u8)
        ensures
            t == self.0@[0],
    {
        self.0[0]
    }

    pub fn crc(&self) -> (c: u8)
        ensures
            c == self.0@[1],
    {
        self.0[1]
    }

    pub fn domain(&self) -> (d: u8)
        ensures
            d == field_domain(self.0@),
    {
        let b = self.0[2];
        assert(b >> 4 == b / 16) by (bit_vector);
        b >> 4
    }

    pub fn seq_ctr(&self) -> (s: u8)
        ensures
            s == field_seq(self.0@),
    {
        let b = self.0[2];
        assert(b & 0x0F == b % 16) by (bit_vector);
        b & 0x0F
    }

    pub fn flags(&self) -> (f: u8)
        ensures
            f == self.0@[3],
    {
        self.0[3]
    }

    pub fn sgw(&self) -> (s: bool)
        ensures
            s == field_sgw(self.0@),
    {
        let b = self.0[3];
        assert((b & FLAG_SGW != 0) == ((b / 4) % 2 == 1)) by (bit_vector);
        b & FLAG_SGW != 0
    }

    /// Seconds field (bytes 4 to 7, big-endian).
    pub fn seconds_be(&self) -> (v: u32)
        ensures
            v == field_value(self.0@),
    {
        let b0 = self.0[4];
        let b1 = self.0[5];
        let b2 = self.0[6];
        let b3 = self.0[7];
        assert(((b0 as u32) << 24 | (b1 as u32) << 16 | (b2 as u32) << 8 | (b3 as u32))
            == b0 * 0x100_0000 + b1 * 0x1_0000 + b2 * 0x100 + b3) by (bit_vector);
        (b0 as u32) << 24 | (b1 as u32) << 16 | (b2 as u32) << 8 | (b3 as u32)
    }

    fn set_seconds_be(&mut self, s: u32)
        ensures
            final(self).0@ == old(self).0@.subrange(0, 4) + be_bytes(s),
    {
        let b0 = (s >> 24) as u8;
        let b1 = ((s >> 16) & 0xFF) as u8;
        let b2 = ((s >> 8) & 0xFF) as u8;
        let b3 = (s & 0xFF) as u8;
        assert(b0 == (s / 0x100_0000) as u8 && b1 == ((s / 0x1_0000) % 0x100) as u8 && b2 == ((
        s / 0x100) % 0x100) as u8 && b3 == (s % 0x100) as u8) by (bit_vector)
            requires
                b0 == (s >> 24) as u8,
                b1 == ((s >> 16) & 0xFF) as u8,
                b2 == ((s >> 8) & 0xFF) as u8,
                b3 == (s & 0xFF) as u8,
        ;
        self.0[4] = b0;
        self.0[5] = b1;
        self.0[6] = b2;
        self.0[7] = b3;
        assert(final(self).0@ =~= old(self).0@.subrange(0, 4) + be_bytes(s));
    }

    fn build(kind: u8, domain: u8, seq: u8, value: u32, sgw: bool) -> (p: Self)
        ensures
            p.0@ == encode_pdu(kind, domain, seq, value, sgw),
    {
        let header = (domain << 4) | (seq & 0x0F);
        assert(header == header_byte(domain, seq)) by (bit_vector)
            requires
                header == (domain << 4) | (seq & 0x0F),
        ;
        let flags = if sgw {
            FLAG_SGW
        } else {
            0
        };
        let mut p = Pdu([kind, 0x00, header, flags, 0, 0, 0, 0]);
        p.set_seconds_be(value);
        assert(p.0@ =~= encode_pdu(kind, domain, seq, value, sgw));
        p
    }

    /// Build an unsecured SYNC PDU.
    pub fn build_sync(domain: u8, seq: u8, seconds: u32, sgw: bool) -> (p: Self)
        ensures
            p.0@ == encode_pdu(msg_type::SYNC_NO_CRC, domain, seq, seconds, sgw),
    {
        Self::build(msg_type::SYNC_NO_CRC, domain, seq, seconds, sgw)
    }

    /// Build an unsecured FUP PDU carrying a nanosecond correction offset.
    pub fn build_fup(domain: u8, seq: u8, correction_ns: u32, sgw: bool) -> (p: Self)
        ensures
            p.0@ == encode_pdu(msg_type::FUP_NO_CRC, domain, seq, correction_ns, sgw),
    {
        Self::build(msg_type::FUP_NO_CRC, domain, seq, correction_ns, sgw)
    }
}


// Master
/// The state of a master between calls.
#[derive(Clone, Copy, Debug, PartialEq, Eq, Structural)]
pub enum MasterState {
    Idle,
    SyncSent { seq: u8, sync_time: Timestamp },
}

/// What a master holds: its domain and SGW flag, the sequence counter of
/// the next pair and the pending SYNC, if any.
pub struct MasterView {
    pub domain: u8,
    pub sgw: bool,
    pub seq: u8,
    pub state: MasterState,
}

/// CanTSyn master: sends SYNC + FUP pairs.
pub struct Master {
    pub domain: u8,
    pub sgw: bool,
    seq: u8,
    state: MasterState,
}

impl View for Master {
    type V = MasterView;

    closed spec fn view(&self) -> MasterView {
        MasterView { domain: self.domain, sgw: self.sgw, seq: self.seq, state: self.state }
    }
}

/// The counter that follows `seq` (4 bits, wrapping).
pub open spec fn next_seq(seq: u8) -> u8 {
    ((seq + 1) % 16) as u8
}

/// The correction a FUP carries: how many nanoseconds the actual transmit
/// time lies after the time placed in the SYNC (the whole seconds of the
/// SYNC time), 0 if it lies before, truncated to 32 bits.
pub open spec fn fup_correction(sync_time: Timestamp, actual_tx: Timestamp) -> u32 {
    let placed = sync_time.seconds * 1_000_000_000;
    if actual_tx.total_nanos() >= placed {
        ((actual_tx.total_nanos() - placed) % 0x1_0000_0000) as u32
    } else {
        0
    }
}

/// A master building a SYNC at `now`: its new view and the bytes of the SYNC.
pub open spec fn master_sync(m: MasterView, now: Timestamp) -> (MasterView, Seq<u8>) {
    (
        MasterView {
            domain: m.domain,
            sgw: m.sgw,
            seq: m.seq,
            state: MasterState::SyncSent { seq: m.seq, sync_time: now },
        },
        encode_pdu(msg_type::SYNC_NO_CRC, m.domain, m.seq, now.seconds, m.sgw),
    )
}

/// A master building a FUP for the actual transmit time `actual_tx`: its
/// new view and the bytes of the FUP, if a SYNC is pending.
pub open spec fn master_fup(m: MasterView, actual_tx: Timestamp) -> (MasterView, Option<Seq<u8>>) {
    match m.state {
        MasterState::SyncSent { seq, sync_time } => (
            MasterView {
                domain: m.domain,
                sgw: m.sgw,
                seq: next_seq(m.seq),
                state: MasterState::Idle,
            },
            Some(
                encode_pdu(
                    msg_type::FUP_NO_CRC,
                    m.domain,
                    seq,
                    fup_correction(sync_time, actual_tx),
                    m.sgw,
                ),
            ),
        ),
        MasterState::Idle => (m, None),
    }
}

impl Master {
    pub fn new(domain: u8, sgw: bool) -> (m: Self)
        ensures
            m@ == (MasterView { domain, sgw, seq: 0, state: MasterState::Idle }),
    {
        Master { domain, sgw, seq: 0, state: MasterState::Idle }
    }

    /// Call on each sync interval. Returns the SYNC PDU to transmit.
    pub fn build_sync(&mut self, now: Timestamp) -> (p: Pdu)
        ensures
            (final(self)@, p.0@) == master_sync(old(self)@, now),
            p.0@[0] == msg_type::SYNC_NO_CRC,
            p.0@[2] / 16 == old(self)@.domain % 16,
            p.0@[2] % 16 == old(self)@.seq % 16,
    {
        let pdu = Pdu::build_sync(self.domain, self.seq, now.seconds, self.sgw);
        self.state = MasterState::SyncSent { seq: self.seq, sync_time: now };
        proof {
            lemma_master_sync_bytes(old(self)@, now);
        }
        pdu
    }

    /// Call after the SYNC frame has been transmitted, with the actual
    /// transmit time. Returns the FUP PDU, or `None` if no SYNC is pending.
    pub fn build_fup(&mut self, actual_tx: Timestamp) -> (p: Option<Pdu>)
        ensures
            final(self)@ == master_fup(old(self)@, actual_tx).0,
            match p {
                Some(pdu) => master_fup(old(self)@, actual_tx).1 == Some(pdu.0@),
                None => master_fup(old(self)@, actual_tx).1 is None,
            },
            p is Some <==> old(self)@.state is SyncSent,
            p matches Some(pdu) ==> pdu.0@[0] == msg_type::FUP_NO_CRC,
    {
        proof {
            lemma_master_fup_bytes(old(self)@, actual_tx);
        }
        if let MasterState::SyncSent { seq, sync_time } = self.state {
            let placed_ns = sync_time.seconds as u64 * NANOS_PER_SEC;
            let diff = actual_tx.as_nanos_u64().saturating_sub(placed_ns);
            let correction_ns = diff as u32;
            assert(correction_ns == diff % 0x1_0000_0000) by (bit_vector)
                requires
                    correction_ns == diff as u32,
            ;
            let pdu = Pdu::build_fup(self.domain, seq, correction_ns, self.sgw);
            let next = self.seq.wrapping_add(1) & SEQ_CTR_MAX;
            let old_seq = self.seq;
            assert(next == ((old_seq + 1) % 16) as u8) by (bit_vector)
                requires
                    next == (if old_seq == 255 {
                        0u8
                    } else {
                        (old_seq + 1) as u8
                    }) & 15,
            ;
            self.seq = next;
            self.state = MasterState::Idle;
            Some(pdu)
        } else {
            None
        }
    }
}

// Slave
/// The state of a slave between calls.
#[derive(Clone, Copy, Debug, PartialEq, Eq, Structural)]
pub enum SlaveState {
    Idle,
    WaitingFup { seq: u8, sync_seconds: u32, rx_time: Timestamp },
}

/// Error from slave processing.
#[derive(Clone, Copy, Debug, PartialEq, Eq, Structural)]
pub enum SlaveError {
    /// FUP arrived but no pending SYNC (or sequence mismatch).
    UnexpectedFup,
    /// SYNC arrived while already waiting for a FUP; the stale SYNC is discarded.
    SyncOverrun,
    /// Domain mismatch.
    DomainMismatch,
}

/// Corrected time output from a slave after a matched SYNC + FUP pair.
#[derive(Clone, Copy, Debug)]
pub struct CorrectedTime {
    pub time: Timestamp,
    pub sgw: bool,
    pub seq: u8,
}

/// What a slave holds: its domain, the pending SYNC, if any, and the
/// sequence counter of the last matched pair.
pub struct SlaveView {
    pub domain: u8,
    pub state: SlaveState,
    pub last_seq: Option<u8>,
}

/// CanTSyn slave: receives SYNC + FUP pairs and outputs corrected time.
pub struct Slave {
    pub domain: u8,
    state: SlaveState,
    last_seq: Option<u8>,
}

impl View for Slave {
    type V = SlaveView;

    closed spec fn view(&self) -> SlaveView {
        SlaveView { domain: self.domain, state: self.state, last_seq: self.last_seq }
    }
}

/// The time `sync_seconds` seconds plus `correction_ns` nanoseconds, with
/// the seconds truncated to 32 bits.
pub open spec fn corrected_time(sync_seconds: u32, correction_ns: u32) -> Timestamp {
    let total = sync_seconds * 1_000_000_000 + correction_ns;
    Timestamp {
        seconds: ((total / 1_000_000_000) % 0x1_0000_0000) as u32,
        nanoseconds: (total % 1_000_000_000) as u32,
    }
}

/// A slave receiving the SYNC `pdu` at local time `rx_time`: its new view
/// and the result.
pub open spec fn slave_sync(s: SlaveView, pdu: Seq<u8>, rx_time: Timestamp) -> (
    SlaveView,
    Result<(), SlaveError>,
) {
    if field_domain(pdu) != s.domain {
        (s, Err(SlaveError::DomainMismatch))
    } else if s.state is WaitingFup {
        (SlaveView { domain: s.domain, state: SlaveState::Idle, last_seq: s.last_seq }, Err(SlaveError::SyncOverrun))
    } else {
        (
            SlaveView {
                domain: s.domain,
                state: SlaveState::WaitingFup {
                    seq: field_seq(pdu),
                    sync_seconds: field_value(pdu),
                    rx_time,
                },
                last_seq: s.last_seq,
            },
            Ok(()),
        )
    }
}

/// A slave receiving the FUP `pdu`: its new view and the result.
pub open spec fn slave_fup(s: SlaveView, pdu: Seq<u8>) -> (
    SlaveView,
    Result<CorrectedTime, SlaveError>,
) {
    if field_domain(pdu) != s.domain {
        (s, Err(SlaveError::DomainMismatch))
    } else {
        match s.state {
            SlaveState::WaitingFup { seq, sync_seconds, rx_time } => {
                if field_seq(pdu) != seq {
                    (
                        SlaveView { domain: s.domain, state: SlaveState::Idle, last_seq: s.last_seq },
                        Err(SlaveError::UnexpectedFup),
                    )
                } else {
                    (
                        SlaveView { domain: s.domain, state: SlaveState::Idle, last_seq: Some(seq) },
                        Ok(
                            CorrectedTime {
                                time: corrected_time(sync_seconds, field_value(pdu)),
                                sgw: field_sgw(pdu),
                                seq,
                            },
                        ),
                    )
                }
            },
            SlaveState::Idle => (s, Err(SlaveError::UnexpectedFup)),
        }
    }
}

impl Slave {
    pub fn new(domain: u8) -> (s: Self)
        ensures
            s@ == (SlaveView { domain, state: SlaveState::Idle, last_seq: None }),
    {
        Slave { domain, state: SlaveState::Idle, last_seq: None }
    }

    /// Process a received SYNC PDU. `rx_time` is the local time of receipt.
    pub fn on_sync(&mut self, pdu: &Pdu, rx_time: Timestamp) -> (r: Result<(), SlaveError>)
        ensures
            (final(self)@, r) == slave_sync(old(self)@, pdu.0@, rx_time),
            pdu.0@[2] / 16 != old(self)@.domain ==> r == Err::<(), SlaveError>(
                SlaveError::DomainMismatch,
            ) && final(self)@ == old(self)@,
    {
        proof {
            lemma_slave_sync_domain(old(self)@, pdu.0@, rx_time);
        }
        if pdu.domain() != self.domain {
            return Err(SlaveError::DomainMismatch);
        }
        if let SlaveState::WaitingFup { .. } = self.state {
            self.state = SlaveState::Idle;
            return Err(SlaveError::SyncOverrun);
        }
        self.state = SlaveState::WaitingFup {
            seq: pdu.seq_ctr(),
            sync_seconds: pdu.seconds_be(),
            rx_time,
        };
        Ok(())
    }

    /// Process a received FUP PDU. Returns the corrected time if the FUP
    /// matches the pending SYNC.
    pub fn on_fup(&mut self, pdu: &Pdu) -> (r: Result<CorrectedTime, SlaveError>)
        ensures
            (final(self)@, r) == slave_fup(old(self)@, pdu.0@),
            pdu.0@[2] / 16 != old(self)@.domain ==> r == Err::<CorrectedTime, SlaveError>(
                SlaveError::DomainMismatch,
            ) && final(self)@ == old(self)@,
    {
        proof {
            lemma_slave_fup_domain(old(self)@, pdu.0@);
        }
        if pdu.domain() != self.domain {
            return Err(SlaveError::DomainMismatch);
        }
        match self.state {
            SlaveState::WaitingFup { seq, sync_seconds, rx_time: _ } => {
                if pdu.seq_ctr() != seq {
                    self.state = SlaveState::Idle;
                    return Err(SlaveError::UnexpectedFup);
                }
                let correction_ns = pdu.seconds_be();
                let base_ns = sync_seconds as u64 * NANOS_PER_SEC;
                let corrected_ns = base_ns + correction_ns as u64;
                let secs = corrected_ns / NANOS_PER_SEC;
                let nanos = corrected_ns % NANOS_PER_SEC;
                let secs32 = secs as u32;
                assert(secs32 == secs % 0x1_0000_0000) by (bit_vector)
                    requires
                        secs32 == secs as u32,
                ;
                let time = Timestamp::new(secs32, nanos as u32);
                self.last_seq = Some(seq);
                self.state = SlaveState::Idle;
                Ok(CorrectedTime { time, sgw: pdu.sgw(), seq })
            },
            SlaveState::Idle => Err(SlaveError::UnexpectedFup),
        }
    }
}


// Receiving side of a slave
/// What a slave does with a received frame.
pub enum SlaveInput {
    /// A SYNC PDU for this slave.
    Sync(Pdu),
    /// A FUP PDU for this slave.
    Fup(Pdu),
    /// Any other frame.
    Ignore,
}

/// Sort a received frame for a slave listening on `can_id`: an 8-byte
/// frame on that identifier whose type byte is a SYNC (with or without
/// CRC) or a FUP (with or without CRC) is handed on as that PDU; anything
/// else is ignored.
pub fn classify_frame(frame: &CanFrame, can_id: u32) -> (r: SlaveInput)
    ensures
        frame.id != can_id || frame.dlc != 8 ==> r is Ignore,
        frame.id == can_id && frame.dlc == 8 ==> {
            let kind = frame.data@[0];
            &&& (kind == msg_type::SYNC_NO_CRC || kind == msg_type::SYNC_WITH_CRC) ==> r
                == SlaveInput::Sync(Pdu(frame.data))
            &&& (kind == msg_type::FUP_NO_CRC || kind == msg_type::FUP_WITH_CRC) ==> r
                == SlaveInput::Fup(Pdu(frame.data))
            &&& (kind != msg_type::SYNC_NO_CRC && kind != msg_type::SYNC_WITH_CRC && kind
                != msg_type::FUP_NO_CRC && kind != msg_type::FUP_WITH_CRC) ==> r is Ignore
        },
{
    if frame.id != can_id || frame.dlc != 8 {
        return SlaveInput::Ignore;
    }
    let pdu = Pdu(frame.data);
    let kind = pdu.msg_type();
    if kind == msg_type::SYNC_NO_CRC || kind == msg_type::SYNC_WITH_CRC {
        SlaveInput::Sync(pdu)
    } else if kind == msg_type::FUP_NO_CRC || kind == msg_type::FUP_WITH_CRC {
        SlaveInput::Fup(pdu)
    } else {
        SlaveInput::Ignore
    }
}

// Laws
/// Every field of a PDU reads back what was written into it: the message
/// type, a zero CRC byte, the domain and sequence counter modulo 16, the
/// SGW flag and the 32-bit value.
pub proof fn lemma_pdu_fields(kind: u8, domain: u8, seq: u8, value: u32, sgw: bool)
    ensures
        encode_pdu(kind, domain, seq, value, sgw).len() == 8,
        encode_pdu(kind, domain, seq, value, sgw)[0] == kind,
        encode_pdu(kind, domain, seq, value, sgw)[1] == 0,
        field_domain(encode_pdu(kind, domain, seq, value, sgw)) == domain % 16,
        field_seq(encode_pdu(kind, domain, seq, value, sgw)) == seq % 16,
        field_sgw(encode_pdu(kind, domain, seq, value, sgw)) == sgw,
        encode_pdu(kind, domain, seq, value, sgw)[3] == flags_byte(sgw),
        field_value(encode_pdu(kind, domain, seq, value, sgw)) == value,
{
    let b = encode_pdu(kind, domain, seq, value, sgw);
    assert(b[2] == header_byte(domain, seq));
    assert(b[4] == (value / 0x100_0000) as u8);
    assert(b[5] == ((value / 0x1_0000) % 0x100) as u8);
    assert(b[6] == ((value / 0x100) % 0x100) as u8);
    assert(b[7] == (value % 0x100) as u8);
    assert(be_u32(
        (value / 0x100_0000) as u8,
        ((value / 0x1_0000) % 0x100) as u8,
        ((value / 0x100) % 0x100) as u8,
        (value % 0x100) as u8,
    ) == value) by (nonlinear_arith);
}

/// A SYNC + FUP pair built by a master and delivered in order to an idle
/// slave of the same domain is accepted, and the slave outputs the actual
/// transmit time (normalised, so equal to it whenever its nanoseconds are
/// below one second), with the master's sequence counter and SGW flag.
/// Both sides end idle; the master's counter has advanced. This holds when
/// the transmit time lies less than 2^32 ns after the seconds placed in the
/// SYNC and its whole seconds fit in a `u32`.
#[verifier::rlimit(40)]
pub proof fn lemma_sync_fup_pair(
    m: MasterView,
    s: SlaveView,
    now: Timestamp,
    actual_tx: Timestamp,
    rx_time: Timestamp,
)
    requires
        s.domain == m.domain % 16,
        s.state is Idle,
        now.seconds * 1_000_000_000 <= actual_tx.total_nanos() < now.seconds * 1_000_000_000
            + 0x1_0000_0000,
        actual_tx.total_nanos() < 0x1_0000_0000 * 1_000_000_000,
    ensures
        ({
            let (m1, sync) = master_sync(m, now);
            let (m2, fup) = master_fup(m1, actual_tx);
            let (s1, r1) = slave_sync(s, sync, rx_time);
            let (s2, r2) = slave_fup(s1, fup.unwrap());
            &&& fup is Some
            &&& r1 is Ok
            &&& r2 is Ok
            &&& r2->Ok_0.time.total_nanos() == actual_tx.total_nanos()
            &&& r2->Ok_0.time.nanoseconds < 1_000_000_000
            &&& actual_tx.nanoseconds < 1_000_000_000 ==> r2->Ok_0.time == actual_tx
            &&& r2->Ok_0.seq == m.seq % 16
            &&& r2->Ok_0.sgw == m.sgw
            &&& m2 == MasterView {
                domain: m.domain,
                sgw: m.sgw,
                seq: next_seq(m.seq),
                state: MasterState::Idle,
            }
            &&& s2 == SlaveView {
                domain: s.domain,
                state: SlaveState::Idle,
                last_seq: Some((m.seq % 16) as u8),
            }
        }),
{
    let (m1, sync) = master_sync(m, now);
    let (m2, fup) = master_fup(m1, actual_tx);
    lemma_pdu_fields(msg_type::SYNC_NO_CRC, m.domain, m.seq, now.seconds, m.sgw);
    let corr = fup_correction(now, actual_tx);
    lemma_pdu_fields(msg_type::FUP_NO_CRC, m.domain, m.seq, corr, m.sgw);
    assert(corr == actual_tx.total_nanos() - now.seconds * 1_000_000_000);
    let total = now.seconds * 1_000_000_000 + corr;
    assert(total == actual_tx.total_nanos());
    assert(total / 1_000_000_000 < 0x1_0000_0000);
    assert((total / 1_000_000_000) * 1_000_000_000 + total % 1_000_000_000 == total);
    if actual_tx.nanoseconds < 1_000_000_000 {
        assert(total / 1_000_000_000 == actual_tx.seconds);
        assert(total % 1_000_000_000 == actual_tx.nanoseconds);
    }
}

/// The sequence counter is 4 bits wide and wraps: it counts 0, 1, ..., 15,
/// then 0 again, and every completed pair moves it one step.
pub proof fn lemma_next_seq(seq: u8)
    ensures
        next_seq(seq) < 16,
        seq < 15 ==> next_seq(seq) == seq + 1,
        seq == SEQ_CTR_MAX ==> next_seq(seq) == 0,
        next_seq(seq) == (seq % 16 + 1) % 16,
{
}

/// A master after one complete pair per entry of `times`: a SYNC built at
/// the first time of the entry, then a FUP for the second.
pub open spec fn after_pairs(m: MasterView, times: Seq<(Timestamp, Timestamp)>) -> MasterView
    decreases times.len(),
{
    if times.len() == 0 {
        m
    } else {
        after_pairs(
            master_fup(master_sync(m, times[0].0).0, times[0].1).0,
            times.drop_first(),
        )
    }
}

/// After `k` complete pairs a master's counter has moved `k` steps modulo
/// 16: a new master (counter 0) sends its next SYNC, at `next`, with
/// counter `k % 16`.
/// Its domain and SGW flag are kept, and it is idle again.
pub proof fn lemma_counter_after_pairs(
    m: MasterView,
    times: Seq<(Timestamp, Timestamp)>,
    next: Timestamp,
)
    requires
        m.seq < 16,
    ensures
        after_pairs(m, times).seq == (m.seq + times.len()) % 16,
        after_pairs(m, times).domain == m.domain,
        after_pairs(m, times).sgw == m.sgw,
        times.len() > 0 ==> after_pairs(m, times).state is Idle,
        field_seq(master_sync(after_pairs(m, times), next).1) == (m.seq + times.len()) % 16,
    decreases times.len(),
{
    let m_last = after_pairs(m, times);
    if times.len() > 0 {
        let m1 = master_fup(master_sync(m, times[0].0).0, times[0].1).0;
        lemma_counter_after_pairs(m1, times.drop_first(), next);
        assert(m1.seq == (m.seq + 1) % 16);
        assert(((m.seq + 1) % 16 + (times.len() - 1)) % 16 == (m.seq + times.len()) % 16);
    }
    lemma_pdu_fields(msg_type::SYNC_NO_CRC, m_last.domain, m_last.seq, next.seconds, m_last.sgw);
}

/// Every SYNC a master builds is an eight-byte unsecured SYNC: type byte
/// 0x10, CRC byte 0, its domain in the high nibble and its counter in the
/// low nibble of byte 2, its SGW flag as bit 2 of byte 3, and the whole
/// seconds of `now` big-endian in bytes 4 to 7; its state then records the
/// pending SYNC, and the counter is not yet moved.
pub proof fn lemma_master_sync_bytes(m: MasterView, now: Timestamp)
    ensures
        master_sync(m, now).1.len() == 8,
        master_sync(m, now).1[0] == 0x10,
        master_sync(m, now).1[1] == 0,
        master_sync(m, now).1[2] / 16 == m.domain % 16,
        master_sync(m, now).1[2] % 16 == m.seq % 16,
        master_sync(m, now).1[3] == (if m.sgw {
            4u8
        } else {
            0u8
        }),
        be_u32(
            master_sync(m, now).1[4],
            master_sync(m, now).1[5],
            master_sync(m, now).1[6],
            master_sync(m, now).1[7],
        ) == now.seconds,
        master_sync(m, now).0 == (MasterView {
            domain: m.domain,
            sgw: m.sgw,
            seq: m.seq,
            state: MasterState::SyncSent { seq: m.seq, sync_time: now },
        }),
{
    lemma_pdu_fields(msg_type::SYNC_NO_CRC, m.domain, m.seq, now.seconds, m.sgw);
}

/// A master builds a FUP exactly when a SYNC is pending. The FUP is an
/// eight-byte unsecured FUP: type byte 0x18, CRC byte 0, the domain and the
/// counter of the pending SYNC in byte 2, the SGW flag as bit 2 of byte 3,
/// and bytes 4 to 7 hold, big-endian, how many nanoseconds `actual_tx` lies
/// after the whole seconds of the SYNC time (0 if before, modulo 2^32).
/// Without a pending SYNC nothing changes.
pub proof fn lemma_master_fup_bytes(m: MasterView, actual_tx: Timestamp)
    ensures
        master_fup(m, actual_tx).1 is Some <==> m.state is SyncSent,
        m.state is Idle ==> master_fup(m, actual_tx).0 == m,
        m.state matches MasterState::SyncSent { seq, sync_time } ==> {
            let b = master_fup(m, actual_tx).1.unwrap();
            let placed = sync_time.seconds * 1_000_000_000;
            &&& b.len() == 8
            &&& b[0] == 0x18
            &&& b[1] == 0
            &&& b[2] / 16 == m.domain % 16
            &&& b[2] % 16 == seq % 16
            &&& b[3] == (if m.sgw {
                4u8
            } else {
                0u8
            })
            &&& be_u32(b[4], b[5], b[6], b[7]) == (if actual_tx.total_nanos() >= placed {
                (actual_tx.total_nanos() - placed) % 0x1_0000_0000
            } else {
                0
            })
            &&& master_fup(m, actual_tx).0.seq == (m.seq + 1) % 16
            &&& master_fup(m, actual_tx).0.state is Idle
        },
{
    if let MasterState::SyncSent { seq, sync_time } = m.state {
        lemma_pdu_fields(
            msg_type::FUP_NO_CRC,
            m.domain,
            seq,
            fup_correction(sync_time, actual_tx),
            m.sgw,
        );
    }
}

/// A slave accepts a SYNC only of its own domain (read from the high nibble
/// of byte 2). A SYNC of any other domain is refused with `DomainMismatch`
/// and leaves the slave as it was. A SYNC of its domain that finds it idle
/// makes it wait for a FUP with that SYNC's counter and seconds; one that
/// finds it already waiting is refused with `SyncOverrun` and drops the
/// pending SYNC.
pub proof fn lemma_slave_sync_domain(s: SlaveView, pdu: Seq<u8>, rx_time: Timestamp)
    requires
        pdu.len() == 8,
    ensures
        pdu[2] / 16 != s.domain ==> slave_sync(s, pdu, rx_time) == (s, Err::<(), SlaveError>(
            SlaveError::DomainMismatch,
        )),
        pdu[2] / 16 == s.domain && s.state is Idle ==> slave_sync(s, pdu, rx_time) == (
            SlaveView {
                domain: s.domain,
                state: SlaveState::WaitingFup {
                    seq: pdu[2] % 16,
                    sync_seconds: be_u32(pdu[4], pdu[5], pdu[6], pdu[7]) as u32,
                    rx_time,
                },
                last_seq: s.last_seq,
            },
            Ok::<(), SlaveError>(()),
        ),
        pdu[2] / 16 == s.domain && s.state is WaitingFup ==> slave_sync(s, pdu, rx_time) == (
            SlaveView { domain: s.domain, state: SlaveState::Idle, last_seq: s.last_seq },
            Err::<(), SlaveError>(SlaveError::SyncOverrun),
        ),
{
}

/// A slave accepts a FUP only of its own domain (read from the high nibble
/// of byte 2). A FUP of any other domain is refused with `DomainMismatch`
/// and leaves the slave as it was, a pending SYNC included. A FUP of its
/// domain finding no pending SYNC is refused with `UnexpectedFup`; one with
/// another counter than the pending SYNC is refused the same way and drops
/// it; one with the same counter gives the SYNC's seconds plus the FUP's
/// nanoseconds, its SGW bit and the counter, and leaves the slave idle.
pub proof fn lemma_slave_fup_domain(s: SlaveView, pdu: Seq<u8>)
    requires
        pdu.len() == 8,
    ensures
        pdu[2] / 16 != s.domain ==> slave_fup(s, pdu) == (s, Err::<CorrectedTime, SlaveError>(
            SlaveError::DomainMismatch,
        )),
        pdu[2] / 16 == s.domain && s.state is Idle ==> slave_fup(s, pdu) == (s, Err::<
            CorrectedTime,
            SlaveError,
        >(SlaveError::UnexpectedFup)),
        s.state matches SlaveState::WaitingFup { seq, sync_seconds, rx_time } ==> {
            let r = slave_fup(s, pdu);
            if pdu[2] / 16 != s.domain {
                true
            } else if pdu[2] % 16 != seq {
                r == (
                    SlaveView { domain: s.domain, state: SlaveState::Idle, last_seq: s.last_seq },
                    Err::<CorrectedTime, SlaveError>(SlaveError::UnexpectedFup),
                )
            } else {
                &&& r.0 == SlaveView {
                    domain: s.domain,
                    state: SlaveState::Idle,
                    last_seq: Some(seq),
                }
                &&& r.1 is Ok
                &&& r.1->Ok_0.time.seconds == ((sync_seconds * 1_000_000_000 + be_u32(
                    pdu[4],
                    pdu[5],
                    pdu[6],
                    pdu[7],
                )) / 1_000_000_000) % 0x1_0000_0000
                &&& r.1->Ok_0.time.nanoseconds == (sync_seconds * 1_000_000_000 + be_u32(
                    pdu[4],
                    pdu[5],
                    pdu[6],
                    pdu[7],
                )) % 1_000_000_000
                &&& r.1->Ok_0.sgw == ((pdu[3] / 4) % 2 == 1)
                &&& r.1->Ok_0.seq == seq
            }
        },
{
    if pdu[2] / 16 == s.domain {
        if let SlaveState::WaitingFup { seq, sync_seconds, rx_time } = s.state {
            let corr = be_u32(pdu[4], pdu[5], pdu[6], pdu[7]);
            assert(0 <= corr < 0x1_0000_0000);
        }
    }
}

} // verus!
