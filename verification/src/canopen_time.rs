//! CANopen TIME object.
//!
//! A 6-byte broadcast frame, by default on CAN ID 0x100:
//!
//! ```text
//! Bytes 0-3: milliseconds since midnight (u32 LE, 0 to 86_399_999)
//! Bytes 4-5: days since 1984-01-01 (u16 LE)
//! ```
//!
//! No sequence counter, no CRC, no quality field.

use vstd::prelude::*;

verus! {

/// Default CAN ID for the TIME object (COB-ID TIME).
pub const TIME_COB_ID: u16 = 0x100;

/// Wire length of a TIME PDU.
pub const TIME_DLC: usize = 6;

/// Days from 1970-01-01 (Unix epoch) to 1984-01-01.
pub const DAYS_1984_TO_UNIX: u16 = 5113;

/// Seconds in one day.
pub const SECS_PER_DAY: u32 = 86_400;

/// A CANopen TIME value: milliseconds since midnight and days since
/// 1984-01-01.
#[derive(Clone, Copy, Debug, Default, PartialEq, Eq, Structural)]
pub struct CanOpenTime {
    /// Milliseconds since midnight (0 to 86_399_999).
    pub ms: u32,
    /// Days since 1984-01-01.
    pub days: u16,
}

/// The whole days since 1984-01-01 of `unix_s` seconds after the Unix
/// epoch, 0 for an instant before 1984.
pub open spec fn days_since_1984(unix_s: u32) -> int {
    if unix_s / 86_400 >= 5113 {
        unix_s / 86_400 - 5113
    } else {
        0
    }
}

/// The TIME value for `unix_s` seconds after the Unix epoch: the time of
/// day, and the day counted from 1984-01-01 (0 for any day before).
pub open spec fn time_of_unix(unix_s: u32) -> CanOpenTime {
    CanOpenTime {
        ms: ((unix_s % 86_400) * 1000) as u32,
        days: days_since_1984(unix_s) as u16,
    }
}

/// The Unix time of `t` in whole seconds: its days counted from 1984-01-01
/// moved to the Unix epoch, plus its time of day with the milliseconds
/// dropped.
pub open spec fn unix_seconds(t: CanOpenTime) -> int {
    (t.days + 5113) * 86_400 + t.ms / 1000
}

/// The six wire bytes of `t`, both fields little-endian.
pub open spec fn encode_time(t: CanOpenTime) -> Seq<u8> {
    seq![
        (t.ms % 0x100) as u8,
        ((t.ms / 0x100) % 0x100) as u8,
        ((t.ms / 0x1_0000) % 0x100) as u8,
        (t.ms / 0x100_0000) as u8,
        (t.days % 0x100) as u8,
        (t.days / 0x100) as u8,
    ]
}

/// The TIME value that six wire bytes hold.
pub open spec fn decode_time(b: Seq<u8>) -> CanOpenTime {
    CanOpenTime {
        ms: (b[0] + b[1] * 0x100 + b[2] * 0x1_0000 + b[3] * 0x100_0000) as u32,
        days: (b[4] + b[5] * 0x100) as u16,
    }
}

impl CanOpenTime {
    pub fn new(ms: u32, days: u16) -> (t: Self)
        ensures
            t.ms == ms,
            t.days == days,
    {
        CanOpenTime { ms, days }
    }

    /// Construct from a Unix epoch (seconds since 1970-01-01 00:00:00 UTC).
    pub fn from_unix_epoch(unix_s: u32) -> (t: Self)
        ensures
            t == time_of_unix(unix_s),
    {
        let total_days = unix_s / SECS_PER_DAY;
        let ms = (unix_s % SECS_PER_DAY) * 1_000;
        let days = total_days.saturating_sub(DAYS_1984_TO_UNIX as u32) as u16;
        CanOpenTime { ms, days }
    }

    /// Convert to Unix epoch seconds (truncates milliseconds).
    pub fn to_unix_epoch_s(self) -> (s: u32)
        requires
            unix_seconds(self) <= u32::MAX,
        ensures
            s == unix_seconds(self),
    {
        let unix_days = self.days as u32 + DAYS_1984_TO_UNIX as u32;
        unix_days * SECS_PER_DAY + self.ms / 1_000
    }

    /// Encode to the 6-byte wire format (little-endian).
    pub fn to_bytes(self) -> (b: [u8; 6])
        ensures
            b@ == encode_time(self),
    {
        let ms = self.ms;
        let days = self.days;
        let b0 = (ms & 0xFF) as u8;
        let b1 = ((ms >> 8) & 0xFF) as u8;
        let b2 = ((ms >> 16) & 0xFF) as u8;
        let b3 = (ms >> 24) as u8;
        let b4 = (days & 0xFF) as u8;
        let b5 = (days >> 8) as u8;
        assert(b0 == (ms % 0x100) as u8 && b1 == ((ms / 0x100) % 0x100) as u8 && b2 == ((ms
            / 0x1_0000) % 0x100) as u8 && b3 == (ms / 0x100_0000) as u8) by (bit_vector)
            requires
                b0 == (ms & 0xFF) as u8,
                b1 == ((ms >> 8) & 0xFF) as u8,
                b2 == ((ms >> 16) & 0xFF) as u8,
                b3 == (ms >> 24) as u8,
        ;
        assert(b4 == (days % 0x100) as u8 && b5 == (days / 0x100) as u8) by (bit_vector)
            requires
                b4 == (days & 0xFF) as u8,
                b5 == (days >> 8) as u8,
        ;
        let b = [b0, b1, b2, b3, b4, b5];
        assert(b@ =~= encode_time(self));
        b
    }

    /// Decode from the 6-byte wire format.
    pub fn from_bytes(b: &[u8; 6]) -> (t: Self)
        ensures
            t == decode_time(b@),
    {
        let b0 = b[0];
        let b1 = b[1];
        let b2 = b[2];
        let b3 = b[3];
        let b4 = b[4];
        let b5 = b[5];
        let ms = (b0 as u32) | (b1 as u32) << 8 | (b2 as u32) << 16 | (b3 as u32) << 24;
        let days = (b4 as u16) | (b5 as u16) << 8;
        assert(ms == b0 + b1 * 0x100 + b2 * 0x1_0000 + b3 * 0x100_0000) by (bit_vector)
            requires
                ms == (b0 as u32) | (b1 as u32) << 8 | (b2 as u32) << 16 | (b3 as u32) << 24,
        ;
        assert(days == b4 + b5 * 0x100) by (bit_vector)
            requires
                days == (b4 as u16) | (b5 as u16) << 8,
        ;
        CanOpenTime { ms, days }
    }
}

// Laws
/// Decoding the wire bytes of a TIME value gives the value back.
pub proof fn lemma_bytes_roundtrip(t: CanOpenTime)
    ensures
        encode_time(t).len() == TIME_DLC,
        decode_time(encode_time(t)) == t,
{
    let ms = t.ms;
    let days = t.days;
    assert((ms % 0x100) as u8 + ((ms / 0x100) % 0x100) as u8 * 0x100 + ((ms / 0x1_0000) % 0x100) as u8
        * 0x1_0000 + (ms / 0x100_0000) as u8 * 0x100_0000 == ms) by (nonlinear_arith);
    assert((days % 0x100) as u8 + (days / 0x100) as u8 * 0x100 == days) by (nonlinear_arith);
}

/// Encoding the TIME value that six bytes hold gives the same bytes.
pub proof fn lemma_wire_roundtrip(b: Seq<u8>)
    requires
        b.len() == TIME_DLC,
    ensures
        encode_time(decode_time(b)) == b,
{
    let t = decode_time(b);
    let (b0, b1, b2, b3, b4, b5) = (b[0], b[1], b[2], b[3], b[4], b[5]);
    assert(t.ms == b0 + b1 * 0x100 + b2 * 0x1_0000 + b3 * 0x100_0000) by (nonlinear_arith)
        requires
            t.ms == (b0 + b1 * 0x100 + b2 * 0x1_0000 + b3 * 0x100_0000) as u32,
    ;
    let ms = t.ms;
    assert(ms % 0x100 == b0 && (ms / 0x100) % 0x100 == b1 && (ms / 0x1_0000) % 0x100 == b2 && ms
        / 0x100_0000 == b3) by (nonlinear_arith)
        requires
            ms == b0 + b1 * 0x100 + b2 * 0x1_0000 + b3 * 0x100_0000,
    ;
    let days = t.days;
    assert(days == b4 + b5 * 0x100) by (nonlinear_arith)
        requires
            days == (b4 + b5 * 0x100) as u16,
    ;
    assert(days % 0x100 == b4 && days / 0x100 == b5) by (nonlinear_arith)
        requires
            days == b4 + b5 * 0x100,
    ;
    assert(encode_time(t) =~= b);
}

/// Converting a Unix time to a TIME value and back gives the same Unix time,
/// for every time on or after 1984-01-01.
pub proof fn lemma_unix_roundtrip(unix_s: u32)
    requires
        unix_s / 86_400 >= DAYS_1984_TO_UNIX,
    ensures
        unix_seconds(time_of_unix(unix_s)) == unix_s,
{
}

/// Converting a TIME value to Unix seconds and back gives the same value,
/// for a time of day below 24 hours in whole seconds and a Unix time that
/// fits in a `u32`.
pub proof fn lemma_time_roundtrip(t: CanOpenTime)
    requires
        t.ms < 86_400_000,
        t.ms % 1000 == 0,
        unix_seconds(t) <= u32::MAX,
    ensures
        time_of_unix(unix_seconds(t) as u32) == t,
{
}

} // verus!
