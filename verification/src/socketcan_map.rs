//! How protocol frames map to and from SocketCAN frames: the identifier a
//! frame is sent under, and the frame made of what the socket received.
//! The socket I/O itself lives outside this library.

use crate::can_driver::{padded_data, CanFrame, DriverError};
use vstd::prelude::*;

verus! {

/// Calls `socketcan::StandardId::new` (re-exported from `embedded-can`) and
/// hands back the raw value of the identifier it builds. Its documentation
/// and source: the identifier is built, holding `raw`, exactly when `raw`
/// is at most 0x7FF.
#[verifier::external_body]
fn standard_id_new(raw: u16) -> (id: Option<u16>)
    ensures
        id == (if raw <= 0x7FF {
            Some(raw)
        } else {
            None::<u16>
        }),
{
    match socketcan::StandardId::new(raw) {
        Some(id) => Some(id.as_raw()),
        None => None,
    }
}

/// The standard (11-bit) identifier a frame is sent under: its id cut to
/// 16 bits, which must be at most 0x7FF, else `Err(Io)`.
pub fn tx_standard_id(frame: &CanFrame) -> (r: Result<u16, DriverError>)
    ensures
        r == (if frame.id % 0x1_0000 <= 0x7FF {
            Ok((frame.id % 0x1_0000) as u16)
        } else {
            Err(DriverError::Io)
        }),
{
    let id = frame.id;
    let raw = id as u16;
    assert(raw == id % 0x1_0000) by (bit_vector)
        requires
            raw == id as u16,
    ;
    match standard_id_new(raw) {
        Some(sid) => Ok(sid),
        None => Err(DriverError::Io),
    }
}

/// The protocol frame for what a socket received: the raw identifier with
/// the three flag bits (EFF, RTR, ERR) cleared, and the data bytes.
pub fn rx_frame(raw_id: u32, data: &[u8]) -> (f: CanFrame)
    requires
        data@.len() <= 8,
    ensures
        f.id == raw_id % 0x2000_0000,
        f.dlc == data@.len(),
        f.data@ == padded_data(data@),
{
    let id = raw_id & 0x1FFF_FFFF;
    assert(id == raw_id % 0x2000_0000) by (bit_vector)
        requires
            id == raw_id & 0x1FFF_FFFF,
    ;
    CanFrame::new(id, data)
}

} // verus!
