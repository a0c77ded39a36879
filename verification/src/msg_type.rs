//! Message type byte values (byte 0 of every CanTSyn PDU).

use vstd::prelude::*;

verus! {

pub const SYNC_NO_CRC: u8 = 0x10;

pub const FUP_NO_CRC: u8 = 0x18;

pub const SYNC_WITH_CRC: u8 = 0x20;

pub const FUP_WITH_CRC: u8 = 0x28;

pub const OFS_NO_CRC: u8 = 0x34;

pub const OFS_WITH_CRC: u8 = 0x44;

pub const EXT_OFS_NO_CRC: u8 = 0x54;

pub const EXT_OFS_WITH_CRC: u8 = 0x64;

} // verus!
