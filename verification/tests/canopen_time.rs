use cantsyn::canopen_time::{DAYS_1984_TO_UNIX, TIME_COB_ID, TIME_DLC};
use cantsyn::CanOpenTime;

#[test]
fn roundtrip_bytes() {
    let t = CanOpenTime::new(3_600_000, 14_610); // 01:00:00 on some day
    assert_eq!(CanOpenTime::from_bytes(&t.to_bytes()), t);
}

#[test]
fn unix_epoch_zero() {
    let t = CanOpenTime::from_unix_epoch(0);
    assert_eq!(t.ms, 0);
}

#[test]
fn unix_roundtrip() {
    // 2026-05-19 09:00:00 UTC approx
    let epoch: u32 = 1_779_141_600;
    let t = CanOpenTime::from_unix_epoch(epoch);
    let back = t.to_unix_epoch_s();
    assert_eq!(back, epoch);
}

#[test]
fn constants() {
    assert_eq!(TIME_COB_ID, 0x100);
    assert_eq!(TIME_DLC, 6);
    assert_eq!(DAYS_1984_TO_UNIX, 5113);
}

#[test]
fn to_bytes_is_little_endian() {
    let t = CanOpenTime::new(0x0403_0201, 0x0605);
    assert_eq!(t.to_bytes(), [0x01, 0x02, 0x03, 0x04, 0x05, 0x06]);
}

#[test]
fn from_bytes_readme_frame() {
    let frame = [0x40, 0x77, 0x36, 0x00, 0x2A, 0x39];
    let t = CanOpenTime::from_bytes(&frame);
    assert_eq!(t.ms, 0x0036_7740);
    assert_eq!(t.days, 0x392A);
    assert_eq!(t.to_bytes(), frame);
}

#[test]
fn from_unix_epoch_fields() {
    let t = CanOpenTime::from_unix_epoch(1_779_141_600);
    assert_eq!(t.ms, 79_200_000); // 22:00:00
    assert_eq!(t.days, 20_591 - 5113);
    let z = CanOpenTime::from_unix_epoch(0);
    assert_eq!(z.days, 0);
    let m = CanOpenTime::from_unix_epoch(u32::MAX);
    assert_eq!(m.days, 49_710 - 5113);
    assert_eq!(m.ms, 23_295_000);
    assert_eq!(m.to_unix_epoch_s(), u32::MAX);
}

#[test]
fn from_unix_epoch_start_of_2024() {
    // 2024-01-01 01:00:00 UTC
    assert_eq!(CanOpenTime::from_unix_epoch(1_704_070_800), CanOpenTime::new(3_600_000, 14_610));
}

#[test]
fn from_unix_before_1984_saturates_day() {
    let t = CanOpenTime::from_unix_epoch(5112 * 86_400 + 7);
    assert_eq!(t.days, 0);
    assert_eq!(t.ms, 7_000);
    let u = CanOpenTime::from_unix_epoch(5113 * 86_400);
    assert_eq!(u.days, 0);
    assert_eq!(u.to_unix_epoch_s(), 5113 * 86_400);
}

#[test]
fn to_unix_truncates_milliseconds() {
    let t = CanOpenTime::new(1_999, 0);
    assert_eq!(t.to_unix_epoch_s(), 441_763_201); // 1984-01-01 00:00:01
}

#[test]
fn to_unix_readme_frame() {
    let t = CanOpenTime::from_bytes(&[0x40, 0x77, 0x36, 0x00, 0x2A, 0x39]);
    assert_eq!(t, CanOpenTime::new(3_569_472, 14_634));
    assert_eq!(t.to_unix_epoch_s(), 1_706_144_369); // 2024-01-25 00:59:29 UTC
}

#[test]
fn time_to_unix_and_back() {
    let t = CanOpenTime::new(45_296_000, 14_610);
    let s = t.to_unix_epoch_s();
    assert_eq!(s, (14_610 + 5113) * 86_400 + 45_296);
    assert_eq!(CanOpenTime::from_unix_epoch(s), t);
}
