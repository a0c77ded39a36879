//! CanTSyn master -> loopback driver -> slave, no hardware.

use cantsyn::timesync::classify_frame;
use cantsyn::{
    msg_type, CanDriver, CanFrame, LoopbackDriver, Master, MasterState, Pdu, Slave, SlaveError,
    SlaveInput, Timestamp,
};

const CAN_ID: u32 = 0x640;

/// Encode a Pdu into a CanFrame and inject it into the driver.
fn send(drv: &mut LoopbackDriver, id: u32, pdu: &Pdu) {
    drv.inject(CanFrame::new(id, &pdu.0)).unwrap();
}

#[test]
fn sync_fup_produces_corrected_time() {
    let mut master = Master::new(0, false);
    let mut slave = Slave::new(0);
    let mut drv = LoopbackDriver::new();

    let t_sync = Timestamp::new(1_779_141_600, 0);
    let t_tx = Timestamp::new(1_779_141_600, 500_000); // 500 us TX latency

    let sync_pdu = master.build_sync(t_sync);
    assert_eq!(sync_pdu.msg_type(), msg_type::SYNC_NO_CRC);
    assert_eq!(sync_pdu.domain(), 0);

    send(&mut drv, CAN_ID, &sync_pdu);

    let fup_pdu = master.build_fup(t_tx).unwrap();
    assert_eq!(fup_pdu.msg_type(), msg_type::FUP_NO_CRC);
    assert_eq!(fup_pdu.seconds_be(), 500_000); // correction in ns

    send(&mut drv, CAN_ID, &fup_pdu);

    let frame = drv.recv().unwrap();
    assert_eq!(frame.id, CAN_ID);
    let rx_time = Timestamp::new(1_779_141_600, 1_000_000); // slave local clock
    slave.on_sync(&Pdu(frame.data), rx_time).unwrap();

    let frame = drv.recv().unwrap();
    let ct = slave.on_fup(&Pdu(frame.data)).unwrap();

    assert_eq!(ct.time.seconds, 1_779_141_600);
    assert_eq!(ct.time.nanoseconds, 500_000);
    assert!(!ct.sgw);
}

#[test]
fn seq_mismatch_returns_unexpected_fup() {
    let mut master = Master::new(0, false);
    let mut slave = Slave::new(0);
    let mut drv = LoopbackDriver::new();

    let t = Timestamp::new(1_000_000, 0);

    let sync_pdu = master.build_sync(t);
    send(&mut drv, CAN_ID, &sync_pdu);

    let mut fup_pdu = master.build_fup(t).unwrap();
    fup_pdu.0[2] = (fup_pdu.0[2] & 0xF0) | ((fup_pdu.0[2] + 1) & 0x0F);

    send(&mut drv, CAN_ID, &sync_pdu);
    drv.recv().unwrap();
    slave.on_sync(&Pdu(sync_pdu.0), t).unwrap();

    let err = slave.on_fup(&Pdu(fup_pdu.0)).unwrap_err();
    assert_eq!(err, cantsyn::SlaveError::UnexpectedFup);
}

#[test]
fn domain_mismatch_rejected() {
    let mut slave = Slave::new(1);
    let pdu = cantsyn::Pdu::build_sync(0, 0, 0, false);
    let rx_time = Timestamp::new(0, 0);
    let err = slave.on_sync(&pdu, rx_time).unwrap_err();
    assert_eq!(err, cantsyn::SlaveError::DomainMismatch);
}

#[test]
fn build_sync_bytes() {
    let p = Pdu::build_sync(3, 0x1A, 0x1234_5678, true);
    assert_eq!(p.0, [0x10, 0x00, 0x3A, 0x04, 0x12, 0x34, 0x56, 0x78]);
    assert_eq!(p.msg_type(), 0x10);
    assert_eq!(p.crc(), 0);
    assert_eq!(p.domain(), 3);
    assert_eq!(p.seq_ctr(), 0x0A);
    assert_eq!(p.flags(), 0x04);
    assert!(p.sgw());
    assert_eq!(p.seconds_be(), 0x1234_5678);
}

#[test]
fn build_fup_bytes_and_domain_nibble() {
    // The domain keeps only its low nibble.
    let p = Pdu::build_fup(0x17, 2, 500_000, false);
    assert_eq!(p.0, [0x18, 0x00, 0x72, 0x00, 0x00, 0x07, 0xA1, 0x20]);
    assert_eq!(p.domain(), 7);
    assert!(!p.sgw());
    assert_eq!(p.seconds_be(), 500_000);
}

#[test]
fn timestamp_nanos() {
    assert_eq!(Timestamp::new(2, 5).as_nanos_u64(), 2_000_000_005);
    assert_eq!(
        Timestamp::new(u32::MAX, u32::MAX).as_nanos_u64(),
        4_294_967_295_000_000_000 + 4_294_967_295
    );
    let t = Timestamp::new(7, 999_999_000).add_subsec_nanos(5_000);
    assert_eq!(t, Timestamp::new(7, 1_000_004_000));
    assert_eq!(Timestamp::new(1, u32::MAX - 1).add_subsec_nanos(10).nanoseconds, u32::MAX);
}

#[test]
fn master_fup_without_sync_is_none() {
    let mut master = Master::new(0, false);
    assert!(master.build_fup(Timestamp::new(1, 0)).is_none());
    master.build_sync(Timestamp::new(1, 0));
    assert!(master.build_fup(Timestamp::new(1, 10)).is_some());
    assert!(master.build_fup(Timestamp::new(1, 20)).is_none());
}

#[test]
fn master_sequence_counter_wraps_at_16() {
    let mut master = Master::new(2, true);
    for i in 0..20u32 {
        let sync = master.build_sync(Timestamp::new(i, 0));
        assert_eq!(sync.seq_ctr() as u32, i % 16);
        assert_eq!(sync.domain(), 2);
        assert!(sync.sgw());
        let fup = master.build_fup(Timestamp::new(i, 100)).unwrap();
        assert_eq!(fup.seq_ctr() as u32, i % 16);
        assert_eq!(fup.seconds_be(), 100);
    }
}

#[test]
fn master_correction_saturates_and_truncates() {
    let mut master = Master::new(0, false);
    master.build_sync(Timestamp::new(10, 500));
    // Actual TX before the SYNC time: correction 0.
    let fup = master.build_fup(Timestamp::new(9, 0)).unwrap();
    assert_eq!(fup.seconds_be(), 0);
    master.build_sync(Timestamp::new(0, 0));
    // 5 s later: 5_000_000_000 ns, cut to 32 bits.
    let fup = master.build_fup(Timestamp::new(5, 0)).unwrap();
    assert_eq!(fup.seconds_be(), (5_000_000_000u64 % (1u64 << 32)) as u32);
    // TX before the full SYNC time but after its whole seconds.
    master.build_sync(Timestamp::new(10, 500));
    let fup = master.build_fup(Timestamp::new(10, 100)).unwrap();
    assert_eq!(fup.seconds_be(), 100);
}

#[test]
fn master_state_after_sync_is_pending() {
    let s = MasterState::SyncSent { seq: 0, sync_time: Timestamp::new(1, 2) };
    assert_ne!(s, MasterState::Idle);
}

#[test]
fn slave_sync_overrun_discards_pending() {
    let mut slave = Slave::new(0);
    let sync = Pdu::build_sync(0, 1, 100, false);
    slave.on_sync(&sync, Timestamp::new(0, 0)).unwrap();
    assert_eq!(slave.on_sync(&sync, Timestamp::new(0, 1)), Err(SlaveError::SyncOverrun));
    // The pending SYNC was dropped: a FUP now finds nothing to match.
    let fup = Pdu::build_fup(0, 1, 5, false);
    assert_eq!(slave.on_fup(&fup).unwrap_err(), SlaveError::UnexpectedFup);
    // After the overrun a fresh SYNC is accepted again.
    slave.on_sync(&sync, Timestamp::new(0, 2)).unwrap();
    let ct = slave.on_fup(&fup).unwrap();
    assert_eq!(ct.time, Timestamp::new(100, 5));
    assert_eq!(ct.seq, 1);
}

#[test]
fn slave_fup_domain_mismatch_keeps_pending_sync() {
    let mut slave = Slave::new(4);
    slave.on_sync(&Pdu::build_sync(4, 3, 50, true), Timestamp::new(0, 0)).unwrap();
    assert_eq!(
        slave.on_fup(&Pdu::build_fup(5, 3, 1, true)).unwrap_err(),
        SlaveError::DomainMismatch
    );
    let ct = slave.on_fup(&Pdu::build_fup(4, 3, 2_500_000_000, true)).unwrap();
    assert_eq!(ct.time, Timestamp::new(52, 500_000_000));
    assert!(ct.sgw);
    assert_eq!(ct.seq, 3);
}

#[test]
fn slave_corrected_seconds_wrap_at_32_bits() {
    let mut slave = Slave::new(0);
    slave.on_sync(&Pdu::build_sync(0, 0, u32::MAX, false), Timestamp::new(0, 0)).unwrap();
    let ct = slave.on_fup(&Pdu::build_fup(0, 0, 1_500_000_000, false)).unwrap();
    assert_eq!(ct.time, Timestamp::new(0, 500_000_000));
}

#[test]
fn classify_frames_for_slave() {
    let sync = Pdu::build_sync(0, 0, 1, false);
    let fup = Pdu::build_fup(0, 0, 1, false);
    match classify_frame(&CanFrame::new(CAN_ID, &sync.0), CAN_ID) {
        SlaveInput::Sync(p) => assert_eq!(p.0, sync.0),
        _ => panic!("expected a SYNC"),
    }
    match classify_frame(&CanFrame::new(CAN_ID, &fup.0), CAN_ID) {
        SlaveInput::Fup(p) => assert_eq!(p.0, fup.0),
        _ => panic!("expected a FUP"),
    }
    let mut crc_sync = sync.0;
    crc_sync[0] = msg_type::SYNC_WITH_CRC;
    assert!(matches!(classify_frame(&CanFrame::new(CAN_ID, &crc_sync), CAN_ID), SlaveInput::Sync(_)));
    let mut crc_fup = fup.0;
    crc_fup[0] = msg_type::FUP_WITH_CRC;
    assert!(matches!(classify_frame(&CanFrame::new(CAN_ID, &crc_fup), CAN_ID), SlaveInput::Fup(_)));
    assert!(matches!(classify_frame(&CanFrame::new(CAN_ID + 1, &sync.0), CAN_ID), SlaveInput::Ignore));
    assert!(matches!(classify_frame(&CanFrame::new(CAN_ID, &sync.0[..7]), CAN_ID), SlaveInput::Ignore));
    let mut ofs = sync.0;
    ofs[0] = msg_type::OFS_NO_CRC;
    assert!(matches!(classify_frame(&CanFrame::new(CAN_ID, &ofs), CAN_ID), SlaveInput::Ignore));
}

#[test]
fn pair_with_sgw_and_nonzero_sync_nanos() {
    let mut master = Master::new(5, true);
    let mut slave = Slave::new(5);
    let now = Timestamp::new(1_000, 300_000_000);
    let tx = Timestamp::new(1_001, 100_000_000);
    let sync = master.build_sync(now);
    let fup = master.build_fup(tx).unwrap();
    // The correction runs from the whole seconds placed in the SYNC.
    assert_eq!(fup.seconds_be(), 1_100_000_000);
    slave.on_sync(&sync, Timestamp::new(0, 0)).unwrap();
    let ct = slave.on_fup(&fup).unwrap();
    assert_eq!(ct.time, tx);
    assert!(ct.sgw);
    assert_eq!(ct.seq, 0);
}
