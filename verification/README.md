# cantsyn

Time synchronisation over CAN, verified with Verus.

- `src/timesync.rs`: the AUTOSAR CanTSyn PDU layout, the master that builds
  SYNC + FUP pairs and the slave that matches them and outputs corrected
  time. Each step is specified by a spec function (`master_sync`,
  `master_fup`, `slave_sync`, `slave_fup`); `lemma_sync_fup_pair` proves
  that a pair built by a master is accepted by an idle slave of the same
  domain and yields the expected time.
- `src/msg_type.rs`: the message type bytes.
- `src/canopen_time.rs`: the CANopen TIME object, its 6-byte wire format
  and its conversion to and from Unix time, with the round trips proved.
- `src/can_driver.rs`: the CAN frame, the driver trait and a loopback
  driver whose FIFO behaviour is proved.
- `src/socketcan_map.rs`: how frames map to SocketCAN identifiers and back;
  it calls `socketcan` for the standard identifier check.
- `app/`: the `master` and `slave` command-line tools and the SocketCAN
  driver, which do the socket and clock I/O.
- `tests/`: tests of the library.
