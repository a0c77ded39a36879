//! Time synchronisation over CAN: the AUTOSAR CanTSyn SYNC/FUP master and
//! slave, the CANopen TIME object, and the frame layer they run on.

pub mod can_driver;
pub mod canopen_time;
pub mod msg_type;
pub mod socketcan_map;
pub mod timesync;

pub use timesync::{
    CorrectedTime, Master, MasterState, MasterView, Pdu, Slave, SlaveError, SlaveState, SlaveView,
    SlaveInput, Timestamp, FLAG_SGW, SEQ_CTR_MAX,
};
pub use canopen_time::CanOpenTime;
pub use can_driver::{CanDriver, CanFrame, DriverError, LoopbackDriver};
