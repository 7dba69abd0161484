//! Host-side driver core for a GNSS receiver speaking the UBX binary protocol:
//! a stream framer, a typed packet codec, and the session logic that sits
//! between them and the serial link.
use vstd::prelude::*;

pub mod wire;
pub mod packets;
pub mod segmenter;
pub mod session;
pub mod config;

pub use crate::wire::UbxPacket;
pub use crate::packets::{
    decode, AckAck, AlpSrv, DecodeError, MonVer, NavPosLLH, NavPosVelTime, NavStatus, NavVelNED,
    Packet,
};
pub use crate::segmenter::Segmenter;
pub use crate::session::{
    ack_step, enable_packet_frame, port_config_frame, startup_step, version_poll_frame, AckStep,
    Action, Device, Error, Startup, RESET_SETTLE_MS, VERSION_SETTLE_MS,
    Position, ResetType, Routed, UtcTime, Velocity,
};
pub use crate::config::{AidIni, CfgMsg, CfgPrtUart, CfgRst};

verus! {

} // verus!
