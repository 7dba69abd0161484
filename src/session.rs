//! The session core: cached receiver state with its consistency rule, the
//! routing of received packets, the assistance-data chunk server, the
//! acknowledgement wait, and the outbound configuration frames. The link
//! itself is driven by the caller, which hands in bytes and sends the frames
//! returned here.
use vstd::prelude::*;
use crate::wire::{frame_bytes, UbxPacket};
use crate::packets::{
    alpsrv_bytes, AckAck, AlpSrv, DecodeError, MonVer, NavPosLLH, NavPosVelTime, NavStatus,
    NavVelNED, Packet, PacketModel,
};
use crate::segmenter::{consume_model, emitted, emitted_view, idle, ScanState, Segmenter};
use crate::config::{
    aid_ini_bytes, aid_ini_of, cfg_msg_bytes, cfg_prt_bytes, cfg_rst_bytes, AidIni, CfgMsg,
    CfgPrtUart, CfgRst,
};

verus! {

/// How much receiver state a reset discards.
#[derive(Clone, Copy, Debug, PartialEq, Eq, Structural)]
pub enum ResetType {
    Hot,
    Warm,
    Cold,
}

/// A geodetic position: latitude and longitude in 1e-7 degrees, altitude
/// above mean sea level in millimetres.
#[derive(Clone, Copy, Debug, PartialEq, Eq, Structural)]
pub struct Position {
    pub lat: i32,
    pub lon: i32,
    pub alt: i32,
}

/// Ground speed in millimetres per second and heading in 1e-5 degrees.
#[derive(Clone, Copy, Debug, PartialEq, Eq, Structural)]
pub struct Velocity {
    pub speed: i64,
    pub heading: i32,
}

/// A UTC calendar time.
#[derive(Clone, Copy, Debug, PartialEq, Eq, Structural)]
pub struct UtcTime {
    pub year: u16,
    pub month: u8,
    pub day: u8,
    pub hour: u8,
    pub min: u8,
    pub sec: u8,
    pub nanosecond: i32,
}

/// Failures of the session protocol.
#[derive(Clone, Copy, Debug, PartialEq, Eq, Structural)]
pub enum Error {
    /// No acknowledgement for this class and id arrived in time.
    TimedOutWaitingForAck(u8, u8),
    /// A packet other than an acknowledgement arrived during an ack wait.
    UnexpectedPacket,
    /// An acknowledgement for another class and id arrived: commands and
    /// acknowledgements are out of step.
    WrongAck(u8, u8),
    /// A frame with a valid checksum had a payload that fits no layout.
    Decode(DecodeError),
}

pub open spec fn fix_valid(s: NavStatus) -> bool {
    s.flags & 0x1 != 0
}

pub open spec fn position_from_llh(p: NavPosLLH) -> Position {
    Position { lat: p.lat, lon: p.lon, alt: p.height_msl }
}

pub open spec fn velocity_from_ned(v: NavVelNED) -> Velocity {
    Velocity { speed: (v.ground_speed * 10) as i64, heading: v.heading }
}

pub open spec fn position_from_pvt(s: NavPosVelTime) -> Position {
    Position { lat: s.lat, lon: s.lon, alt: s.height_msl }
}

pub open spec fn velocity_from_pvt(s: NavPosVelTime) -> Velocity {
    Velocity { speed: s.ground_speed as i64, heading: s.heading }
}

pub open spec fn time_from_pvt(s: NavPosVelTime) -> UtcTime {
    UtcTime {
        year: s.year,
        month: s.month,
        day: s.day,
        hour: s.hour,
        min: s.min,
        sec: s.sec,
        nanosecond: s.nanosecond,
    }
}

/// Fix types 3 (3D) and 4 (GNSS with dead reckoning) carry position and velocity.
pub open spec fn has_posvel(fix_type: u8) -> bool {
    fix_type == 0x03 || fix_type == 0x04
}

/// Those and fix type 5 (time only) carry the calendar time.
pub open spec fn has_time(fix_type: u8) -> bool {
    fix_type == 0x03 || fix_type == 0x04 || fix_type == 0x05
}

/// What the session holds.
pub struct DeviceModel {
    pub framer: (ScanState, Seq<u8>),
    pub alp_data: Seq<u8>,
    pub alp_file_id: u16,
    pub navpos: Option<NavPosLLH>,
    pub navvel: Option<NavVelNED>,
    pub navstatus: Option<NavStatus>,
    pub solution: Option<NavPosVelTime>,
}

/// The session state: the framer, the last packet of each navigation kind,
/// and the loaded assistance data with its file id.
pub struct Device {
    segmenter: Segmenter,
    alp_data: Vec<u8>,
    alp_file_id: u16,
    navpos: Option<NavPosLLH>,
    navvel: Option<NavVelNED>,
    navstatus: Option<NavStatus>,
    solution: Option<NavPosVelTime>,
}

impl View for Device {
    type V = DeviceModel;

    closed spec fn view(&self) -> DeviceModel {
        DeviceModel {
            framer: self.segmenter@,
            alp_data: self.alp_data@,
            alp_file_id: self.alp_file_id,
            navpos: self.navpos,
            navvel: self.navvel,
            navstatus: self.navstatus,
            solution: self.solution,
        }
    }
}

impl Device {
    /// A session with nothing received and no assistance data.
    pub fn new() -> (r: Device)
        ensures
            r@ == (DeviceModel {
                framer: (idle(), Seq::<u8>::empty()),
                alp_data: Seq::<u8>::empty(),
                alp_file_id: 0,
                navpos: None,
                navvel: None,
                navstatus: None,
                solution: None,
            }),
    {
        let r = Device {
            segmenter: Segmenter::new(),
            alp_data: Vec::new(),
            alp_file_id: 0,
            navpos: None,
            navvel: None,
            navstatus: None,
            solution: None,
        };
        assert(r.alp_data@ =~= Seq::<u8>::empty());
        r
    }

    /// The cached position, served only when the cached status has the same
    /// time of week and its fix-valid flag set.
    pub fn get_position(&self) -> (r: Option<Position>)
        ensures
            r is Some <==> ({
                &&& self@.navstatus is Some
                &&& self@.navpos is Some
                &&& self@.navstatus->0.itow == self@.navpos->0.itow
                &&& fix_valid(self@.navstatus->0)
            }),
            r is Some ==> r->0 == position_from_llh(self@.navpos->0),
    {
        match (&self.navstatus, &self.navpos) {
            (Some(status), Some(pos)) => {
                if status.itow != pos.itow {
                    None
                } else if status.flags & 0x1 == 0 {
                    None
                } else {
                    Some(Position { lat: pos.lat, lon: pos.lon, alt: pos.height_msl })
                }
            },
            _ => None,
        }
    }

    /// The cached velocity, under the same rule as `get_position`.
    pub fn get_velocity(&self) -> (r: Option<Velocity>)
        ensures
            r is Some <==> ({
                &&& self@.navstatus is Some
                &&& self@.navvel is Some
                &&& self@.navstatus->0.itow == self@.navvel->0.itow
                &&& fix_valid(self@.navstatus->0)
            }),
            r is Some ==> r->0 == velocity_from_ned(self@.navvel->0),
    {
        match (&self.navstatus, &self.navvel) {
            (Some(status), Some(vel)) => {
                if status.itow != vel.itow {
                    None
                } else if status.flags & 0x1 == 0 {
                    None
                } else {
                    Some(Velocity { speed: vel.ground_speed as i64 * 10, heading: vel.heading })
                }
            },
            _ => None,
        }
    }

    /// Position, velocity and time from the cached consolidated solution,
    /// each present only where its fix type makes it valid.
    pub fn get_solution(&self) -> (r: (Option<Position>, Option<Velocity>, Option<UtcTime>))
        ensures
            r.0 == (match self@.solution {
                Some(s) => if has_posvel(s.fix_type) { Some(position_from_pvt(s)) } else { None },
                None => None,
            }),
            r.1 == (match self@.solution {
                Some(s) => if has_posvel(s.fix_type) { Some(velocity_from_pvt(s)) } else { None },
                None => None,
            }),
            r.2 == (match self@.solution {
                Some(s) => if has_time(s.fix_type) { Some(time_from_pvt(s)) } else { None },
                None => None,
            }),
    {
        match &self.solution {
            Some(sol) => {
                let has_time = sol.fix_type == 0x03 || sol.fix_type == 0x04 || sol.fix_type == 0x05;
                let has_posvel = sol.fix_type == 0x03 || sol.fix_type == 0x04;
                let pos = if has_posvel {
                    Some(Position { lat: sol.lat, lon: sol.lon, alt: sol.height_msl })
                } else {
                    None
                };
                let vel = if has_posvel {
                    Some(Velocity { speed: sol.ground_speed as i64, heading: sol.heading })
                } else {
                    None
                };
                let time = if has_time {
                    Some(
                        UtcTime {
                            year: sol.year,
                            month: sol.month,
                            day: sol.day,
                            hour: sol.hour,
                            min: sol.min,
                            sec: sol.sec,
                            nanosecond: sol.nanosecond,
                        },
                    )
                } else {
                    None
                };
                (pos, vel, time)
            },
            None => (None, None, None),
        }
    }

    /// The file id of the loaded assistance data.
    pub fn alp_file_id(&self) -> (r: u16)
        ensures
            r == self@.alp_file_id,
    {
        self.alp_file_id
    }
}

} // verus!

verus! {

/// How long an acknowledgement is waited for.
pub const ACK_TIMEOUT_MS: u64 = 1000;

/// The 16-bit CRC (X.25 polynomial) of a byte sequence.
pub uninterp spec fn crc16_x25(s: Seq<u8>) -> u16;

/// Relies on crc::crc16::checksum_x25: the X.25 CRC-16 of the bytes, a function
/// of them alone; on no bytes the register is inverted twice and stays zero.
#[verifier::external_body]
fn checksum_x25(data: &[u8]) -> (r: u16)
    ensures
        r == crc16_x25(data@),
        data@.len() == 0 ==> r == 0,
{
    crc::crc16::checksum_x25(data)
}

/// The reply length in bytes for a request at byte `offset` for `size` bytes
/// out of `len`: nothing past the end, and no more than what remains.
pub open spec fn chunk_len(len: int, offset: int, size: int) -> int {
    if offset > len {
        0
    } else if offset + size > len {
        len - offset
    } else {
        size
    }
}

/// The reply payload to a chunk request: the request's envelope with the file
/// id and the data size substituted, then the requested bytes. The request
/// counts 16-bit words.
pub open spec fn alp_reply_payload(data: Seq<u8>, file_id: u16, req: AlpSrv) -> Seq<u8> {
    let offset = req.offset * 2;
    let size = chunk_len(data.len() as int, offset, req.size * 2);
    let env = AlpSrv { file_id, data_size: size as u16, ..req };
    alpsrv_bytes(env) + if offset > data.len() {
        Seq::empty()
    } else {
        data.subrange(offset, offset + size)
    }
}

/// Whether a chunk request gets a reply: data is loaded and the reply fits a frame.
pub open spec fn alp_answers(data: Seq<u8>, req: AlpSrv) -> bool {
    &&& data.len() > 0
    &&& 16 + chunk_len(data.len() as int, req.offset * 2, req.size * 2) <= 0xffff
}

pub open spec fn reset_msg(kind: ResetType) -> CfgRst {
    let mask: u16 = match kind {
        ResetType::Hot => 0x0000,
        ResetType::Warm => 0x0001,
        ResetType::Cold => 0xFFFF,
    };
    CfgRst { nav_bbr_mask: mask, reset_mode: 0x01, reserved1: 0 }
}

/// The port configuration sent at start-up: UART 1 at 9600 baud, 8N1, all
/// protocols in, only the binary protocol out.
pub open spec fn startup_port_config() -> CfgPrtUart {
    CfgPrtUart {
        portid: 1,
        reserved0: 0,
        tx_ready: 0,
        mode: 0x8d0,
        baud_rate: 9600,
        in_proto_mask: 0x07,
        out_proto_mask: 0x01,
        flags: 0,
        reserved5: 0,
    }
}

/// What the session does with a received packet.
#[derive(Debug)]
pub enum Routed {
    /// An acknowledgement, for the caller.
    Ack(AckAck),
    /// The version report, for the caller to show.
    Version(MonVer),
    /// A frame to send back: the answer to a chunk request.
    Reply(Vec<u8>),
    /// A packet that nothing here uses, for the caller to show.
    Report(Packet),
    /// A chunk request whose reply would not fit a frame, for the caller to show.
    ChunkTooLarge(AlpSrv),
    /// Taken into the session state, or a chunk request ignored because no
    /// assistance data is loaded.
    Handled,
}

/// What an acknowledgement wait does next.
#[derive(Clone, Copy, Debug, PartialEq, Eq, Structural)]
pub enum AckStep {
    /// Receive the next packet and ask again.
    Receive,
    /// The expected acknowledgement arrived.
    Acked,
    /// The wait ends with this error.
    Failed(Error),
}

/// One decision of the wait for the acknowledgement of `(classid, msgid)`,
/// given the time since the wait began and what the last receive returned.
pub fn ack_step(classid: u8, msgid: u8, elapsed_ms: u64, received: &Option<Packet>) -> (r: AckStep)
    ensures
        r == (match received {
            Some(Packet::AckAck(a)) => if a.classid == classid && a.msgid == msgid {
                AckStep::Acked
            } else {
                AckStep::Failed(Error::WrongAck(a.classid, a.msgid))
            },
            Some(_) => AckStep::Failed(Error::UnexpectedPacket),
            None => if elapsed_ms < ACK_TIMEOUT_MS {
                AckStep::Receive
            } else {
                AckStep::Failed(Error::TimedOutWaitingForAck(classid, msgid))
            },
        }),
{
    match received {
        Some(Packet::AckAck(a)) => {
            if a.classid != classid || a.msgid != msgid {
                AckStep::Failed(Error::WrongAck(a.classid, a.msgid))
            } else {
                AckStep::Acked
            }
        },
        Some(_) => AckStep::Failed(Error::UnexpectedPacket),
        None => {
            if elapsed_ms < ACK_TIMEOUT_MS {
                AckStep::Receive
            } else {
                AckStep::Failed(Error::TimedOutWaitingForAck(classid, msgid))
            }
        },
    }
}

/// The frame that configures the port at start-up.
pub fn port_config_frame() -> (r: Vec<u8>)
    ensures
        r@ == frame_bytes(0x06, 0x00, cfg_prt_bytes(startup_port_config())),
{
    let m = CfgPrtUart {
        portid: 1,
        reserved0: 0,
        tx_ready: 0,
        mode: 0x8d0,
        baud_rate: 9600,
        in_proto_mask: 0x07,
        out_proto_mask: 0x01,
        flags: 0,
        reserved5: 0,
    };
    m.to_ubx().serialize()
}

/// The frame that enables `(classid, msgid)` at one report per solution on UART 1.
pub fn enable_packet_frame(classid: u8, msgid: u8) -> (r: Vec<u8>)
    ensures
        r@ == frame_bytes(0x06, 0x01, seq![classid, msgid, 0u8, 1u8, 0u8, 0u8, 0u8, 0u8]),
{
    let m = CfgMsg { classid, msgid, rates: [0, 1, 0, 0, 0, 0] };
    let u = m.to_ubx();
    assert(u.payload@ =~= seq![classid, msgid, 0u8, 1u8, 0u8, 0u8, 0u8, 0u8]);
    u.serialize()
}

/// The frame that polls the version report.
pub fn version_poll_frame() -> (r: Vec<u8>)
    ensures
        r@ == frame_bytes(0x0A, 0x04, Seq::empty()),
{
    let u = UbxPacket { class: 0x0A, id: 0x04, payload: Vec::new() };
    assert(u.payload@ =~= Seq::<u8>::empty());
    u.serialize()
}

impl Device {
    /// Hands received bytes to the framer; returns the packet they complete, if any.
    pub fn recv(&mut self, bytes: &[u8]) -> (r: Result<Option<Packet>, Error>)
        ensures
            final(self)@ == (DeviceModel {
                framer: consume_model(old(self)@.framer, bytes@).0,
                ..old(self)@
            }),
            match emitted(consume_model(old(self)@.framer, bytes@).1) {
                Ok(m) => r is Ok && emitted_view(Ok(r->Ok_0)) == Ok::<
                    Option<PacketModel>,
                    DecodeError,
                >(m),
                Err(e) => r == Err::<Option<Packet>, Error>(Error::Decode(e)),
            },
    {
        match self.segmenter.consume(bytes) {
            Ok(p) => Ok(p),
            Err(e) => Err(Error::Decode(e)),
        }
    }

    /// The frame answering a chunk request from the loaded assistance data;
    /// none when no data is loaded or the reply would not fit a frame.
    pub fn alp_reply(&self, req: &AlpSrv) -> (r: Option<Vec<u8>>)
        ensures
            r is Some <==> alp_answers(self@.alp_data, *req),
            r is Some ==> r->0@ == frame_bytes(
                0x0B,
                0x32,
                alp_reply_payload(self@.alp_data, self@.alp_file_id, *req),
            ),
    {
        let len = self.alp_data.len();
        if len == 0 {
            return None;
        }
        let offset: usize = req.offset as usize * 2;
        let mut size: usize = req.size as usize * 2;
        if offset > len {
            size = 0;
        } else if offset + size > len {
            size = len - offset;
        }
        if size > 0xffff - 16 {
            return None;
        }
        let reply = AlpSrv { file_id: self.alp_file_id, data_size: size as u16, ..*req };
        let mut payload: Vec<u8> = Vec::new();
        reply.write_to(&mut payload);
        let ghost env = payload@;
        if offset <= len {
            let mut i: usize = offset;
            while i < offset + size
                invariant
                    offset <= i <= offset + size <= len == self.alp_data@.len(),
                    payload@ == env + self.alp_data@.subrange(offset as int, i as int),
                decreases offset + size - i,
            {
                payload.push(self.alp_data[i]);
                assert(self.alp_data@.subrange(offset as int, i + 1) =~= self.alp_data@.subrange(
                    offset as int,
                    i as int,
                ).push(self.alp_data@[i as int]));
                i = i + 1;
            }
        } else {
            assert(payload@ =~= env + Seq::<u8>::empty());
        }
        let u = UbxPacket { class: 0x0B, id: 0x32, payload };
        Some(u.serialize())
    }

    /// Routes a received packet: acknowledgements and the version report go
    /// back to the caller, navigation packets replace their cached copy, a
    /// chunk request is answered, anything else is handed back for reporting.
    pub fn route(&mut self, p: Packet) -> (r: Routed)
        ensures
            match p@ {
                PacketModel::AckAck(a) => final(self)@ == old(self)@ && r is Ack && r->Ack_0 == a,
                PacketModel::MonVer(sw, hw) => final(self)@ == old(self)@ && r is Version
                    && r->Version_0.sw_version@ == sw && r->Version_0.hw_version@ == hw,
                PacketModel::NavPosVelTime(m) => final(self)@ == (DeviceModel {
                    solution: Some(m),
                    ..old(self)@
                }) && r is Handled,
                PacketModel::NavVelNED(m) => final(self)@ == (DeviceModel {
                    navvel: Some(m),
                    ..old(self)@
                }) && r is Handled,
                PacketModel::NavStatus(m) => final(self)@ == (DeviceModel {
                    navstatus: Some(m),
                    ..old(self)@
                }) && r is Handled,
                PacketModel::NavPosLLH(m) => final(self)@ == (DeviceModel {
                    navpos: Some(m),
                    ..old(self)@
                }) && r is Handled,
                PacketModel::AlpSrv(req) => final(self)@ == old(self)@ && if alp_answers(
                    old(self)@.alp_data,
                    req,
                ) {
                    r is Reply && r->Reply_0@ == frame_bytes(
                        0x0B,
                        0x32,
                        alp_reply_payload(old(self)@.alp_data, old(self)@.alp_file_id, req),
                    )
                } else if old(self)@.alp_data.len() == 0 {
                    r is Handled
                } else {
                    r is ChunkTooLarge && r->ChunkTooLarge_0 == req
                },
                PacketModel::Unknown(..) => final(self)@ == old(self)@ && r is Report
                    && r->Report_0@ == p@,
            },
    {
        match p {
            Packet::AckAck(a) => Routed::Ack(a),
            Packet::MonVer(m) => Routed::Version(m),
            Packet::NavPosVelTime(m) => {
                self.solution = Some(m);
                Routed::Handled
            },
            Packet::NavVelNED(m) => {
                self.navvel = Some(m);
                Routed::Handled
            },
            Packet::NavStatus(m) => {
                self.navstatus = Some(m);
                Routed::Handled
            },
            Packet::NavPosLLH(m) => {
                self.navpos = Some(m);
                Routed::Handled
            },
            Packet::AlpSrv(req) => match self.alp_reply(&req) {
                Some(frame) => Routed::Reply(frame),
                None => if self.alp_data.len() == 0 {
                    Routed::Handled
                } else {
                    Routed::ChunkTooLarge(req)
                },
            },
            Packet::Unknown(u) => Routed::Report(Packet::Unknown(u)),
        }
    }

    /// Clears the cached position and status and returns the reset frame for
    /// `kind`; the receiver sends no acknowledgement for it.
    pub fn reset(&mut self, kind: &ResetType) -> (r: Vec<u8>)
        ensures
            r@ == frame_bytes(0x06, 0x04, cfg_rst_bytes(reset_msg(*kind))),
            final(self)@ == (DeviceModel { navpos: None, navstatus: None, ..old(self)@ }),
    {
        let mask: u16 = match kind {
            ResetType::Hot => 0x0000,
            ResetType::Warm => 0x0001,
            ResetType::Cold => 0xFFFF,
        };
        let m = CfgRst { nav_bbr_mask: mask, reset_mode: 0x01, reserved1: 0 };
        self.navpos = None;
        self.navstatus = None;
        m.to_ubx().serialize()
    }

    /// The seed frame for an optional position and an optional time; the
    /// receiver sends no acknowledgement for it.
    pub fn load_aid_data(position: Option<Position>, tm: Option<UtcTime>) -> (r: Vec<u8>)
        ensures
            r@ == frame_bytes(0x0B, 0x01, aid_ini_bytes(aid_ini_of(position, tm))),
    {
        AidIni::build(position, tm).to_ubx().serialize()
    }

    /// Loads assistance data, with its CRC as the file id, and returns the
    /// frame that enables chunk requests (acknowledged as class 0x06, id 0x01).
    pub fn set_alp_offline(&mut self, data: &[u8]) -> (r: Vec<u8>)
        ensures
            final(self)@ == (DeviceModel {
                alp_data: data@,
                alp_file_id: crc16_x25(data@),
                ..old(self)@
            }),
            r@ == frame_bytes(0x06, 0x01, seq![0x0Bu8, 0x32u8, 0x01u8]),
    {
        let mut copy: Vec<u8> = Vec::new();
        let mut i: usize = 0;
        while i < data.len()
            invariant
                i <= data@.len(),
                copy@ == data@.take(i as int),
            decreases data@.len() - i,
        {
            copy.push(data[i]);
            assert(data@.take(i + 1) =~= data@.take(i as int).push(data@[i as int]));
            i = i + 1;
        }
        assert(data@.take(i as int) =~= data@);
        self.alp_data = copy;
        self.alp_file_id = checksum_x25(data);
        let mut payload: Vec<u8> = Vec::new();
        payload.push(0x0B);
        payload.push(0x32);
        payload.push(0x01);
        assert(payload@ =~= seq![0x0Bu8, 0x32u8, 0x01u8]);
        UbxPacket { class: 0x06, id: 0x01, payload }.serialize()
    }
}

} // verus!

verus! {

/// How long incoming traffic is drained after the version poll at start-up.
pub const VERSION_SETTLE_MS: u64 = 200;

/// How long incoming bytes are drained, unchecked, after a reset.
pub const RESET_SETTLE_MS: u64 = 500;

/// The stages of the start-up handshake.
#[derive(Clone, Copy, Debug, PartialEq, Eq, Structural)]
pub enum Startup {
    PortConfig,
    PortAck,
    EnableSolution,
    SolutionAck,
    VersionPoll,
    Settle,
    Done,
}

/// What the caller does for one stage of the start-up handshake.
#[derive(Debug)]
pub enum Action {
    /// Write this frame to the link.
    Send(Vec<u8>),
    /// Wait for the acknowledgement of this class and id; failure ends start-up.
    AwaitAck(u8, u8),
    /// Receive and route packets for this many milliseconds.
    Drain(u64),
    /// Start-up is complete.
    Finish,
    /// The previous action failed: start-up ends with its error.
    Abort,
}

/// The action for a start-up stage, and the stage after it: configure the
/// port for binary output and await its acknowledgement, enable the
/// consolidated solution and await its acknowledgement, poll the version and
/// drain traffic for a while. A failed action ends start-up.
pub fn startup_step(stage: Startup, previous_ok: bool) -> (r: (Action, Startup))
    ensures
        !previous_ok ==> r.0 is Abort && r.1 == Startup::Done,
        previous_ok ==> match stage {
            Startup::PortConfig => r.0 is Send && r.0->Send_0@ == frame_bytes(
                0x06,
                0x00,
                cfg_prt_bytes(startup_port_config()),
            ) && r.1 == Startup::PortAck,
            Startup::PortAck => r.0 is AwaitAck && r.0->AwaitAck_0 == 0x06 && r.0->AwaitAck_1
                == 0x00 && r.1 == Startup::EnableSolution,
            Startup::EnableSolution => r.0 is Send && r.0->Send_0@ == frame_bytes(
                0x06,
                0x01,
                seq![0x01u8, 0x07u8, 0u8, 1u8, 0u8, 0u8, 0u8, 0u8],
            ) && r.1 == Startup::SolutionAck,
            Startup::SolutionAck => r.0 is AwaitAck && r.0->AwaitAck_0 == 0x06 && r.0->AwaitAck_1
                == 0x01 && r.1 == Startup::VersionPoll,
            Startup::VersionPoll => r.0 is Send && r.0->Send_0@ == frame_bytes(
                0x0A,
                0x04,
                Seq::empty(),
            ) && r.1 == Startup::Settle,
            Startup::Settle => r.0 is Drain && r.0->Drain_0 == VERSION_SETTLE_MS && r.1
                == Startup::Done,
            Startup::Done => r.0 is Finish && r.1 == Startup::Done,
        },
{
    if !previous_ok {
        return (Action::Abort, Startup::Done);
    }
    match stage {
        Startup::PortConfig => (Action::Send(port_config_frame()), Startup::PortAck),
        Startup::PortAck => (Action::AwaitAck(0x06, 0x00), Startup::EnableSolution),
        Startup::EnableSolution => (Action::Send(enable_packet_frame(0x01, 0x07)), Startup::SolutionAck),
        Startup::SolutionAck => (Action::AwaitAck(0x06, 0x01), Startup::VersionPoll),
        Startup::VersionPoll => (Action::Send(version_poll_frame()), Startup::Settle),
        Startup::Settle => (Action::Drain(VERSION_SETTLE_MS), Startup::Done),
        Startup::Done => (Action::Finish, Startup::Done),
    }
}

} // verus!
