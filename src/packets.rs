//! The packet catalog: typed payloads, their fixed little-endian layouts, and
//! the codec between typed packets and `(class, id, payload)` triples.
use vstd::prelude::*;
use crate::wire::{
    le16, le32, u16_at, u32_at, get_u16, get_u32, put_u8, put_u16, put_u32, put_all, copy_range,
    lemma_u16_round_trip, lemma_u32_round_trip, lemma_i32_round_trip, lemma_i16_round_trip,
    UbxPacket,
};

verus! {

/// Acknowledgement of a configuration message (class 0x05, id 0x01).
#[derive(Clone, Copy, Debug, PartialEq, Eq, Structural)]
pub struct AckAck {
    pub classid: u8,
    pub msgid: u8,
}

/// Geodetic position (class 0x01, id 0x02). Angles in 1e-7 degrees, heights in mm.
#[derive(Clone, Copy, Debug, PartialEq, Eq, Structural)]
pub struct NavPosLLH {
    pub itow: u32,
    pub lon: i32,
    pub lat: i32,
    pub height_ellipsoid: i32,
    pub height_msl: i32,
    pub horizontal_accuracy: u32,
    pub vertical_accuracy: u32,
}

/// Receiver navigation status (class 0x01, id 0x03). Bit 0 of `flags` is "fix valid".
#[derive(Clone, Copy, Debug, PartialEq, Eq, Structural)]
pub struct NavStatus {
    pub itow: u32,
    pub fix_type: u8,
    pub flags: u8,
    pub fix_status: u8,
    pub flags2: u8,
    pub time_to_first_fix: u32,
    pub uptime_ms: u32,
}

/// Velocity in the local north/east/down frame (class 0x01, id 0x12). cm/s, 1e-5 degrees.
#[derive(Clone, Copy, Debug, PartialEq, Eq, Structural)]
pub struct NavVelNED {
    pub itow: u32,
    pub vel_north: i32,
    pub vel_east: i32,
    pub vel_down: i32,
    pub speed: u32,
    pub ground_speed: u32,
    pub heading: i32,
    pub speed_accuracy: u32,
    pub course_accuracy: u32,
}

/// Consolidated position, velocity and time solution (class 0x01, id 0x07).
#[derive(Clone, Copy, Debug, PartialEq, Eq, Structural)]
pub struct NavPosVelTime {
    pub itow: u32,
    pub year: u16,
    pub month: u8,
    pub day: u8,
    pub hour: u8,
    pub min: u8,
    pub sec: u8,
    pub valid: u8,
    pub time_accuracy: u32,
    pub nanosecond: i32,
    pub fix_type: u8,
    pub flags: u8,
    pub flags2: u8,
    pub num_satellites: u8,
    pub lon: i32,
    pub lat: i32,
    pub height: i32,
    pub height_msl: i32,
    pub horizontal_accuracy: u32,
    pub vertical_accuracy: u32,
    pub vel_north: i32,
    pub vel_east: i32,
    pub vel_down: i32,
    pub ground_speed: i32,
    pub heading: i32,
    pub speed_accuracy: u32,
    pub heading_accuracy: u32,
    pub pos_dop: u16,
    pub reserved1: u16,
    pub reserved2: u32,
    pub heading_of_vehicle: i32,
    pub magnetic_declination: i16,
    pub magnetic_declination_accuracy: u16,
}

/// Assistance-data chunk request from the receiver, and the envelope of the
/// reply (class 0x0B, id 0x32). `offset` and `size` count 16-bit words.
#[derive(Clone, Copy, Debug, PartialEq, Eq, Structural)]
pub struct AlpSrv {
    pub id_size: u8,
    pub data_type: u8,
    pub offset: u16,
    pub size: u16,
    pub file_id: u16,
    pub data_size: u16,
    pub id1: u8,
    pub id2: u8,
    pub id3: u32,
}

/// Firmware and hardware identification (class 0x0A, id 0x04): the two
/// fixed-width, zero-padded text fields.
#[derive(Clone, Debug)]
pub struct MonVer {
    pub sw_version: Vec<u8>,
    pub hw_version: Vec<u8>,
}

/// Every packet the receiver may send; anything outside the catalog is kept raw.
#[derive(Clone, Debug)]
pub enum Packet {
    AckAck(AckAck),
    MonVer(MonVer),
    NavPosLLH(NavPosLLH),
    NavStatus(NavStatus),
    NavVelNED(NavVelNED),
    NavPosVelTime(NavPosVelTime),
    AlpSrv(AlpSrv),
    Unknown(UbxPacket),
}

/// What a `Packet` holds, with byte vectors seen as sequences.
pub enum PacketModel {
    AckAck(AckAck),
    MonVer(Seq<u8>, Seq<u8>),
    NavPosLLH(NavPosLLH),
    NavStatus(NavStatus),
    NavVelNED(NavVelNED),
    NavPosVelTime(NavPosVelTime),
    AlpSrv(AlpSrv),
    Unknown(u8, u8, Seq<u8>),
}

impl View for Packet {
    type V = PacketModel;

    open spec fn view(&self) -> PacketModel {
        match self {
            Packet::AckAck(m) => PacketModel::AckAck(*m),
            Packet::MonVer(m) => PacketModel::MonVer(m.sw_version@, m.hw_version@),
            Packet::NavPosLLH(m) => PacketModel::NavPosLLH(*m),
            Packet::NavStatus(m) => PacketModel::NavStatus(*m),
            Packet::NavVelNED(m) => PacketModel::NavVelNED(*m),
            Packet::NavPosVelTime(m) => PacketModel::NavPosVelTime(*m),
            Packet::AlpSrv(m) => PacketModel::AlpSrv(*m),
            Packet::Unknown(u) => PacketModel::Unknown(u.class, u.id, u.payload@),
        }
    }
}

/// A payload whose length does not fit the layout of its class and id.
#[derive(Clone, Copy, Debug, PartialEq, Eq, Structural)]
pub enum DecodeError {
    InvalidLength { class: u8, id: u8, len: usize },
}

pub const ACK_LEN: usize = 2;
pub const POSLLH_LEN: usize = 28;
pub const STATUS_LEN: usize = 16;
pub const VELNED_LEN: usize = 36;
pub const PVT_LEN: usize = 92;
pub const ALPSRV_LEN: usize = 16;
pub const MONVER_SW_LEN: usize = 30;
pub const MONVER_HW_LEN: usize = 10;
pub const MONVER_LEN: usize = 40;

pub open spec fn i32_at(p: Seq<u8>, o: int) -> i32 {
    u32_at(p, o) as i32
}

pub open spec fn i16_at(p: Seq<u8>, o: int) -> i16 {
    u16_at(p, o) as i16
}

pub open spec fn lei32(x: i32) -> Seq<u8> {
    le32(x as u32)
}

pub open spec fn lei16(x: i16) -> Seq<u8> {
    le16(x as u16)
}

pub open spec fn ack_of(p: Seq<u8>) -> AckAck {
    AckAck { classid: p[0], msgid: p[1] }
}

pub open spec fn ack_bytes(m: AckAck) -> Seq<u8> {
    seq![m.classid, m.msgid]
}

pub open spec fn posllh_of(p: Seq<u8>) -> NavPosLLH {
    NavPosLLH {
        itow: u32_at(p, 0),
        lon: i32_at(p, 4),
        lat: i32_at(p, 8),
        height_ellipsoid: i32_at(p, 12),
        height_msl: i32_at(p, 16),
        horizontal_accuracy: u32_at(p, 20),
        vertical_accuracy: u32_at(p, 24),
    }
}

pub open spec fn posllh_bytes(m: NavPosLLH) -> Seq<u8> {
    le32(m.itow) + lei32(m.lon) + lei32(m.lat) + lei32(m.height_ellipsoid) + lei32(m.height_msl)
        + le32(m.horizontal_accuracy) + le32(m.vertical_accuracy)
}

pub open spec fn status_of(p: Seq<u8>) -> NavStatus {
    NavStatus {
        itow: u32_at(p, 0),
        fix_type: p[4],
        flags: p[5],
        fix_status: p[6],
        flags2: p[7],
        time_to_first_fix: u32_at(p, 8),
        uptime_ms: u32_at(p, 12),
    }
}

pub open spec fn status_bytes(m: NavStatus) -> Seq<u8> {
    le32(m.itow) + seq![m.fix_type, m.flags, m.fix_status, m.flags2] + le32(m.time_to_first_fix)
        + le32(m.uptime_ms)
}

pub open spec fn velned_of(p: Seq<u8>) -> NavVelNED {
    NavVelNED {
        itow: u32_at(p, 0),
        vel_north: i32_at(p, 4),
        vel_east: i32_at(p, 8),
        vel_down: i32_at(p, 12),
        speed: u32_at(p, 16),
        ground_speed: u32_at(p, 20),
        heading: i32_at(p, 24),
        speed_accuracy: u32_at(p, 28),
        course_accuracy: u32_at(p, 32),
    }
}

pub open spec fn velned_bytes(m: NavVelNED) -> Seq<u8> {
    le32(m.itow) + lei32(m.vel_north) + lei32(m.vel_east) + lei32(m.vel_down) + le32(m.speed)
        + le32(m.ground_speed) + lei32(m.heading) + le32(m.speed_accuracy) + le32(
        m.course_accuracy,
    )
}

pub open spec fn pvt_of(p: Seq<u8>) -> NavPosVelTime {
    NavPosVelTime {
        itow: u32_at(p, 0),
        year: u16_at(p, 4),
        month: p[6],
        day: p[7],
        hour: p[8],
        min: p[9],
        sec: p[10],
        valid: p[11],
        time_accuracy: u32_at(p, 12),
        nanosecond: i32_at(p, 16),
        fix_type: p[20],
        flags: p[21],
        flags2: p[22],
        num_satellites: p[23],
        lon: i32_at(p, 24),
        lat: i32_at(p, 28),
        height: i32_at(p, 32),
        height_msl: i32_at(p, 36),
        horizontal_accuracy: u32_at(p, 40),
        vertical_accuracy: u32_at(p, 44),
        vel_north: i32_at(p, 48),
        vel_east: i32_at(p, 52),
        vel_down: i32_at(p, 56),
        ground_speed: i32_at(p, 60),
        heading: i32_at(p, 64),
        speed_accuracy: u32_at(p, 68),
        heading_accuracy: u32_at(p, 72),
        pos_dop: u16_at(p, 76),
        reserved1: u16_at(p, 78),
        reserved2: u32_at(p, 80),
        heading_of_vehicle: i32_at(p, 84),
        magnetic_declination: i16_at(p, 88),
        magnetic_declination_accuracy: u16_at(p, 90),
    }
}

/// Bytes 0..24 of the solution layout: time and fix description.
pub open spec fn pvt_time_bytes(m: NavPosVelTime) -> Seq<u8> {
    le32(m.itow) + le16(m.year) + seq![m.month, m.day, m.hour, m.min, m.sec, m.valid] + le32(
        m.time_accuracy,
    ) + lei32(m.nanosecond) + seq![m.fix_type, m.flags, m.flags2, m.num_satellites]
}

/// Bytes 24..48 of the solution layout: position.
pub open spec fn pvt_pos_bytes(m: NavPosVelTime) -> Seq<u8> {
    lei32(m.lon) + lei32(m.lat) + lei32(m.height) + lei32(m.height_msl) + le32(
        m.horizontal_accuracy,
    ) + le32(m.vertical_accuracy)
}

/// Bytes 48..92 of the solution layout: velocity and the trailing fields.
pub open spec fn pvt_vel_bytes(m: NavPosVelTime) -> Seq<u8> {
    lei32(m.vel_north) + lei32(m.vel_east) + lei32(m.vel_down) + lei32(m.ground_speed) + lei32(
        m.heading,
    ) + le32(m.speed_accuracy) + le32(m.heading_accuracy) + le16(m.pos_dop) + le16(m.reserved1)
        + le32(m.reserved2) + lei32(m.heading_of_vehicle) + lei16(m.magnetic_declination) + le16(
        m.magnetic_declination_accuracy,
    )
}

pub open spec fn pvt_bytes(m: NavPosVelTime) -> Seq<u8> {
    pvt_time_bytes(m) + pvt_pos_bytes(m) + pvt_vel_bytes(m)
}

pub open spec fn alpsrv_of(p: Seq<u8>) -> AlpSrv {
    AlpSrv {
        id_size: p[0],
        data_type: p[1],
        offset: u16_at(p, 2),
        size: u16_at(p, 4),
        file_id: u16_at(p, 6),
        data_size: u16_at(p, 8),
        id1: p[10],
        id2: p[11],
        id3: u32_at(p, 12),
    }
}

pub open spec fn alpsrv_bytes(m: AlpSrv) -> Seq<u8> {
    seq![m.id_size, m.data_type] + le16(m.offset) + le16(m.size) + le16(m.file_id) + le16(
        m.data_size,
    ) + seq![m.id1, m.id2] + le32(m.id3)
}

} // verus!

verus! {

proof fn lemma_u32_field(s: Seq<u8>, o: int, x: u32)
    requires
        0 <= o,
        o + 4 <= s.len(),
        s.subrange(o, o + 4) == le32(x),
    ensures
        u32_at(s, o) == x,
        i32_at(s, o) == x as i32,
{
    assert(s[o] == s.subrange(o, o + 4)[0]);
    assert(s[o + 1] == s.subrange(o, o + 4)[1]);
    assert(s[o + 2] == s.subrange(o, o + 4)[2]);
    assert(s[o + 3] == s.subrange(o, o + 4)[3]);
    lemma_u32_round_trip(x);
}

proof fn lemma_i32_field(s: Seq<u8>, o: int, x: i32)
    requires
        0 <= o,
        o + 4 <= s.len(),
        s.subrange(o, o + 4) == lei32(x),
    ensures
        i32_at(s, o) == x,
{
    lemma_u32_field(s, o, x as u32);
    lemma_i32_round_trip(x);
}

proof fn lemma_u16_field(s: Seq<u8>, o: int, x: u16)
    requires
        0 <= o,
        o + 2 <= s.len(),
        s.subrange(o, o + 2) == le16(x),
    ensures
        u16_at(s, o) == x,
        i16_at(s, o) == x as i16,
{
    assert(s[o] == s.subrange(o, o + 2)[0]);
    assert(s[o + 1] == s.subrange(o, o + 2)[1]);
    lemma_u16_round_trip(x);
}

proof fn lemma_i16_field(s: Seq<u8>, o: int, x: i16)
    requires
        0 <= o,
        o + 2 <= s.len(),
        s.subrange(o, o + 2) == lei16(x),
    ensures
        i16_at(s, o) == x,
{
    lemma_u16_field(s, o, x as u16);
    lemma_i16_round_trip(x);
}

pub proof fn lemma_posllh_round_trip(m: NavPosLLH)
    ensures
        posllh_bytes(m).len() == POSLLH_LEN,
        posllh_of(posllh_bytes(m)) == m,
{
    let s = posllh_bytes(m);
    assert(s.subrange(0, 4) =~= le32(m.itow));
    assert(s.subrange(4, 8) =~= lei32(m.lon));
    assert(s.subrange(8, 12) =~= lei32(m.lat));
    assert(s.subrange(12, 16) =~= lei32(m.height_ellipsoid));
    assert(s.subrange(16, 20) =~= lei32(m.height_msl));
    assert(s.subrange(20, 24) =~= le32(m.horizontal_accuracy));
    assert(s.subrange(24, 28) =~= le32(m.vertical_accuracy));
    lemma_u32_field(s, 0, m.itow);
    lemma_i32_field(s, 4, m.lon);
    lemma_i32_field(s, 8, m.lat);
    lemma_i32_field(s, 12, m.height_ellipsoid);
    lemma_i32_field(s, 16, m.height_msl);
    lemma_u32_field(s, 20, m.horizontal_accuracy);
    lemma_u32_field(s, 24, m.vertical_accuracy);
}

} // verus!

verus! {

pub proof fn lemma_ack_round_trip(m: AckAck)
    ensures
        ack_bytes(m).len() == ACK_LEN,
        ack_of(ack_bytes(m)) == m,
{
}

pub proof fn lemma_status_round_trip(m: NavStatus)
    ensures
        status_bytes(m).len() == STATUS_LEN,
        status_of(status_bytes(m)) == m,
{
    let s = status_bytes(m);
    assert(s.subrange(0, 4) =~= le32(m.itow));
    assert(s.subrange(8, 12) =~= le32(m.time_to_first_fix));
    assert(s.subrange(12, 16) =~= le32(m.uptime_ms));
    lemma_u32_field(s, 0, m.itow);
    lemma_u32_field(s, 8, m.time_to_first_fix);
    lemma_u32_field(s, 12, m.uptime_ms);
}

pub proof fn lemma_velned_round_trip(m: NavVelNED)
    ensures
        velned_bytes(m).len() == VELNED_LEN,
        velned_of(velned_bytes(m)) == m,
{
    let s = velned_bytes(m);
    assert(s.subrange(0, 4) =~= le32(m.itow));
    assert(s.subrange(4, 8) =~= lei32(m.vel_north));
    assert(s.subrange(8, 12) =~= lei32(m.vel_east));
    assert(s.subrange(12, 16) =~= lei32(m.vel_down));
    assert(s.subrange(16, 20) =~= le32(m.speed));
    assert(s.subrange(20, 24) =~= le32(m.ground_speed));
    assert(s.subrange(24, 28) =~= lei32(m.heading));
    assert(s.subrange(28, 32) =~= le32(m.speed_accuracy));
    assert(s.subrange(32, 36) =~= le32(m.course_accuracy));
    lemma_u32_field(s, 0, m.itow);
    lemma_i32_field(s, 4, m.vel_north);
    lemma_i32_field(s, 8, m.vel_east);
    lemma_i32_field(s, 12, m.vel_down);
    lemma_u32_field(s, 16, m.speed);
    lemma_u32_field(s, 20, m.ground_speed);
    lemma_i32_field(s, 24, m.heading);
    lemma_u32_field(s, 28, m.speed_accuracy);
    lemma_u32_field(s, 32, m.course_accuracy);
}

pub proof fn lemma_alpsrv_round_trip(m: AlpSrv)
    ensures
        alpsrv_bytes(m).len() == ALPSRV_LEN,
        alpsrv_of(alpsrv_bytes(m)) == m,
{
    let s = alpsrv_bytes(m);
    assert(s.subrange(2, 4) =~= le16(m.offset));
    assert(s.subrange(4, 6) =~= le16(m.size));
    assert(s.subrange(6, 8) =~= le16(m.file_id));
    assert(s.subrange(8, 10) =~= le16(m.data_size));
    assert(s.subrange(12, 16) =~= le32(m.id3));
    lemma_u16_field(s, 2, m.offset);
    lemma_u16_field(s, 4, m.size);
    lemma_u16_field(s, 6, m.file_id);
    lemma_u16_field(s, 8, m.data_size);
    lemma_u32_field(s, 12, m.id3);
}

#[verifier::rlimit(50)]
pub proof fn lemma_pvt_round_trip(m: NavPosVelTime)
    ensures
        pvt_bytes(m).len() == PVT_LEN,
        pvt_of(pvt_bytes(m)) == m,
{
    let t = pvt_time_bytes(m);
    let p = pvt_pos_bytes(m);
    let v = pvt_vel_bytes(m);
    let s = pvt_bytes(m);
    assert(t.len() == 24 && p.len() == 24 && v.len() == 44);
    assert(s.subrange(0, 24) =~= t);
    assert(s.subrange(24, 48) =~= p);
    assert(s.subrange(48, 92) =~= v);
    assert(s.subrange(0, 4) =~= le32(m.itow));
    assert(s.subrange(4, 6) =~= le16(m.year));
    assert(s.subrange(12, 16) =~= le32(m.time_accuracy));
    assert(s.subrange(16, 20) =~= lei32(m.nanosecond));
    assert(s[6] == m.month && s[7] == m.day && s[8] == m.hour && s[9] == m.min);
    assert(s[10] == m.sec && s[11] == m.valid && s[20] == m.fix_type && s[21] == m.flags);
    assert(s[22] == m.flags2 && s[23] == m.num_satellites);
    assert(s.subrange(24, 28) =~= lei32(m.lon));
    assert(s.subrange(28, 32) =~= lei32(m.lat));
    assert(s.subrange(32, 36) =~= lei32(m.height));
    assert(s.subrange(36, 40) =~= lei32(m.height_msl));
    assert(s.subrange(40, 44) =~= le32(m.horizontal_accuracy));
    assert(s.subrange(44, 48) =~= le32(m.vertical_accuracy));
    assert(s.subrange(48, 52) =~= lei32(m.vel_north));
    assert(s.subrange(52, 56) =~= lei32(m.vel_east));
    assert(s.subrange(56, 60) =~= lei32(m.vel_down));
    assert(s.subrange(60, 64) =~= lei32(m.ground_speed));
    assert(s.subrange(64, 68) =~= lei32(m.heading));
    assert(s.subrange(68, 72) =~= le32(m.speed_accuracy));
    assert(s.subrange(72, 76) =~= le32(m.heading_accuracy));
    assert(s.subrange(76, 78) =~= le16(m.pos_dop));
    assert(s.subrange(78, 80) =~= le16(m.reserved1));
    assert(s.subrange(80, 84) =~= le32(m.reserved2));
    assert(s.subrange(84, 88) =~= lei32(m.heading_of_vehicle));
    assert(s.subrange(88, 90) =~= lei16(m.magnetic_declination));
    assert(s.subrange(90, 92) =~= le16(m.magnetic_declination_accuracy));
    lemma_u32_field(s, 0, m.itow);
    lemma_u16_field(s, 4, m.year);
    lemma_u32_field(s, 12, m.time_accuracy);
    lemma_i32_field(s, 16, m.nanosecond);
    lemma_i32_field(s, 24, m.lon);
    lemma_i32_field(s, 28, m.lat);
    lemma_i32_field(s, 32, m.height);
    lemma_i32_field(s, 36, m.height_msl);
    lemma_u32_field(s, 40, m.horizontal_accuracy);
    lemma_u32_field(s, 44, m.vertical_accuracy);
    lemma_i32_field(s, 48, m.vel_north);
    lemma_i32_field(s, 52, m.vel_east);
    lemma_i32_field(s, 56, m.vel_down);
    lemma_i32_field(s, 60, m.ground_speed);
    lemma_i32_field(s, 64, m.heading);
    lemma_u32_field(s, 68, m.speed_accuracy);
    lemma_u32_field(s, 72, m.heading_accuracy);
    lemma_u16_field(s, 76, m.pos_dop);
    lemma_u16_field(s, 78, m.reserved1);
    lemma_u32_field(s, 80, m.reserved2);
    lemma_i32_field(s, 84, m.heading_of_vehicle);
    lemma_i16_field(s, 88, m.magnetic_declination);
    lemma_u16_field(s, 90, m.magnetic_declination_accuracy);
}

} // verus!

verus! {

/// Whether `(class, id)` names an inbound packet of the catalog.
pub open spec fn is_known(class: u8, id: u8) -> bool {
    (class == 0x05 && id == 0x01) || (class == 0x0A && id == 0x04) || (class == 0x01 && (id
        == 0x02 || id == 0x03 || id == 0x07 || id == 0x12)) || (class == 0x0B && id == 0x32)
}

pub open spec fn bad_len(class: u8, id: u8, p: Seq<u8>) -> DecodeError {
    DecodeError::InvalidLength { class, id, len: p.len() as usize }
}

/// The packet that a validated frame's class, id and payload stand for.
pub open spec fn decode_model(class: u8, id: u8, p: Seq<u8>) -> Result<PacketModel, DecodeError> {
    if class == 0x05 && id == 0x01 {
        if p.len() == ACK_LEN { Ok(PacketModel::AckAck(ack_of(p))) } else { Err(bad_len(class, id, p)) }
    } else if class == 0x0A && id == 0x04 {
        if p.len() == MONVER_LEN {
            Ok(PacketModel::MonVer(p.subrange(0, 30), p.subrange(30, 40)))
        } else {
            Err(bad_len(class, id, p))
        }
    } else if class == 0x01 && id == 0x02 {
        if p.len() == POSLLH_LEN {
            Ok(PacketModel::NavPosLLH(posllh_of(p)))
        } else {
            Err(bad_len(class, id, p))
        }
    } else if class == 0x01 && id == 0x03 {
        if p.len() == STATUS_LEN {
            Ok(PacketModel::NavStatus(status_of(p)))
        } else {
            Err(bad_len(class, id, p))
        }
    } else if class == 0x01 && id == 0x07 {
        if p.len() == PVT_LEN {
            Ok(PacketModel::NavPosVelTime(pvt_of(p)))
        } else {
            Err(bad_len(class, id, p))
        }
    } else if class == 0x01 && id == 0x12 {
        if p.len() == VELNED_LEN {
            Ok(PacketModel::NavVelNED(velned_of(p)))
        } else {
            Err(bad_len(class, id, p))
        }
    } else if class == 0x0B && id == 0x32 {
        if p.len() == ALPSRV_LEN {
            Ok(PacketModel::AlpSrv(alpsrv_of(p)))
        } else {
            Err(bad_len(class, id, p))
        }
    } else {
        Ok(PacketModel::Unknown(class, id, p))
    }
}

/// The class, id and payload that a packet is sent as.
pub open spec fn encode_model(m: PacketModel) -> (u8, u8, Seq<u8>) {
    match m {
        PacketModel::AckAck(a) => (0x05, 0x01, ack_bytes(a)),
        PacketModel::MonVer(sw, hw) => (0x0A, 0x04, sw + hw),
        PacketModel::NavPosLLH(a) => (0x01, 0x02, posllh_bytes(a)),
        PacketModel::NavStatus(a) => (0x01, 0x03, status_bytes(a)),
        PacketModel::NavPosVelTime(a) => (0x01, 0x07, pvt_bytes(a)),
        PacketModel::NavVelNED(a) => (0x01, 0x12, velned_bytes(a)),
        PacketModel::AlpSrv(a) => (0x0B, 0x32, alpsrv_bytes(a)),
        PacketModel::Unknown(c, i, p) => (c, i, p),
    }
}

/// A packet that the codec can carry: text fields of their fixed widths, and
/// raw packets only for pairs outside the catalog.
pub open spec fn valid_model(m: PacketModel) -> bool {
    match m {
        PacketModel::MonVer(sw, hw) => sw.len() == MONVER_SW_LEN && hw.len() == MONVER_HW_LEN,
        PacketModel::Unknown(c, i, _) => !is_known(c, i),
        _ => true,
    }
}

pub open spec fn decoded_view(r: Result<Packet, DecodeError>) -> Result<PacketModel, DecodeError> {
    match r {
        Ok(p) => Ok(p@),
        Err(e) => Err(e),
    }
}

/// Decoding what a valid packet encodes to gives the packet back, field for field.
pub proof fn lemma_codec_round_trip(m: PacketModel)
    requires
        valid_model(m),
    ensures
        decode_model(encode_model(m).0, encode_model(m).1, encode_model(m).2) == Ok::<
            PacketModel,
            DecodeError,
        >(m),
{
    match m {
        PacketModel::AckAck(a) => lemma_ack_round_trip(a),
        PacketModel::MonVer(sw, hw) => {
            assert((sw + hw).subrange(0, 30) =~= sw);
            assert((sw + hw).subrange(30, 40) =~= hw);
        },
        PacketModel::NavPosLLH(a) => lemma_posllh_round_trip(a),
        PacketModel::NavStatus(a) => lemma_status_round_trip(a),
        PacketModel::NavPosVelTime(a) => lemma_pvt_round_trip(a),
        PacketModel::NavVelNED(a) => lemma_velned_round_trip(a),
        PacketModel::AlpSrv(a) => lemma_alpsrv_round_trip(a),
        PacketModel::Unknown(c, i, p) => {},
    }
}

impl AckAck {
    pub fn parse(p: &Vec<u8>) -> (r: AckAck)
        requires
            p.len() == ACK_LEN,
        ensures
            r == ack_of(p@),
    {
        AckAck { classid: p[0], msgid: p[1] }
    }

    pub fn write_to(&self, v: &mut Vec<u8>)
        ensures
            final(v)@ == old(v)@ + ack_bytes(*self),
    {
        put_u8(v, self.classid);
        put_u8(v, self.msgid);
        assert(final(v)@ =~= old(v)@ + ack_bytes(*self));
    }
}

impl NavPosLLH {
    pub fn parse(p: &Vec<u8>) -> (r: NavPosLLH)
        requires
            p.len() == POSLLH_LEN,
        ensures
            r == posllh_of(p@),
    {
        NavPosLLH {
            itow: get_u32(p, 0),
            lon: get_u32(p, 4) as i32,
            lat: get_u32(p, 8) as i32,
            height_ellipsoid: get_u32(p, 12) as i32,
            height_msl: get_u32(p, 16) as i32,
            horizontal_accuracy: get_u32(p, 20),
            vertical_accuracy: get_u32(p, 24),
        }
    }

    pub fn write_to(&self, v: &mut Vec<u8>)
        ensures
            final(v)@ == old(v)@ + posllh_bytes(*self),
    {
        put_u32(v, self.itow);
        put_u32(v, self.lon as u32);
        put_u32(v, self.lat as u32);
        put_u32(v, self.height_ellipsoid as u32);
        put_u32(v, self.height_msl as u32);
        put_u32(v, self.horizontal_accuracy);
        put_u32(v, self.vertical_accuracy);
        assert(final(v)@ =~= old(v)@ + posllh_bytes(*self));
    }
}

impl NavStatus {
    pub fn parse(p: &Vec<u8>) -> (r: NavStatus)
        requires
            p.len() == STATUS_LEN,
        ensures
            r == status_of(p@),
    {
        NavStatus {
            itow: get_u32(p, 0),
            fix_type: p[4],
            flags: p[5],
            fix_status: p[6],
            flags2: p[7],
            time_to_first_fix: get_u32(p, 8),
            uptime_ms: get_u32(p, 12),
        }
    }

    pub fn write_to(&self, v: &mut Vec<u8>)
        ensures
            final(v)@ == old(v)@ + status_bytes(*self),
    {
        put_u32(v, self.itow);
        put_u8(v, self.fix_type);
        put_u8(v, self.flags);
        put_u8(v, self.fix_status);
        put_u8(v, self.flags2);
        put_u32(v, self.time_to_first_fix);
        put_u32(v, self.uptime_ms);
        assert(final(v)@ =~= old(v)@ + status_bytes(*self));
    }
}

impl NavVelNED {
    pub fn parse(p: &Vec<u8>) -> (r: NavVelNED)
        requires
            p.len() == VELNED_LEN,
        ensures
            r == velned_of(p@),
    {
        NavVelNED {
            itow: get_u32(p, 0),
            vel_north: get_u32(p, 4) as i32,
            vel_east: get_u32(p, 8) as i32,
            vel_down: get_u32(p, 12) as i32,
            speed: get_u32(p, 16),
            ground_speed: get_u32(p, 20),
            heading: get_u32(p, 24) as i32,
            speed_accuracy: get_u32(p, 28),
            course_accuracy: get_u32(p, 32),
        }
    }

    pub fn write_to(&self, v: &mut Vec<u8>)
        ensures
            final(v)@ == old(v)@ + velned_bytes(*self),
    {
        put_u32(v, self.itow);
        put_u32(v, self.vel_north as u32);
        put_u32(v, self.vel_east as u32);
        put_u32(v, self.vel_down as u32);
        put_u32(v, self.speed);
        put_u32(v, self.ground_speed);
        put_u32(v, self.heading as u32);
        put_u32(v, self.speed_accuracy);
        put_u32(v, self.course_accuracy);
        assert(final(v)@ =~= old(v)@ + velned_bytes(*self));
    }
}

impl AlpSrv {
    pub fn parse(p: &Vec<u8>) -> (r: AlpSrv)
        requires
            p.len() == ALPSRV_LEN,
        ensures
            r == alpsrv_of(p@),
    {
        AlpSrv {
            id_size: p[0],
            data_type: p[1],
            offset: get_u16(p, 2),
            size: get_u16(p, 4),
            file_id: get_u16(p, 6),
            data_size: get_u16(p, 8),
            id1: p[10],
            id2: p[11],
            id3: get_u32(p, 12),
        }
    }

    pub fn write_to(&self, v: &mut Vec<u8>)
        ensures
            final(v)@ == old(v)@ + alpsrv_bytes(*self),
    {
        put_u8(v, self.id_size);
        put_u8(v, self.data_type);
        put_u16(v, self.offset);
        put_u16(v, self.size);
        put_u16(v, self.file_id);
        put_u16(v, self.data_size);
        put_u8(v, self.id1);
        put_u8(v, self.id2);
        put_u32(v, self.id3);
        assert(final(v)@ =~= old(v)@ + alpsrv_bytes(*self));
    }
}

} // verus!

verus! {

impl NavPosVelTime {
    pub fn parse(p: &Vec<u8>) -> (r: NavPosVelTime)
        requires
            p.len() == PVT_LEN,
        ensures
            r == pvt_of(p@),
    {
        NavPosVelTime {
            itow: get_u32(p, 0),
            year: get_u16(p, 4),
            month: p[6],
            day: p[7],
            hour: p[8],
            min: p[9],
            sec: p[10],
            valid: p[11],
            time_accuracy: get_u32(p, 12),
            nanosecond: get_u32(p, 16) as i32,
            fix_type: p[20],
            flags: p[21],
            flags2: p[22],
            num_satellites: p[23],
            lon: get_u32(p, 24) as i32,
            lat: get_u32(p, 28) as i32,
            height: get_u32(p, 32) as i32,
            height_msl: get_u32(p, 36) as i32,
            horizontal_accuracy: get_u32(p, 40),
            vertical_accuracy: get_u32(p, 44),
            vel_north: get_u32(p, 48) as i32,
            vel_east: get_u32(p, 52) as i32,
            vel_down: get_u32(p, 56) as i32,
            ground_speed: get_u32(p, 60) as i32,
            heading: get_u32(p, 64) as i32,
            speed_accuracy: get_u32(p, 68),
            heading_accuracy: get_u32(p, 72),
            pos_dop: get_u16(p, 76),
            reserved1: get_u16(p, 78),
            reserved2: get_u32(p, 80),
            heading_of_vehicle: get_u32(p, 84) as i32,
            magnetic_declination: get_u16(p, 88) as i16,
            magnetic_declination_accuracy: get_u16(p, 90),
        }
    }

    fn write_time(&self, v: &mut Vec<u8>)
        ensures
            final(v)@ == old(v)@ + pvt_time_bytes(*self),
    {
        put_u32(v, self.itow);
        put_u16(v, self.year);
        put_u8(v, self.month);
        put_u8(v, self.day);
        put_u8(v, self.hour);
        put_u8(v, self.min);
        put_u8(v, self.sec);
        put_u8(v, self.valid);
        put_u32(v, self.time_accuracy);
        put_u32(v, self.nanosecond as u32);
        put_u8(v, self.fix_type);
        put_u8(v, self.flags);
        put_u8(v, self.flags2);
        put_u8(v, self.num_satellites);
        assert(final(v)@ =~= old(v)@ + pvt_time_bytes(*self));
    }

    fn write_pos(&self, v: &mut Vec<u8>)
        ensures
            final(v)@ == old(v)@ + pvt_pos_bytes(*self),
    {
        put_u32(v, self.lon as u32);
        put_u32(v, self.lat as u32);
        put_u32(v, self.height as u32);
        put_u32(v, self.height_msl as u32);
        put_u32(v, self.horizontal_accuracy);
        put_u32(v, self.vertical_accuracy);
        assert(final(v)@ =~= old(v)@ + pvt_pos_bytes(*self));
    }

    fn write_vel(&self, v: &mut Vec<u8>)
        ensures
            final(v)@ == old(v)@ + pvt_vel_bytes(*self),
    {
        put_u32(v, self.vel_north as u32);
        put_u32(v, self.vel_east as u32);
        put_u32(v, self.vel_down as u32);
        put_u32(v, self.ground_speed as u32);
        put_u32(v, self.heading as u32);
        put_u32(v, self.speed_accuracy);
        put_u32(v, self.heading_accuracy);
        put_u16(v, self.pos_dop);
        put_u16(v, self.reserved1);
        put_u32(v, self.reserved2);
        put_u32(v, self.heading_of_vehicle as u32);
        put_u16(v, self.magnetic_declination as u16);
        put_u16(v, self.magnetic_declination_accuracy);
        assert(final(v)@ =~= old(v)@ + pvt_vel_bytes(*self));
    }

    pub fn write_to(&self, v: &mut Vec<u8>)
        ensures
            final(v)@ == old(v)@ + pvt_bytes(*self),
    {
        self.write_time(v);
        self.write_pos(v);
        self.write_vel(v);
        assert(final(v)@ =~= old(v)@ + pvt_bytes(*self));
    }
}

fn bad_length(class: u8, id: u8, p: &Vec<u8>) -> (r: Result<Packet, DecodeError>)
    ensures
        r == Err::<Packet, DecodeError>(bad_len(class, id, p@)),
{
    Err(DecodeError::InvalidLength { class, id, len: p.len() })
}

/// Decodes the class, id and payload of a validated frame. A pair outside the
/// catalog gives `Packet::Unknown`; a payload of the wrong length an error.
pub fn decode(class: u8, id: u8, p: &Vec<u8>) -> (r: Result<Packet, DecodeError>)
    ensures
        decoded_view(r) == decode_model(class, id, p@),
{
    if class == 0x05 && id == 0x01 {
        if p.len() == ACK_LEN { Ok(Packet::AckAck(AckAck::parse(p))) } else { bad_length(class, id, p) }
    } else if class == 0x0A && id == 0x04 {
        if p.len() == MONVER_LEN {
            let sw_version = copy_range(p, 0, MONVER_SW_LEN);
            let hw_version = copy_range(p, MONVER_SW_LEN, MONVER_LEN);
            Ok(Packet::MonVer(MonVer { sw_version, hw_version }))
        } else {
            bad_length(class, id, p)
        }
    } else if class == 0x01 && id == 0x02 {
        if p.len() == POSLLH_LEN {
            Ok(Packet::NavPosLLH(NavPosLLH::parse(p)))
        } else {
            bad_length(class, id, p)
        }
    } else if class == 0x01 && id == 0x03 {
        if p.len() == STATUS_LEN {
            Ok(Packet::NavStatus(NavStatus::parse(p)))
        } else {
            bad_length(class, id, p)
        }
    } else if class == 0x01 && id == 0x07 {
        if p.len() == PVT_LEN {
            Ok(Packet::NavPosVelTime(NavPosVelTime::parse(p)))
        } else {
            bad_length(class, id, p)
        }
    } else if class == 0x01 && id == 0x12 {
        if p.len() == VELNED_LEN {
            Ok(Packet::NavVelNED(NavVelNED::parse(p)))
        } else {
            bad_length(class, id, p)
        }
    } else if class == 0x0B && id == 0x32 {
        if p.len() == ALPSRV_LEN {
            Ok(Packet::AlpSrv(AlpSrv::parse(p)))
        } else {
            bad_length(class, id, p)
        }
    } else {
        let payload = copy_range(p, 0, p.len());
        assert(payload@ =~= p@);
        Ok(Packet::Unknown(UbxPacket { class, id, payload }))
    }
}

impl Packet {
    /// The class, id and payload bytes this packet is sent as.
    pub fn to_ubx(&self) -> (r: UbxPacket)
        ensures
            r@ == encode_model(self@),
    {
        let mut v: Vec<u8> = Vec::new();
        match self {
            Packet::AckAck(m) => {
                m.write_to(&mut v);
                UbxPacket { class: 0x05, id: 0x01, payload: v }
            },
            Packet::MonVer(m) => {
                put_all(&mut v, &m.sw_version);
                put_all(&mut v, &m.hw_version);
                UbxPacket { class: 0x0A, id: 0x04, payload: v }
            },
            Packet::NavPosLLH(m) => {
                m.write_to(&mut v);
                UbxPacket { class: 0x01, id: 0x02, payload: v }
            },
            Packet::NavStatus(m) => {
                m.write_to(&mut v);
                UbxPacket { class: 0x01, id: 0x03, payload: v }
            },
            Packet::NavPosVelTime(m) => {
                m.write_to(&mut v);
                UbxPacket { class: 0x01, id: 0x07, payload: v }
            },
            Packet::NavVelNED(m) => {
                m.write_to(&mut v);
                UbxPacket { class: 0x01, id: 0x12, payload: v }
            },
            Packet::AlpSrv(m) => {
                m.write_to(&mut v);
                UbxPacket { class: 0x0B, id: 0x32, payload: v }
            },
            Packet::Unknown(u) => {
                put_all(&mut v, &u.payload);
                UbxPacket { class: u.class, id: u.id, payload: v }
            },
        }
    }
}

} // verus!
