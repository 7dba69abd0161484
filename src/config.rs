//! Outbound configuration and control messages, each with its fixed layout.
use vstd::prelude::*;
use crate::wire::{le16, le32, put_u8, put_u16, put_u32, UbxPacket};
use crate::packets::lei32;
use crate::session::{Position, UtcTime};

verus! {

/// Serial port configuration (class 0x06, id 0x00).
#[derive(Clone, Copy, Debug, PartialEq, Eq, Structural)]
pub struct CfgPrtUart {
    pub portid: u8,
    pub reserved0: u8,
    pub tx_ready: u16,
    pub mode: u32,
    pub baud_rate: u32,
    pub in_proto_mask: u16,
    pub out_proto_mask: u16,
    pub flags: u16,
    pub reserved5: u16,
}

/// Output rate of one message class and id on each of six ports (class 0x06, id 0x01).
#[derive(Clone, Copy, Debug, PartialEq, Eq)]
pub struct CfgMsg {
    pub classid: u8,
    pub msgid: u8,
    pub rates: [u8; 6],
}

/// Receiver reset (class 0x06, id 0x04).
#[derive(Clone, Copy, Debug, PartialEq, Eq, Structural)]
pub struct CfgRst {
    pub nav_bbr_mask: u16,
    pub reset_mode: u8,
    pub reserved1: u8,
}

/// Initial position and time handed to the receiver (class 0x0B, id 0x01).
#[derive(Clone, Copy, Debug, PartialEq, Eq, Structural)]
pub struct AidIni {
    pub ecef_x_or_lat: i32,
    pub ecef_y_or_lon: i32,
    pub ecef_z_or_alt: i32,
    pub pos_accuracy: u32,
    pub time_cfg: u16,
    pub week_or_ym: u16,
    pub tow_or_hms: u32,
    pub tow_ns: i32,
    pub tacc_ms: u32,
    pub tacc_ns: u32,
    pub clk_d_or_freq: i32,
    pub clk_d_acc: u32,
    pub flags: u32,
}

/// `AidIni` flag bits: position valid, time valid, position given as
/// latitude/longitude/altitude, time given as a UTC date.
pub const AID_POS_VALID: u32 = 0x1;
pub const AID_TIME_VALID: u32 = 0x2;
pub const AID_POS_LLA: u32 = 0x20;
pub const AID_TIME_UTC: u32 = 0x400;

/// The accuracies claimed for a seed position (cm) and a seed time (ms).
pub const AID_POS_ACCURACY_CM: u32 = 10_000;
pub const AID_TIME_ACCURACY_MS: u32 = 1_000;

/// Millimetres to centimetres, rounding toward zero.
pub open spec fn mm_to_cm(mm: i32) -> i32 {
    if mm >= 0 {
        (mm / 10) as i32
    } else {
        -((-mm) / 10) as i32
    }
}

fn to_cm(mm: i32) -> (r: i32)
    ensures
        r == mm_to_cm(mm),
{
    if mm >= 0 {
        mm / 10
    } else {
        -(((-(mm as i64)) / 10) as i32)
    }
}

pub open spec fn cfg_prt_bytes(m: CfgPrtUart) -> Seq<u8> {
    seq![m.portid, m.reserved0] + le16(m.tx_ready) + le32(m.mode) + le32(m.baud_rate) + le16(
        m.in_proto_mask,
    ) + le16(m.out_proto_mask) + le16(m.flags) + le16(m.reserved5)
}

pub open spec fn cfg_msg_bytes(m: CfgMsg) -> Seq<u8> {
    seq![m.classid, m.msgid] + m.rates@
}

pub open spec fn cfg_rst_bytes(m: CfgRst) -> Seq<u8> {
    le16(m.nav_bbr_mask) + seq![m.reset_mode, m.reserved1]
}

pub open spec fn aid_ini_bytes(m: AidIni) -> Seq<u8> {
    lei32(m.ecef_x_or_lat) + lei32(m.ecef_y_or_lon) + lei32(m.ecef_z_or_alt) + le32(m.pos_accuracy)
        + le16(m.time_cfg) + le16(m.week_or_ym) + le32(m.tow_or_hms) + lei32(m.tow_ns) + le32(
        m.tacc_ms,
    ) + le32(m.tacc_ns) + lei32(m.clk_d_or_freq) + le32(m.clk_d_acc) + le32(m.flags)
}

/// The seed message for an optional position and an optional time: the
/// position as latitude/longitude (1e-7 degrees) and altitude (cm), the time as
/// `(year - 2000) * 100 + month` and `hour * 10000 + minute * 100 + second`.
pub open spec fn aid_ini_of(position: Option<Position>, tm: Option<UtcTime>) -> AidIni {
    let (x, y, z, acc, pf) = match position {
        Some(p) => (p.lat, p.lon, mm_to_cm(p.alt), AID_POS_ACCURACY_CM, AID_POS_VALID | AID_POS_LLA),
        None => (0i32, 0i32, 0i32, 0u32, 0u32),
    };
    let (ym, hms, ns, tacc, tf) = match tm {
        Some(t) => (
            ((t.year as int - 2000) * 100 + t.month) as u16,
            (t.hour * 10000 + t.min * 100 + t.sec) as u32,
            t.nanosecond,
            AID_TIME_ACCURACY_MS,
            AID_TIME_VALID | AID_TIME_UTC,
        ),
        None => (0u16, 0u32, 0i32, 0u32, 0u32),
    };
    AidIni {
        ecef_x_or_lat: x,
        ecef_y_or_lon: y,
        ecef_z_or_alt: z,
        pos_accuracy: acc,
        time_cfg: 0,
        week_or_ym: ym,
        tow_or_hms: hms,
        tow_ns: ns,
        tacc_ms: tacc,
        tacc_ns: 0,
        clk_d_or_freq: 0,
        clk_d_acc: 0,
        flags: pf | tf,
    }
}

impl CfgPrtUart {
    pub fn to_ubx(&self) -> (r: UbxPacket)
        ensures
            r@ == (0x06u8, 0x00u8, cfg_prt_bytes(*self)),
    {
        let mut v: Vec<u8> = Vec::new();
        put_u8(&mut v, self.portid);
        put_u8(&mut v, self.reserved0);
        put_u16(&mut v, self.tx_ready);
        put_u32(&mut v, self.mode);
        put_u32(&mut v, self.baud_rate);
        put_u16(&mut v, self.in_proto_mask);
        put_u16(&mut v, self.out_proto_mask);
        put_u16(&mut v, self.flags);
        put_u16(&mut v, self.reserved5);
        assert(v@ =~= cfg_prt_bytes(*self));
        UbxPacket { class: 0x06, id: 0x00, payload: v }
    }
}

impl CfgMsg {
    pub fn to_ubx(&self) -> (r: UbxPacket)
        ensures
            r@ == (0x06u8, 0x01u8, cfg_msg_bytes(*self)),
    {
        let mut v: Vec<u8> = Vec::new();
        put_u8(&mut v, self.classid);
        put_u8(&mut v, self.msgid);
        let mut i: usize = 0;
        while i < 6
            invariant
                i <= 6,
                self.rates@.len() == 6,
                v@ == seq![self.classid, self.msgid] + self.rates@.take(i as int),
            decreases 6 - i,
        {
            v.push(self.rates[i]);
            assert(self.rates@.take(i + 1) =~= self.rates@.take(i as int).push(self.rates@[i as int]));
            i = i + 1;
        }
        assert(self.rates@.take(6) =~= self.rates@);
        UbxPacket { class: 0x06, id: 0x01, payload: v }
    }
}

impl CfgRst {
    pub fn to_ubx(&self) -> (r: UbxPacket)
        ensures
            r@ == (0x06u8, 0x04u8, cfg_rst_bytes(*self)),
    {
        let mut v: Vec<u8> = Vec::new();
        put_u16(&mut v, self.nav_bbr_mask);
        put_u8(&mut v, self.reset_mode);
        put_u8(&mut v, self.reserved1);
        assert(v@ =~= cfg_rst_bytes(*self));
        UbxPacket { class: 0x06, id: 0x04, payload: v }
    }
}

impl AidIni {
    pub fn to_ubx(&self) -> (r: UbxPacket)
        ensures
            r@ == (0x0Bu8, 0x01u8, aid_ini_bytes(*self)),
    {
        let mut v: Vec<u8> = Vec::new();
        put_u32(&mut v, self.ecef_x_or_lat as u32);
        put_u32(&mut v, self.ecef_y_or_lon as u32);
        put_u32(&mut v, self.ecef_z_or_alt as u32);
        put_u32(&mut v, self.pos_accuracy);
        put_u16(&mut v, self.time_cfg);
        put_u16(&mut v, self.week_or_ym);
        put_u32(&mut v, self.tow_or_hms);
        put_u32(&mut v, self.tow_ns as u32);
        put_u32(&mut v, self.tacc_ms);
        put_u32(&mut v, self.tacc_ns);
        put_u32(&mut v, self.clk_d_or_freq as u32);
        put_u32(&mut v, self.clk_d_acc);
        put_u32(&mut v, self.flags);
        assert(v@ =~= aid_ini_bytes(*self));
        UbxPacket { class: 0x0B, id: 0x01, payload: v }
    }

    /// The seed message built from an optional position and an optional time.
    pub fn build(position: Option<Position>, tm: Option<UtcTime>) -> (r: AidIni)
        ensures
            r == aid_ini_of(position, tm),
    {
        let (x, y, z, acc, pf) = match position {
            Some(p) => (p.lat, p.lon, to_cm(p.alt), AID_POS_ACCURACY_CM, AID_POS_VALID | AID_POS_LLA),
            None => (0i32, 0i32, 0i32, 0u32, 0u32),
        };
        let (ym, hms, ns, tacc, tf) = match tm {
            Some(t) => (
                ((t.year as i32 - 2000) * 100 + t.month as i32) as u16,
                (t.hour as u32 * 10000 + t.min as u32 * 100 + t.sec as u32),
                t.nanosecond,
                AID_TIME_ACCURACY_MS,
                AID_TIME_VALID | AID_TIME_UTC,
            ),
            None => (0u16, 0u32, 0i32, 0u32, 0u32),
        };
        AidIni {
            ecef_x_or_lat: x,
            ecef_y_or_lon: y,
            ecef_z_or_alt: z,
            pos_accuracy: acc,
            time_cfg: 0,
            week_or_ym: ym,
            tow_or_hms: hms,
            tow_ns: ns,
            tacc_ms: tacc,
            tacc_ns: 0,
            clk_d_or_freq: 0,
            clk_d_acc: 0,
            flags: pf | tf,
        }
    }
}

} // verus!
