use ublox::{
    decode, AckAck, AlpSrv, DecodeError, MonVer, NavPosLLH, NavPosVelTime, NavStatus, NavVelNED,
    Packet, Segmenter, UbxPacket,
};

fn posllh() -> NavPosLLH {
    NavPosLLH {
        itow: 123_456,
        lon: -1_223_456_789,
        lat: 474_567_890,
        height_ellipsoid: 12_345,
        height_msl: -678,
        horizontal_accuracy: 2500,
        vertical_accuracy: 4000,
    }
}

fn frame_of(p: &Packet) -> Vec<u8> {
    p.to_ubx().serialize()
}

fn feed_whole(bytes: &[u8]) -> Option<Packet> {
    let mut s = Segmenter::new();
    s.consume(bytes).unwrap()
}

#[test]
fn version_poll_frame_has_known_checksum() {
    let f = ublox::version_poll_frame();
    assert_eq!(f, vec![0xB5, 0x62, 0x0A, 0x04, 0x00, 0x00, 0x0E, 0x34]);
}

#[test]
fn serialize_frames_header_length_and_checksum() {
    let u = UbxPacket { class: 0x05, id: 0x01, payload: vec![0x06, 0x01] };
    // ck_a = 5+1+2+0+6+1 = 15; ck_b = 5+6+8+8+14+15 = 56
    assert_eq!(u.serialize(), vec![0xB5, 0x62, 0x05, 0x01, 0x02, 0x00, 0x06, 0x01, 15, 56]);
}

#[test]
fn round_trip_posllh() {
    let f = frame_of(&Packet::NavPosLLH(posllh()));
    assert_eq!(f.len(), 8 + 28);
    match feed_whole(&f) {
        Some(Packet::NavPosLLH(p)) => assert_eq!(p, posllh()),
        other => panic!("unexpected {:?}", other),
    }
}

#[test]
fn round_trip_ack_status_alpsrv() {
    let ack = AckAck { classid: 0x06, msgid: 0x01 };
    match feed_whole(&frame_of(&Packet::AckAck(ack))) {
        Some(Packet::AckAck(a)) => assert_eq!(a, ack),
        other => panic!("unexpected {:?}", other),
    }
    let st = NavStatus {
        itow: 1000,
        fix_type: 3,
        flags: 0xDD,
        fix_status: 1,
        flags2: 2,
        time_to_first_fix: 30_000,
        uptime_ms: 4_000_000_000,
    };
    match feed_whole(&frame_of(&Packet::NavStatus(st))) {
        Some(Packet::NavStatus(s)) => assert_eq!(s, st),
        other => panic!("unexpected {:?}", other),
    }
    let req = AlpSrv {
        id_size: 2,
        data_type: 1,
        offset: 0x1234,
        size: 0x00FF,
        file_id: 7,
        data_size: 9,
        id1: 0xAA,
        id2: 0xBB,
        id3: 0xDEADBEEF,
    };
    match feed_whole(&frame_of(&Packet::AlpSrv(req))) {
        Some(Packet::AlpSrv(r)) => assert_eq!(r, req),
        other => panic!("unexpected {:?}", other),
    }
}

#[test]
fn unknown_pair_passes_through() {
    let u = UbxPacket { class: 0x02, id: 0x15, payload: vec![1, 2, 3] };
    match feed_whole(&u.serialize()) {
        Some(Packet::Unknown(x)) => {
            assert_eq!((x.class, x.id), (0x02, 0x15));
            assert_eq!(x.payload, vec![1, 2, 3]);
        }
        other => panic!("unexpected {:?}", other),
    }
}

#[test]
fn wrong_length_is_a_decode_error() {
    let u = UbxPacket { class: 0x01, id: 0x02, payload: vec![0; 27] };
    let mut s = Segmenter::new();
    match s.consume(&u.serialize()) {
        Err(DecodeError::InvalidLength { class, id, len }) => {
            assert_eq!((class, id, len), (0x01, 0x02, 27));
        }
        other => panic!("unexpected {:?}", other),
    }
    assert!(decode(0x05, 0x01, &vec![1, 2, 3]).is_err());
}

#[test]
fn corrupted_frame_is_dropped_and_next_one_emitted() {
    let mut first = frame_of(&Packet::NavPosLLH(posllh()));
    first[10] ^= 0x40;
    let second = frame_of(&Packet::AckAck(AckAck { classid: 0x06, msgid: 0x00 }));
    let mut bytes = first.clone();
    bytes.extend_from_slice(&second);
    let mut s = Segmenter::new();
    match s.consume(&bytes).unwrap() {
        Some(Packet::AckAck(a)) => assert_eq!((a.classid, a.msgid), (0x06, 0x00)),
        other => panic!("unexpected {:?}", other),
    }
    assert!(s.consume(&[]).unwrap().is_none());
}

#[test]
fn corrupted_checksum_byte_is_dropped() {
    let mut first = frame_of(&Packet::NavPosLLH(posllh()));
    let n = first.len();
    first[n - 1] ^= 0x01;
    let mut s = Segmenter::new();
    assert!(s.consume(&first).unwrap().is_none());
    let second = frame_of(&Packet::NavPosLLH(posllh()));
    assert!(matches!(s.consume(&second).unwrap(), Some(Packet::NavPosLLH(_))));
}

#[test]
fn fragments_of_any_size_give_the_same_packet() {
    let f = frame_of(&Packet::NavPosLLH(posllh()));
    for chunk in 1..=f.len() {
        let mut s = Segmenter::new();
        let mut got = Vec::new();
        for piece in f.chunks(chunk) {
            if let Some(p) = s.consume(piece).unwrap() {
                got.push(p);
            }
        }
        assert_eq!(got.len(), 1, "chunk size {}", chunk);
        match &got[0] {
            Packet::NavPosLLH(p) => assert_eq!(*p, posllh()),
            other => panic!("unexpected {:?}", other),
        }
    }
}

#[test]
fn noise_before_sync_is_skipped() {
    let mut bytes = vec![0x00, 0xB5, 0x13, 0xFF, 0xB5];
    bytes.extend_from_slice(&frame_of(&Packet::AckAck(AckAck { classid: 1, msgid: 2 })));
    match feed_whole(&bytes) {
        Some(Packet::AckAck(a)) => assert_eq!((a.classid, a.msgid), (1, 2)),
        other => panic!("unexpected {:?}", other),
    }
}

#[test]
fn oversized_length_is_discarded() {
    // declared length 0x0800 exceeds the bound; a valid frame follows
    let mut bytes = vec![0xB5, 0x62, 0x01, 0x02, 0x00, 0x08];
    bytes.extend_from_slice(&frame_of(&Packet::AckAck(AckAck { classid: 6, msgid: 1 })));
    match feed_whole(&bytes) {
        Some(Packet::AckAck(a)) => assert_eq!((a.classid, a.msgid), (6, 1)),
        other => panic!("unexpected {:?}", other),
    }
}

#[test]
fn two_frames_in_one_chunk_come_out_one_per_call() {
    let a = frame_of(&Packet::AckAck(AckAck { classid: 6, msgid: 0 }));
    let b = frame_of(&Packet::AckAck(AckAck { classid: 6, msgid: 1 }));
    let mut bytes = a.clone();
    bytes.extend_from_slice(&b);
    let mut s = Segmenter::new();
    assert!(matches!(s.consume(&bytes).unwrap(), Some(Packet::AckAck(AckAck { msgid: 0, .. }))));
    assert!(matches!(s.consume(&[]).unwrap(), Some(Packet::AckAck(AckAck { msgid: 1, .. }))));
    assert!(s.consume(&[]).unwrap().is_none());
}

#[test]
fn round_trip_velned_and_monver() {
    let v = NavVelNED {
        itow: 1,
        vel_north: -2,
        vel_east: 3,
        vel_down: -4,
        speed: 5,
        ground_speed: 6,
        heading: -7,
        speed_accuracy: 8,
        course_accuracy: 9,
    };
    match feed_whole(&frame_of(&Packet::NavVelNED(v))) {
        Some(Packet::NavVelNED(x)) => assert_eq!(x, v),
        other => panic!("unexpected {:?}", other),
    }
    let mut sw = b"ROM CORE 1.00 (59842)".to_vec();
    sw.resize(30, 0);
    let mut hw = b"00070000".to_vec();
    hw.resize(10, 0);
    let m = MonVer { sw_version: sw.clone(), hw_version: hw.clone() };
    match feed_whole(&frame_of(&Packet::MonVer(m))) {
        Some(Packet::MonVer(x)) => {
            assert_eq!(x.sw_version, sw);
            assert_eq!(x.hw_version, hw);
        }
        other => panic!("unexpected {:?}", other),
    }
}

#[test]
fn monver_of_other_length_is_a_decode_error() {
    let mut payload = vec![b'A'; 30];
    payload.extend_from_slice(&[b'B'; 10]);
    match decode(0x0A, 0x04, &payload).unwrap() {
        Packet::MonVer(m) => {
            assert_eq!(m.sw_version, vec![b'A'; 30]);
            assert_eq!(m.hw_version, vec![b'B'; 10]);
        }
        other => panic!("unexpected {:?}", other),
    }
    for len in [0usize, 39, 41, 70] {
        match decode(0x0A, 0x04, &vec![0; len]) {
            Err(DecodeError::InvalidLength { class, id, len: l }) => {
                assert_eq!((class, id, l), (0x0A, 0x04, len))
            }
            other => panic!("unexpected {:?}", other),
        }
    }
    let mut s = Segmenter::new();
    let frame = UbxPacket { class: 0x0A, id: 0x04, payload: vec![0x20; 41] }.serialize();
    assert!(s.consume(&frame).is_err());
}

#[test]
fn round_trip_solution() {
    let s = NavPosVelTime {
        itow: 0x01020304,
        year: 2024,
        month: 2,
        day: 29,
        hour: 23,
        min: 59,
        sec: 60,
        valid: 0x37,
        time_accuracy: 25,
        nanosecond: -999_999_999,
        fix_type: 4,
        flags: 0x81,
        flags2: 0xEA,
        num_satellites: 17,
        lon: i32::MIN,
        lat: i32::MAX,
        height: -1,
        height_msl: 1,
        horizontal_accuracy: u32::MAX,
        vertical_accuracy: 0,
        vel_north: 100,
        vel_east: -100,
        vel_down: 0,
        ground_speed: 141,
        heading: 13_500_000,
        speed_accuracy: 50,
        heading_accuracy: 60,
        pos_dop: 123,
        reserved1: 0xBEEF,
        reserved2: 0xCAFEBABE,
        heading_of_vehicle: -5,
        magnetic_declination: -300,
        magnetic_declination_accuracy: 400,
    };
    let f = frame_of(&Packet::NavPosVelTime(s));
    assert_eq!(f.len(), 8 + 92);
    match feed_whole(&f) {
        Some(Packet::NavPosVelTime(x)) => assert_eq!(x, s),
        other => panic!("unexpected {:?}", other),
    }
}

#[test]
fn empty_payload_frame_is_emitted() {
    let u = UbxPacket { class: 0x27, id: 0x03, payload: vec![] };
    match feed_whole(&u.serialize()) {
        Some(Packet::Unknown(x)) => {
            assert_eq!((x.class, x.id), (0x27, 0x03));
            assert!(x.payload.is_empty());
        }
        other => panic!("unexpected {:?}", other),
    }
}

#[test]
fn payload_at_the_bound_is_accepted_and_one_over_is_not() {
    let at = UbxPacket { class: 0x13, id: 0x00, payload: vec![0x5A; 1024] };
    match feed_whole(&at.serialize()) {
        Some(Packet::Unknown(x)) => assert_eq!(x.payload.len(), 1024),
        other => panic!("unexpected {:?}", other),
    }
    let over = UbxPacket { class: 0x13, id: 0x00, payload: vec![0x5A; 1025] };
    assert!(feed_whole(&over.serialize()).is_none());
}
