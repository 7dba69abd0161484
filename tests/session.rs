use ublox::{
    ack_step, enable_packet_frame, port_config_frame, AckAck, AckStep, AlpSrv, Device, Error,
    NavPosLLH, NavPosVelTime, NavStatus, NavVelNED, Packet, Position, ResetType, Routed, UbxPacket,
    UtcTime, Velocity, startup_step, Action, Startup,
};

fn status(itow: u32, flags: u8) -> NavStatus {
    NavStatus {
        itow,
        fix_type: 3,
        flags,
        fix_status: 0,
        flags2: 0,
        time_to_first_fix: 0,
        uptime_ms: 0,
    }
}

fn pos(itow: u32) -> NavPosLLH {
    NavPosLLH {
        itow,
        lon: 20,
        lat: 10,
        height_ellipsoid: 500,
        height_msl: 400,
        horizontal_accuracy: 0,
        vertical_accuracy: 0,
    }
}

fn vel(itow: u32) -> NavVelNED {
    NavVelNED {
        itow,
        vel_north: 1,
        vel_east: 2,
        vel_down: 3,
        speed: 4,
        ground_speed: 150,
        heading: 9_000_000,
        speed_accuracy: 0,
        course_accuracy: 0,
    }
}

fn pvt(fix_type: u8) -> NavPosVelTime {
    NavPosVelTime {
        itow: 5,
        year: 2019,
        month: 7,
        day: 14,
        hour: 12,
        min: 34,
        sec: 56,
        valid: 7,
        time_accuracy: 0,
        nanosecond: -250,
        fix_type,
        flags: 1,
        flags2: 0,
        num_satellites: 9,
        lon: 111,
        lat: 222,
        height: 333,
        height_msl: 444,
        horizontal_accuracy: 0,
        vertical_accuracy: 0,
        vel_north: 0,
        vel_east: 0,
        vel_down: 0,
        ground_speed: 1234,
        heading: 4567,
        speed_accuracy: 0,
        heading_accuracy: 0,
        pos_dop: 0,
        reserved1: 0,
        reserved2: 0,
        heading_of_vehicle: 0,
        magnetic_declination: 0,
        magnetic_declination_accuracy: 0,
    }
}

fn alp_request(offset: u16, size: u16) -> AlpSrv {
    AlpSrv {
        id_size: 2,
        data_type: 1,
        offset,
        size,
        file_id: 0,
        data_size: 0,
        id1: 3,
        id2: 4,
        id3: 0x01020304,
    }
}

fn u16_at(b: &[u8], o: usize) -> u16 {
    b[o] as u16 | (b[o + 1] as u16) << 8
}

#[test]
fn position_needs_equal_itow_and_valid_fix() {
    let mut d = Device::new();
    assert_eq!(d.get_position(), None);
    d.route(Packet::NavStatus(status(1000, 0x1)));
    d.route(Packet::NavPosLLH(pos(1000)));
    assert_eq!(d.get_position(), Some(Position { lat: 10, lon: 20, alt: 400 }));
    d.route(Packet::NavPosLLH(pos(1001)));
    assert_eq!(d.get_position(), None);
    d.route(Packet::NavStatus(status(1000, 0x0)));
    d.route(Packet::NavPosLLH(pos(1000)));
    assert_eq!(d.get_position(), None);
}

#[test]
fn velocity_needs_equal_itow_and_valid_fix() {
    let mut d = Device::new();
    d.route(Packet::NavVelNED(vel(77)));
    assert_eq!(d.get_velocity(), None);
    d.route(Packet::NavStatus(status(77, 0x3)));
    assert_eq!(d.get_velocity(), Some(Velocity { speed: 1500, heading: 9_000_000 }));
    d.route(Packet::NavStatus(status(78, 0x1)));
    assert_eq!(d.get_velocity(), None);
}

#[test]
fn solution_parts_follow_fix_type() {
    let mut d = Device::new();
    assert_eq!(d.get_solution(), (None, None, None));
    d.route(Packet::NavPosVelTime(pvt(0x03)));
    let (p, v, t) = d.get_solution();
    assert_eq!(p, Some(Position { lat: 222, lon: 111, alt: 444 }));
    assert_eq!(v, Some(Velocity { speed: 1234, heading: 4567 }));
    assert_eq!(
        t,
        Some(UtcTime { year: 2019, month: 7, day: 14, hour: 12, min: 34, sec: 56, nanosecond: -250 })
    );
    d.route(Packet::NavPosVelTime(pvt(0x05)));
    let (p, v, t) = d.get_solution();
    assert_eq!((p, v), (None, None));
    assert!(t.is_some());
    d.route(Packet::NavPosVelTime(pvt(0x02)));
    assert_eq!(d.get_solution(), (None, None, None));
}

#[test]
fn received_bytes_update_the_cache() {
    let mut d = Device::new();
    let mut bytes = Packet::NavStatus(status(9, 1)).to_ubx().serialize();
    bytes.extend_from_slice(&Packet::NavPosLLH(pos(9)).to_ubx().serialize());
    let mut i = 0;
    while i < bytes.len() {
        if let Some(p) = d.recv(&bytes[i..i + 1]).unwrap() {
            assert!(matches!(d.route(p), Routed::Handled));
        }
        i += 1;
    }
    assert_eq!(d.get_position(), Some(Position { lat: 10, lon: 20, alt: 400 }));
}

#[test]
fn recv_reports_decode_errors() {
    let mut d = Device::new();
    let bad = UbxPacket { class: 0x01, id: 0x03, payload: vec![0; 3] }.serialize();
    assert!(matches!(d.recv(&bad), Err(Error::Decode(_))));
}

#[test]
fn chunk_request_past_the_end_gets_empty_reply() {
    let mut d = Device::new();
    let data: Vec<u8> = (0..100u8).collect();
    d.set_alp_offline(&data);
    let reply = d.alp_reply(&alp_request(60, 40)).unwrap();
    assert_eq!(u16_at(&reply, 4), 16);
    assert_eq!(reply.len(), 8 + 16);
    assert_eq!(u16_at(&reply, 6 + 2), 60);
    assert_eq!(u16_at(&reply, 6 + 6), d.alp_file_id());
    assert_eq!(u16_at(&reply, 6 + 8), 0);
}

#[test]
fn chunk_request_over_the_end_is_truncated() {
    let mut d = Device::new();
    let data: Vec<u8> = (0..100u8).collect();
    d.set_alp_offline(&data);
    let reply = match d.route(Packet::AlpSrv(alp_request(40, 40))) {
        Routed::Reply(r) => r,
        other => panic!("unexpected {:?}", other),
    };
    assert_eq!(u16_at(&reply, 4), 16 + 20);
    assert_eq!(u16_at(&reply, 6 + 8), 20);
    assert_eq!(&reply[6 + 16..6 + 36], &data[80..100]);
    assert_eq!(reply[6], 2);
    assert_eq!(reply[6 + 10], 3);
}

#[test]
fn chunk_request_inside_is_served_whole() {
    let mut d = Device::new();
    let data: Vec<u8> = (0..100u8).collect();
    d.set_alp_offline(&data);
    let reply = d.alp_reply(&alp_request(5, 3)).unwrap();
    assert_eq!(u16_at(&reply, 6 + 8), 6);
    assert_eq!(&reply[6 + 16..6 + 22], &data[10..16]);
}

#[test]
fn chunk_request_without_data_is_ignored() {
    let mut d = Device::new();
    assert!(d.alp_reply(&alp_request(0, 4)).is_none());
    assert!(matches!(d.route(Packet::AlpSrv(alp_request(0, 4))), Routed::Handled));
}

#[test]
fn alp_file_id_is_x25_crc() {
    let mut d = Device::new();
    let frame = d.set_alp_offline(b"123456789");
    assert_eq!(d.alp_file_id(), 0x906E);
    assert_eq!(&frame[2..9], &[0x06, 0x01, 0x03, 0x00, 0x0B, 0x32, 0x01]);
}

#[test]
fn ack_for_expected_pair_is_accepted() {
    let ack = Some(Packet::AckAck(AckAck { classid: 0x06, msgid: 0x01 }));
    assert_eq!(ack_step(0x06, 0x01, 10, &ack), AckStep::Acked);
}

#[test]
fn ack_for_other_pair_is_fatal() {
    let ack = Some(Packet::AckAck(AckAck { classid: 0x06, msgid: 0x01 }));
    assert_eq!(ack_step(0x06, 0x00, 10, &ack), AckStep::Failed(Error::WrongAck(0x06, 0x01)));
}

#[test]
fn other_packet_during_ack_wait_is_unexpected() {
    let p = Some(Packet::NavStatus(status(1, 1)));
    assert_eq!(ack_step(0x06, 0x00, 0, &p), AckStep::Failed(Error::UnexpectedPacket));
}

#[test]
fn ack_wait_times_out() {
    assert_eq!(ack_step(0x06, 0x00, 999, &None), AckStep::Receive);
    assert_eq!(
        ack_step(0x06, 0x00, 1000, &None),
        AckStep::Failed(Error::TimedOutWaitingForAck(0x06, 0x00))
    );
}

#[test]
fn ack_is_routed_back() {
    let mut d = Device::new();
    match d.route(Packet::AckAck(AckAck { classid: 6, msgid: 0 })) {
        Routed::Ack(a) => assert_eq!((a.classid, a.msgid), (6, 0)),
        other => panic!("unexpected {:?}", other),
    }
}

#[test]
fn reset_clears_position_and_status() {
    let mut d = Device::new();
    d.route(Packet::NavStatus(status(1000, 0x1)));
    d.route(Packet::NavPosLLH(pos(1000)));
    d.route(Packet::NavVelNED(vel(1000)));
    let frame = d.reset(&ResetType::Cold);
    assert_eq!(&frame[2..10], &[0x06, 0x04, 0x04, 0x00, 0xFF, 0xFF, 0x01, 0x00]);
    assert_eq!(d.get_position(), None);
    assert_eq!(d.get_velocity(), None);
    let hot = d.reset(&ResetType::Hot);
    assert_eq!(&hot[6..8], &[0x00, 0x00]);
    let warm = d.reset(&ResetType::Warm);
    assert_eq!(&warm[6..8], &[0x01, 0x00]);
}

#[test]
fn aid_frame_carries_seed_position_and_time() {
    let p = Position { lat: 474_000_000, lon: -1_220_000_000, alt: -1234 };
    let t = UtcTime { year: 2019, month: 7, day: 14, hour: 12, min: 34, sec: 56, nanosecond: 7 };
    let f = Device::load_aid_data(Some(p), Some(t));
    assert_eq!(f.len(), 8 + 48);
    assert_eq!(&f[2..6], &[0x0B, 0x01, 48, 0]);
    let i32_at = |o: usize| i32::from_le_bytes([f[6 + o], f[7 + o], f[8 + o], f[9 + o]]);
    assert_eq!(i32_at(0), 474_000_000);
    assert_eq!(i32_at(4), -1_220_000_000);
    assert_eq!(i32_at(8), -123);
    assert_eq!(u16_at(&f, 6 + 18), 1907);
    assert_eq!(i32_at(20), 123456);
    assert_eq!(i32_at(44), 0x1 | 0x2 | 0x20 | 0x400);
    let none = Device::load_aid_data(None, None);
    assert_eq!(&none[6..54], &[0u8; 48][..]);
}

#[test]
fn startup_frames() {
    let f = port_config_frame();
    assert_eq!(&f[2..6], &[0x06, 0x00, 20, 0]);
    assert_eq!(u16_at(&f, 6 + 14), 0x01);
    let e = enable_packet_frame(0x01, 0x07);
    assert_eq!(&e[2..14], &[0x06, 0x01, 8, 0, 0x01, 0x07, 0, 1, 0, 0, 0, 0]);
}

#[test]
fn startup_runs_config_ack_enable_ack_poll_settle() {
    let mut stage = Startup::PortConfig;
    let mut seen = Vec::new();
    loop {
        let (action, next) = startup_step(stage, true);
        match action {
            Action::Send(f) => seen.push(format!("send {:02x}{:02x}", f[2], f[3])),
            Action::AwaitAck(c, m) => seen.push(format!("ack {:02x}{:02x}", c, m)),
            Action::Drain(ms) => seen.push(format!("drain {}", ms)),
            Action::Finish => break,
            Action::Abort => panic!("aborted"),
        }
        stage = next;
    }
    assert_eq!(
        seen,
        vec!["send 0600", "ack 0600", "send 0601", "ack 0601", "send 0a04", "drain 200"]
    );
}

#[test]
fn startup_aborts_after_a_failed_action() {
    let (action, next) = startup_step(Startup::SolutionAck, false);
    assert!(matches!(action, Action::Abort));
    assert_eq!(next, Startup::Done);
}

#[test]
fn chunk_reply_too_large_for_a_frame_is_reported() {
    let mut d = Device::new();
    let data = vec![7u8; 70_000];
    d.set_alp_offline(&data);
    assert!(d.alp_reply(&alp_request(0, 40_000)).is_none());
    match d.route(Packet::AlpSrv(alp_request(0, 40_000))) {
        Routed::ChunkTooLarge(r) => assert_eq!((r.offset, r.size), (0, 40_000)),
        other => panic!("unexpected {:?}", other),
    }
    assert!(d.alp_reply(&alp_request(0, 100)).is_some());
}

#[test]
fn recv_in_chunks_of_any_size_gives_one_packet() {
    let f = Packet::NavStatus(status(4242, 1)).to_ubx().serialize();
    for chunk in 1..=f.len() {
        let mut d = Device::new();
        let pieces: Vec<&[u8]> = f.chunks(chunk).collect();
        for (k, piece) in pieces.iter().enumerate() {
            let r = d.recv(piece).unwrap();
            if k + 1 < pieces.len() {
                assert!(r.is_none(), "chunk size {}", chunk);
            } else {
                match r {
                    Some(Packet::NavStatus(s)) => assert_eq!(s, status(4242, 1)),
                    other => panic!("unexpected {:?}", other),
                }
            }
        }
        assert!(d.recv(&[]).unwrap().is_none());
    }
}
