use krec::actuator::{ActuatorCommand, ActuatorConfig, ActuatorState};
use krec::frame::KRecFrame;
use krec::header::KRecHeader;
use krec::imu::{ImuQuaternion, ImuValues, Vec3};
use krec::krec::{KRec, KRecError};

fn header() -> KRecHeader {
    KRecHeader {
        uuid: "abc-123".to_string(),
        task: "walk".to_string(),
        robot_platform: "v1".to_string(),
        robot_serial: "SN42".to_string(),
        start_timestamp: 0,
        end_timestamp: 0,
    }
}

fn header_bytes() -> Vec<u8> {
    let mut b = vec![0x0A, 0x07];
    b.extend_from_slice(b"abc-123");
    b.extend_from_slice(&[0x12, 0x04]);
    b.extend_from_slice(b"walk");
    b.extend_from_slice(&[0x1A, 0x02]);
    b.extend_from_slice(b"v1");
    b.extend_from_slice(&[0x22, 0x04]);
    b.extend_from_slice(b"SN42");
    b.extend_from_slice(&[0x28, 0x00, 0x30, 0x00]);
    b
}

fn state(id: u32, online: bool, position: Option<f64>) -> ActuatorState {
    ActuatorState {
        actuator_id: id,
        online,
        position: position.map(f64::to_bits),
        velocity: None,
        torque: None,
        temperature: None,
        voltage: None,
        current: None,
    }
}

fn frame_one() -> KRecFrame {
    KRecFrame {
        timestamp: 1,
        actuator_states: vec![state(0, true, Some(0.5))],
        actuator_configs: vec![],
        actuator_commands: vec![],
        imu_values: None,
    }
}

fn frame_two() -> KRecFrame {
    KRecFrame {
        timestamp: 2,
        actuator_states: vec![],
        actuator_configs: vec![],
        actuator_commands: vec![],
        imu_values: Some(ImuValues {
            accel: Some(Vec3 { x: 0.0f64.to_bits(), y: 0.0f64.to_bits(), z: 9.8f64.to_bits() }),
            gyro: None,
            mag: None,
            quaternion: None,
        }),
    }
}

fn scenario() -> KRec {
    let mut rec = KRec::new(header());
    rec.add_frame(frame_one());
    rec.add_frame(frame_two());
    rec
}

fn rich() -> KRec {
    let mut rec = KRec::new(KRecHeader {
        uuid: "6f1c".to_string(),
        task: "".to_string(),
        robot_platform: "plätform ☃".to_string(),
        robot_serial: "x".repeat(300),
        start_timestamp: 1_700_000_000_000,
        end_timestamp: u64::MAX,
    });
    rec.add_frame(KRecFrame {
        timestamp: u64::MAX,
        actuator_states: vec![
            ActuatorState {
                actuator_id: 7,
                online: true,
                position: Some(1.25f64.to_bits()),
                velocity: Some((-3.5f64).to_bits()),
                torque: Some(f64::NAN.to_bits()),
                temperature: Some(0.0f64.to_bits()),
                voltage: Some(24.0f32.to_bits()),
                current: Some((-0.0f32).to_bits()),
            },
            state(u32::MAX, false, None),
            ActuatorState {
                actuator_id: 7,
                online: false,
                position: None,
                velocity: Some(2.0f64.to_bits()),
                torque: None,
                temperature: None,
                voltage: None,
                current: Some(1.0f32.to_bits()),
            },
        ],
        actuator_configs: vec![
            ActuatorConfig {
                actuator_id: 1,
                kp: Some(10.0f64.to_bits()),
                kd: None,
                ki: Some(0.1f64.to_bits()),
                max_torque: None,
                name: Some("left knee".to_string()),
            },
            ActuatorConfig {
                actuator_id: 2,
                kp: None,
                kd: None,
                ki: None,
                max_torque: None,
                name: None,
            },
            ActuatorConfig {
                actuator_id: 3,
                kp: None,
                kd: Some(1.0f64.to_bits()),
                ki: None,
                max_torque: Some(80.0f64.to_bits()),
                name: Some(String::new()),
            },
        ],
        actuator_commands: vec![
            ActuatorCommand {
                actuator_id: 1,
                position: 0.5f32.to_bits(),
                velocity: 0.0f32.to_bits(),
                effort: (-1.0f32).to_bits(),
            },
            ActuatorCommand { actuator_id: 300, position: 0, velocity: 0, effort: 0 },
        ],
        imu_values: Some(ImuValues {
            accel: Some(Vec3 { x: 1, y: 2, z: 3 }),
            gyro: None,
            mag: Some(Vec3 { x: 4, y: 5, z: 6 }),
            quaternion: Some(ImuQuaternion { x: 0, y: 0, z: 0, w: 1.0f64.to_bits() }),
        }),
    });
    rec.add_frame(KRecFrame {
        timestamp: 0,
        actuator_states: vec![],
        actuator_configs: vec![],
        actuator_commands: vec![],
        imu_values: None,
    });
    rec.add_frame(KRecFrame {
        timestamp: 5,
        actuator_states: vec![],
        actuator_configs: vec![],
        actuator_commands: vec![],
        imu_values: Some(ImuValues { accel: None, gyro: None, mag: None, quaternion: None }),
    });
    rec.add_frame(frame_one());
    rec
}

#[test]
fn new_recording_has_the_header_and_no_frames() {
    let rec = KRec::new(header());
    assert_eq!(rec.header, header());
    assert!(rec.frames.is_empty());
}

#[test]
fn add_frame_appends_in_order() {
    let mut rec = KRec::new(header());
    rec.add_frame(frame_two());
    rec.add_frame(frame_one());
    rec.add_frame(frame_two());
    assert_eq!(rec.header, header());
    assert_eq!(rec.frames, vec![frame_two(), frame_one(), frame_two()]);
}

#[test]
fn header_is_written_field_by_field() {
    let mut buf = Vec::new();
    header().encode(&mut buf);
    assert_eq!(buf, header_bytes());
}

#[test]
fn header_is_read_back_with_its_end() {
    let mut buf = header_bytes();
    buf.extend_from_slice(&[0x28, 0x05]);
    assert_eq!(KRecHeader::decode_at(&buf, 0), Some((header(), header_bytes().len())));
    assert_eq!(KRecHeader::decode_at(&buf, 1), None);
}

#[test]
fn vector_is_three_fixed_fields() {
    let mut buf = Vec::new();
    Vec3 { x: 1, y: 2, z: 0x0100 }.encode(&mut buf);
    let mut expected = vec![0x09, 1, 0, 0, 0, 0, 0, 0, 0];
    expected.extend_from_slice(&[0x11, 2, 0, 0, 0, 0, 0, 0, 0]);
    expected.extend_from_slice(&[0x19, 0, 1, 0, 0, 0, 0, 0, 0]);
    assert_eq!(buf, expected);
    assert_eq!(Vec3::decode(&buf), Some(Vec3 { x: 1, y: 2, z: 0x0100 }));
    assert_eq!(Vec3::decode(&buf[..26]), None);
    buf.push(0);
    assert_eq!(Vec3::decode(&buf), None);
}

#[test]
fn quaternion_is_four_fixed_fields() {
    let q = ImuQuaternion { x: 1, y: 2, z: 3, w: 1.0f64.to_bits() };
    let mut buf = Vec::new();
    q.encode(&mut buf);
    assert_eq!(buf.len(), 36);
    assert_eq!(&buf[27..], &[0x21, 0, 0, 0, 0, 0, 0, 0xF0, 0x3F]);
    assert_eq!(ImuQuaternion::decode(&buf), Some(q));
    assert_eq!(ImuQuaternion::decode(&buf[..27]), None);
}

#[test]
fn readings_without_any_reading_take_no_bytes() {
    let none = ImuValues { accel: None, gyro: None, mag: None, quaternion: None };
    let mut buf = Vec::new();
    none.encode(&mut buf);
    assert!(buf.is_empty());
    assert_eq!(ImuValues::decode(&buf), Some(none));
}

#[test]
fn readings_out_of_order_are_refused() {
    let mut gyro_then_accel = Vec::new();
    let v = Vec3 { x: 1, y: 2, z: 3 };
    let mut payload = Vec::new();
    v.encode(&mut payload);
    gyro_then_accel.extend_from_slice(&[0x12, 27]);
    gyro_then_accel.extend_from_slice(&payload);
    gyro_then_accel.extend_from_slice(&[0x0A, 27]);
    gyro_then_accel.extend_from_slice(&payload);
    assert_eq!(ImuValues::decode(&gyro_then_accel), None);
    assert_eq!(
        ImuValues::decode(&gyro_then_accel[..29]),
        Some(ImuValues { accel: None, gyro: Some(v), mag: None, quaternion: None })
    );
}

#[test]
fn state_is_written_with_the_fields_it_has() {
    let mut buf = Vec::new();
    state(0, true, Some(0.5)).encode(&mut buf);
    assert_eq!(buf, vec![0x08, 0x00, 0x10, 0x01, 0x19, 0, 0, 0, 0, 0, 0, 0xE0, 0x3F]);
    assert_eq!(ActuatorState::decode(&buf), Some(state(0, true, Some(0.5))));
}

#[test]
fn state_with_a_flag_that_is_no_flag_is_refused() {
    assert_eq!(ActuatorState::decode(&[0x08, 0x00, 0x10, 0x02]), None);
    assert_eq!(ActuatorState::decode(&[0x08, 0x00]), None);
    assert_eq!(ActuatorState::decode(&[0x08, 0x00, 0x10, 0x00]), Some(state(0, false, None)));
}

#[test]
fn command_is_written_with_all_three_targets() {
    let c = ActuatorCommand { actuator_id: 3, position: 1, velocity: 2, effort: 3 };
    let mut buf = Vec::new();
    c.encode(&mut buf);
    assert_eq!(
        buf,
        vec![0x08, 0x03, 0x15, 1, 0, 0, 0, 0x1D, 2, 0, 0, 0, 0x25, 3, 0, 0, 0]
    );
    assert_eq!(ActuatorCommand::decode(&buf), Some(c));
    assert_eq!(ActuatorCommand::decode(&buf[..12]), None);
}

#[test]
fn config_is_written_with_its_name() {
    let c = ActuatorConfig {
        actuator_id: 1,
        kp: None,
        kd: None,
        ki: None,
        max_torque: None,
        name: Some("hip".to_string()),
    };
    let mut buf = Vec::new();
    c.encode(&mut buf);
    assert_eq!(buf, vec![0x08, 0x01, 0x32, 0x03, b'h', b'i', b'p']);
    assert_eq!(ActuatorConfig::decode(&buf), Some(c));
}

#[test]
fn config_tells_an_empty_name_from_no_name() {
    let named = ActuatorConfig {
        actuator_id: 1,
        kp: None,
        kd: None,
        ki: None,
        max_torque: None,
        name: Some(String::new()),
    };
    let mut unnamed = named.clone();
    unnamed.name = None;
    let mut a = Vec::new();
    named.encode(&mut a);
    let mut b = Vec::new();
    unnamed.encode(&mut b);
    assert_eq!(a, vec![0x08, 0x01, 0x32, 0x00]);
    assert_eq!(b, vec![0x08, 0x01]);
    assert_eq!(ActuatorConfig::decode(&a), Some(named));
    assert_eq!(ActuatorConfig::decode(&b), Some(unnamed));
}

#[test]
fn frame_closes_with_its_timestamp() {
    let mut buf = Vec::new();
    frame_one().encode(&mut buf);
    let mut expected = vec![0x0A, 13];
    expected.extend_from_slice(&[0x08, 0x00, 0x10, 0x01, 0x19, 0, 0, 0, 0, 0, 0, 0xE0, 0x3F]);
    expected.extend_from_slice(&[0x28, 0x01]);
    assert_eq!(buf, expected);
    assert_eq!(KRecFrame::decode_at(&buf, 0), Some((frame_one(), buf.len())));
}

#[test]
fn frame_with_readings_only() {
    let mut buf = Vec::new();
    frame_two().encode(&mut buf);
    assert_eq!(&buf[..4], &[0x22, 29, 0x0A, 27]);
    assert_eq!(&buf[buf.len() - 2..], &[0x28, 0x02]);
    assert_eq!(buf.len(), 2 + 29 + 2);
    assert_eq!(KRecFrame::decode_at(&buf, 0), Some((frame_two(), buf.len())));
}

#[test]
fn frame_is_read_at_a_position_and_stops_at_its_end() {
    let mut buf = vec![0xEE, 0xEE];
    frame_one().encode(&mut buf);
    let end = buf.len();
    frame_two().encode(&mut buf);
    assert_eq!(KRecFrame::decode_at(&buf, 2), Some((frame_one(), end)));
    assert_eq!(KRecFrame::decode_at(&buf, end), Some((frame_two(), buf.len())));
    assert_eq!(KRecFrame::decode_at(&buf, 0), None);
    assert_eq!(KRecFrame::decode_at(&buf, buf.len()), None);
}

#[test]
fn recording_without_frames_is_its_header() {
    let rec = KRec::new(header());
    let bytes = rec.encode();
    assert_eq!(bytes, header_bytes());
    let back = KRec::decode(&bytes).unwrap();
    assert!(back.frames.is_empty());
    assert_eq!(back, rec);
}

#[test]
fn recording_is_header_then_frames_with_nothing_between() {
    let mut expected = header_bytes();
    frame_one().encode(&mut expected);
    frame_two().encode(&mut expected);
    assert_eq!(scenario().encode(), expected);
}

#[test]
fn recording_of_two_frames_round_trips() {
    let rec = scenario();
    let back = KRec::decode(&rec.encode()).unwrap();
    assert_eq!(back, rec);
    assert_eq!(back.header.uuid, "abc-123");
    assert_eq!(back.frames.len(), 2);
    assert_eq!(back.frames[0].actuator_states[0].position.map(f64::from_bits), Some(0.5));
    assert_eq!(back.frames[0].imu_values, None);
    assert!(back.frames[1].actuator_states.is_empty());
    let accel = back.frames[1].imu_values.unwrap().accel.unwrap();
    assert_eq!(
        (f64::from_bits(accel.x), f64::from_bits(accel.y), f64::from_bits(accel.z)),
        (0.0, 0.0, 9.8)
    );
}

#[test]
fn recording_with_every_kind_of_field_round_trips() {
    let rec = rich();
    let bytes = rec.encode();
    assert_eq!(KRec::decode(&bytes), Ok(rec));
}

#[test]
fn frame_order_is_kept() {
    let mut rec = KRec::new(header());
    for t in [5u64, 3, 9, 3, 0] {
        let mut f = frame_one();
        f.timestamp = t;
        rec.add_frame(f);
    }
    let back = KRec::decode(&rec.encode()).unwrap();
    let stamps: Vec<u64> = back.frames.iter().map(|f| f.timestamp).collect();
    assert_eq!(stamps, vec![5, 3, 9, 3, 0]);
}

#[test]
fn recording_cut_between_boundaries_is_malformed() {
    let rec = rich();
    let bytes = rec.encode();
    let mut boundaries = vec![0usize];
    let mut head = Vec::new();
    rec.header.encode(&mut head);
    let mut at = head.len();
    boundaries.push(at);
    for f in &rec.frames {
        let mut b = Vec::new();
        f.encode(&mut b);
        at += b.len();
        boundaries.push(at);
    }
    assert_eq!(at, bytes.len());
    for k in 0..bytes.len() {
        if !boundaries.contains(&k) {
            assert_eq!(KRec::decode(&bytes[..k]), Err(KRecError::MalformedStream));
        }
    }
}

#[test]
fn recording_cut_on_a_frame_boundary_holds_the_frames_before_it() {
    let rec = rich();
    let bytes = rec.encode();
    let mut head = Vec::new();
    rec.header.encode(&mut head);
    let mut at = head.len();
    for n in 0..=rec.frames.len() {
        let back = KRec::decode(&bytes[..at]).unwrap();
        assert_eq!(back.header, rec.header);
        assert_eq!(back.frames, rec.frames[..n].to_vec());
        if n < rec.frames.len() {
            let mut b = Vec::new();
            rec.frames[n].encode(&mut b);
            at += b.len();
        }
    }
}

#[test]
fn empty_stream_is_malformed() {
    assert_eq!(KRec::decode(&[]), Err(KRecError::MalformedStream));
}

#[test]
fn stream_with_a_corrupted_byte_is_malformed() {
    let mut bytes = scenario().encode();
    bytes[0] = 0x0B;
    assert_eq!(KRec::decode(&bytes), Err(KRecError::MalformedStream));
    let mut bytes = scenario().encode();
    let n = bytes.len();
    bytes[n - 2] = 0x29;
    assert_eq!(KRec::decode(&bytes), Err(KRecError::MalformedStream));
}

#[test]
fn stream_with_bytes_behind_the_last_frame_is_malformed() {
    let mut bytes = scenario().encode();
    bytes.push(0x00);
    assert_eq!(KRec::decode(&bytes), Err(KRecError::MalformedStream));
}

#[test]
fn stream_with_text_that_is_not_utf8_is_malformed() {
    let mut bytes = header_bytes();
    bytes[2] = 0xFF;
    assert_eq!(KRec::decode(&bytes), Err(KRecError::MalformedStream));
}

#[test]
fn default_values() {
    let zero = 0.0f64.to_bits();
    assert_eq!(Vec3::default(), Vec3 { x: zero, y: zero, z: zero });
    let q = ImuQuaternion::default();
    assert_eq!(
        (f64::from_bits(q.x), f64::from_bits(q.y), f64::from_bits(q.z), f64::from_bits(q.w)),
        (0.0, 0.0, 0.0, 1.0)
    );
    assert_eq!(
        ImuValues::default(),
        ImuValues { accel: None, gyro: None, mag: None, quaternion: None }
    );
}

#[test]
fn default_records_hold_nothing() {
    assert_eq!(
        ActuatorState::default(),
        state(0, false, None)
    );
    assert_eq!(
        ActuatorCommand::default(),
        ActuatorCommand { actuator_id: 0, position: 0, velocity: 0, effort: 0 }
    );
    assert_eq!(
        ActuatorConfig::default(),
        ActuatorConfig {
            actuator_id: 0,
            kp: None,
            kd: None,
            ki: None,
            max_torque: None,
            name: None,
        }
    );
    let h = KRecHeader::default();
    assert_eq!(
        (h.uuid.as_str(), h.task.as_str(), h.robot_platform.as_str(), h.robot_serial.as_str()),
        ("", "", "", "")
    );
    assert_eq!((h.start_timestamp, h.end_timestamp), (0, 0));
    let f = KRecFrame::default();
    assert_eq!(f.timestamp, 0);
    assert!(f.actuator_states.is_empty() && f.actuator_configs.is_empty());
    assert!(f.actuator_commands.is_empty() && f.imu_values.is_none());
}

#[test]
fn default_recording_round_trips() {
    let mut rec = krec::KRec::new(KRecHeader::default());
    rec.add_frame(KRecFrame::default());
    let bytes = rec.encode();
    assert_eq!(bytes, vec![0x0A, 0, 0x12, 0, 0x1A, 0, 0x22, 0, 0x28, 0, 0x30, 0, 0x28, 0]);
    assert_eq!(krec::KRec::decode(&bytes), Ok(rec));
}

#[test]
fn no_message_is_read_behind_the_end() {
    let bytes = scenario().encode();
    assert_eq!(KRecHeader::decode_at(&bytes, bytes.len()), None);
    assert_eq!(KRecHeader::decode_at(&bytes, bytes.len() + 1), None);
    assert_eq!(KRecFrame::decode_at(&bytes, bytes.len() + 1), None);
    assert_eq!(KRecFrame::decode_at(&bytes, usize::MAX), None);
}
