use morty_rs::codec::{decode_msg, encode_msg, get_message_type, DecodeError};
use morty_rs::messages::{GpsFix, Message, RelayEnvelope, RelayInner};

fn sample_gps(uid: &str) -> GpsFix {
    GpsFix {
        latitude_bits: 52.1f64.to_bits(),
        longitude_bits: 4.3f64.to_bits(),
        satellites: 7,
        fix_quality: 1,
        hdop_bits: 1.25f32.to_bits(),
        utc: 9 * 3600 + 30 * 60 + 15,
        uid: uid.as_bytes().to_vec(),
        charging: false,
        battery_voltage_bits: 3.9f32.to_bits(),
    }
}

#[test]
fn beacon_round_trip() {
    let msg = Message::BeaconPresent { timestamp: 1670000000 };
    let frame = encode_msg(&msg);
    assert_eq!(frame[0], 1);
    let back = decode_msg(&frame).unwrap().unwrap();
    assert_eq!(back, Message::BeaconPresent { timestamp: 1670000000 });
}

#[test]
fn beacon_negative_timestamp_round_trip() {
    let msg = Message::BeaconPresent { timestamp: -12345 };
    let frame = encode_msg(&msg);
    let back = decode_msg(&frame).unwrap().unwrap();
    assert_eq!(back, Message::BeaconPresent { timestamp: -12345 });
}

#[test]
fn gps_round_trip() {
    let msg = Message::Gps(sample_gps("abc123"));
    let frame = encode_msg(&msg);
    assert_eq!(frame[0], 2);
    let back = decode_msg(&frame).unwrap().unwrap();
    assert_eq!(back, Message::Gps(sample_gps("abc123")));
}

#[test]
fn relay_round_trip() {
    let msg = Message::Relay(RelayEnvelope {
        timestamp: 1670000123,
        src: "aa:bb:cc:dd:ee:ff".as_bytes().to_vec(),
        inner: RelayInner::Gps(sample_gps("zz9xy0")),
    });
    let frame = encode_msg(&msg);
    assert_eq!(frame[0], 3);
    let back = decode_msg(&frame).unwrap().unwrap();
    match back {
        Message::Relay(env) => {
            assert_eq!(env.timestamp, 1670000123);
            assert_eq!(env.src, "aa:bb:cc:dd:ee:ff".as_bytes().to_vec());
            assert_eq!(env.inner, RelayInner::Gps(sample_gps("zz9xy0")));
        }
        other => panic!("expected a relay envelope, got {:?}", other),
    }
}

#[test]
fn nested_relay_round_trip() {
    let inner = RelayEnvelope {
        timestamp: 100,
        src: "11:22:33:44:55:66".as_bytes().to_vec(),
        inner: RelayInner::Gps(sample_gps("qwerty")),
    };
    let msg = Message::Relay(RelayEnvelope {
        timestamp: 200,
        src: "aa:bb:cc:dd:ee:ff".as_bytes().to_vec(),
        inner: RelayInner::Relay(Box::new(inner)),
    });
    let frame = encode_msg(&msg);
    let back = decode_msg(&frame).unwrap().unwrap();
    match back {
        Message::Relay(env) => {
            assert_eq!(env.timestamp, 200);
            match env.inner {
                RelayInner::Relay(b) => {
                    assert_eq!(b.timestamp, 100);
                    assert_eq!(b.inner, RelayInner::Gps(sample_gps("qwerty")));
                }
                other => panic!("expected a nested envelope, got {:?}", other),
            }
        }
        other => panic!("expected a relay envelope, got {:?}", other),
    }
}

#[test]
fn empty_uid_round_trip() {
    let mut g = sample_gps("");
    g.charging = true;
    let frame = encode_msg(&Message::Gps(g));
    let back = decode_msg(&frame).unwrap().unwrap();
    match back {
        Message::Gps(g2) => {
            assert_eq!(g2.uid.len(), 0);
            assert!(g2.charging);
        }
        other => panic!("expected a GPS sample, got {:?}", other),
    }
}

#[test]
fn corrupting_payload_byte_gives_crc_mismatch() {
    let frame = encode_msg(&Message::Gps(sample_gps("abc123")));
    let mut bad = frame.clone();
    bad[5] ^= 0x40;
    match decode_msg(&bad) {
        Err(DecodeError::CrcMismatch { stored, computed }) => {
            assert_eq!(stored, frame[1]);
            assert_ne!(stored, computed);
        }
        other => panic!("expected a CRC mismatch, got {:?}", other),
    }
}

#[test]
fn every_single_payload_bit_flip_is_detected() {
    let frame = encode_msg(&Message::Gps(sample_gps("abc123")));
    for i in 2..frame.len() {
        for j in 0..8 {
            let mut bad = frame.clone();
            bad[i] ^= 1u8 << j;
            match decode_msg(&bad) {
                Err(DecodeError::CrcMismatch { .. }) => {}
                other => panic!("flip of bit {} in byte {} was not caught: {:?}", j, i, other),
            }
        }
    }
}

#[test]
fn corrupted_type_byte_is_not_cross_checked() {
    // The CRC covers the payload only; a frame with a wrong declared type
    // still decodes from its self-describing payload.
    let frame = encode_msg(&Message::BeaconPresent { timestamp: 42 });
    let mut odd = frame.clone();
    odd[0] = 2;
    let back = decode_msg(&odd).unwrap().unwrap();
    assert_eq!(back, Message::BeaconPresent { timestamp: 42 });
}

#[test]
fn empty_payload_decodes_to_no_message() {
    let frame: Vec<u8> = vec![0, 0];
    assert_eq!(decode_msg(&frame).unwrap(), None);
}

#[test]
fn malformed_payload_tag_is_rejected() {
    // A frame whose payload starts with an unknown tag and whose CRC is
    // consistent decodes to a malformed-payload error.
    let payload: Vec<u8> = vec![9, 1, 2, 3];
    let frame = frame_with_good_crc(0, &payload);
    match decode_msg(&frame) {
        Err(DecodeError::Malformed) => {}
        other => panic!("expected a malformed payload, got {:?}", other),
    }
}

#[test]
fn truncated_beacon_payload_is_rejected() {
    let payload: Vec<u8> = vec![1, 7, 7];
    let frame = frame_with_good_crc(1, &payload);
    match decode_msg(&frame) {
        Err(DecodeError::Malformed) => {}
        other => panic!("expected a malformed payload, got {:?}", other),
    }
}

fn frame_with_good_crc(type_byte: u8, payload: &[u8]) -> Vec<u8> {
    let crc = morty_rs::crc::crc8_compute(payload);
    let mut frame = vec![type_byte, crc];
    frame.extend_from_slice(payload);
    frame
}

#[test]
fn message_types_match_the_wire_tags() {
    assert_eq!(get_message_type(&None), 0);
    assert_eq!(get_message_type(&Some(Message::BeaconPresent { timestamp: 0 })), 1);
    assert_eq!(get_message_type(&Some(Message::Gps(sample_gps("a")))), 2);
    assert_eq!(
        get_message_type(&Some(Message::Relay(RelayEnvelope {
            timestamp: 0,
            src: vec![],
            inner: RelayInner::Gps(sample_gps("b")),
        }))),
        3
    );
}
