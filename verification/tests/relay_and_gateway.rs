use morty_rs::codec::{decode_msg, encode_msg};
use morty_rs::gateway::{gateway_step, GatewayAction, SkipReason};
use morty_rs::idcache::IdCache;
use morty_rs::messages::{GpsFix, Message, RelayEnvelope, RelayInner};
use morty_rs::relay::{relay_step, RelayAction};
use morty_rs::serial::{parse_serial_line, serial_line_for_frame, SerialError};

fn sample_gps(uid: &str) -> GpsFix {
    GpsFix {
        latitude_bits: 52.1f64.to_bits(),
        longitude_bits: 4.3f64.to_bits(),
        satellites: 9,
        fix_quality: 1,
        hdop_bits: 0.9f32.to_bits(),
        utc: 11 * 3600 + 22 * 60 + 33,
        uid: uid.as_bytes().to_vec(),
        charging: false,
        battery_voltage_bits: 4.05f32.to_bits(),
    }
}

const MAC_A: [u8; 6] = [0xaa, 0xbb, 0xcc, 0xdd, 0xee, 0xff];
const MAC_B: [u8; 6] = [0x11, 0x22, 0x33, 0x44, 0x55, 0x66];

#[test]
fn a_gps_sample_is_amplified_once() {
    let frame_in = encode_msg(&Message::Gps(sample_gps("abc123")));
    match relay_step(&frame_in, &MAC_A, 1700000000) {
        RelayAction::Amplify { frame, line } => {
            // The re-broadcast frame wraps the sample in a single envelope.
            match decode_msg(&frame).unwrap().unwrap() {
                Message::Relay(env) => {
                    assert_eq!(env.timestamp, 1700000000);
                    assert_eq!(env.src, b"aa:bb:cc:dd:ee:ff".to_vec());
                    assert_eq!(env.inner, RelayInner::Gps(sample_gps("abc123")));
                }
                other => panic!("expected an envelope, got {:?}", other),
            }
            // The serial line carries the same frame.
            assert_eq!(parse_serial_line(&line).unwrap(), frame);
        }
        other => panic!("expected amplification, got {:?}", other),
    }
}

#[test]
fn a_relayed_message_is_forwarded_but_never_rewrapped() {
    let envelope = RelayEnvelope {
        timestamp: 500,
        src: b"11:22:33:44:55:66".to_vec(),
        inner: RelayInner::Gps(sample_gps("abc123")),
    };
    let frame_in = encode_msg(&Message::Relay(envelope));
    match relay_step(&frame_in, &MAC_A, 1700000000) {
        RelayAction::ForwardOnly { line } => {
            let forwarded = parse_serial_line(&line).unwrap();
            match decode_msg(&forwarded).unwrap().unwrap() {
                Message::Relay(env) => {
                    // Still the original single-hop envelope: same beacon,
                    // same timestamp, inner message still the bare sample.
                    assert_eq!(env.timestamp, 500);
                    assert_eq!(env.src, b"11:22:33:44:55:66".to_vec());
                    match env.inner {
                        RelayInner::Gps(g) => assert_eq!(g.uid, b"abc123".to_vec()),
                        RelayInner::Relay(nested) => {
                            panic!("the envelope was re-wrapped: {:?}", nested)
                        }
                    }
                }
                other => panic!("expected an envelope, got {:?}", other),
            }
        }
        other => panic!("a relayed message must go to serial only, got {:?}", other),
    }
}

#[test]
fn a_presence_announcement_is_only_logged() {
    let frame_in = encode_msg(&Message::BeaconPresent { timestamp: 777 });
    match relay_step(&frame_in, &MAC_A, 1700000000) {
        RelayAction::LogBeacon { timestamp } => assert_eq!(timestamp, 777),
        other => panic!("expected a log-only action, got {:?}", other),
    }
}

#[test]
fn a_corrupted_frame_is_discarded() {
    let mut frame_in = encode_msg(&Message::Gps(sample_gps("abc123")));
    frame_in[4] ^= 0x01;
    match relay_step(&frame_in, &MAC_A, 1700000000) {
        RelayAction::Discard { error } => assert!(error.is_some()),
        other => panic!("expected a discard, got {:?}", other),
    }
}

#[test]
fn a_short_buffer_is_discarded() {
    match relay_step(&[3], &MAC_A, 1700000000) {
        RelayAction::Discard { error } => assert!(error.is_some()),
        other => panic!("expected a discard, got {:?}", other),
    }
}

fn relayed_line(uid: &str, src: &[u8], now: i64) -> Vec<u8> {
    let frame_in = encode_msg(&Message::Gps(sample_gps(uid)));
    match relay_step(&frame_in, src, now) {
        RelayAction::Amplify { line, .. } => line,
        other => panic!("expected amplification, got {:?}", other),
    }
}

#[test]
fn the_same_sample_from_two_beacons_is_uploaded_once() {
    // The same original sample reaches the gateway over two relay paths:
    // exactly one upload happens.
    let line1 = relayed_line("abc123", &MAC_A, 100);
    let line2 = relayed_line("abc123", &MAC_B, 101);
    let mut cache = IdCache::new(10);
    match gateway_step(&line1, &cache) {
        GatewayAction::Upload { src, timestamp, gps } => {
            assert_eq!(src, b"aa:bb:cc:dd:ee:ff".to_vec());
            assert_eq!(timestamp, 100);
            assert_eq!(gps.uid, b"abc123".to_vec());
            // The upload succeeded; only now is the uid recorded.
            cache.add(&gps.uid);
        }
        other => panic!("expected an upload, got {:?}", other),
    }
    match gateway_step(&line2, &cache) {
        GatewayAction::Duplicate { uid } => assert_eq!(uid, b"abc123".to_vec()),
        other => panic!("expected a duplicate, got {:?}", other),
    }
}

#[test]
fn a_failed_upload_keeps_the_sample_eligible() {
    // The uid is recorded only once an upload completes: when the first
    // attempt fails, nothing is recorded, and the same sample arriving
    // over another beacon is uploaded instead of being discarded.
    let line1 = relayed_line("abc123", &MAC_A, 100);
    let line2 = relayed_line("abc123", &MAC_B, 101);
    let mut cache = IdCache::new(10);
    assert!(matches!(gateway_step(&line1, &cache), GatewayAction::Upload { .. }));
    // The POST failed: no record is made.
    match gateway_step(&line2, &cache) {
        GatewayAction::Upload { gps, .. } => {
            cache.add(&gps.uid);
        }
        other => panic!("expected a second upload chance, got {:?}", other),
    }
    assert!(matches!(gateway_step(&line1, &cache), GatewayAction::Duplicate { .. }));
}

#[test]
fn distinct_samples_are_both_uploaded() {
    let line1 = relayed_line("aaaaaa", &MAC_A, 100);
    let line2 = relayed_line("bbbbbb", &MAC_A, 101);
    let mut cache = IdCache::new(10);
    match gateway_step(&line1, &cache) {
        GatewayAction::Upload { gps, .. } => cache.add(&gps.uid),
        other => panic!("expected an upload, got {:?}", other),
    }
    match gateway_step(&line2, &cache) {
        GatewayAction::Upload { gps, .. } => cache.add(&gps.uid),
        other => panic!("expected an upload, got {:?}", other),
    }
}

#[test]
fn a_line_without_the_header_is_skipped() {
    let cache = IdCache::new(10);
    match gateway_step(b"NOTMYGPSabcd\n", &cache) {
        GatewayAction::Skip { reason } => {
            assert_eq!(reason, SkipReason::Framing(SerialError::BadHeader))
        }
        other => panic!("expected a skip, got {:?}", other),
    }
}

#[test]
fn a_line_with_broken_base64_is_skipped() {
    let cache = IdCache::new(10);
    match gateway_step(b"MORTYGPS@@@@\n", &cache) {
        GatewayAction::Skip { reason } => {
            assert_eq!(reason, SkipReason::Framing(SerialError::InvalidBase64))
        }
        other => panic!("expected a skip, got {:?}", other),
    }
}

#[test]
fn a_non_relay_message_on_serial_is_skipped() {
    let frame = encode_msg(&Message::Gps(sample_gps("abc123")));
    let line = serial_line_for_frame(&frame);
    let cache = IdCache::new(10);
    match gateway_step(&line, &cache) {
        GatewayAction::Skip { reason } => assert_eq!(reason, SkipReason::NotRelayedGps),
        other => panic!("expected a skip, got {:?}", other),
    }
    // And nothing was recorded.
    assert!(!cache.contains(b"abc123"));
}

#[test]
fn a_corrupted_frame_on_serial_is_skipped() {
    let mut frame = encode_msg(&Message::Gps(sample_gps("abc123")));
    frame[6] ^= 0x80;
    let line = serial_line_for_frame(&frame);
    let cache = IdCache::new(10);
    match gateway_step(&line, &cache) {
        GatewayAction::Skip { reason } => {
            assert!(matches!(reason, SkipReason::Decode(_)), "got {:?}", reason)
        }
        other => panic!("expected a skip, got {:?}", other),
    }
}

#[test]
fn end_to_end_scenario_uid_survives_the_relay_hop() {
    // Encode a sample, decode it back and check the fields; corrupt one
    // byte and watch the CRC catch it; then feed the frame to a beacon
    // and check that its serial line still carries uid "abc123".
    let gps = sample_gps("abc123");
    let frame = encode_msg(&Message::Gps(gps));
    match decode_msg(&frame).unwrap().unwrap() {
        Message::Gps(g) => {
            assert_eq!(f64::from_bits(g.latitude_bits), 52.1);
            assert_eq!(f64::from_bits(g.longitude_bits), 4.3);
            assert_eq!(g.satellites, 9);
            assert_eq!(g.uid, b"abc123".to_vec());
        }
        other => panic!("expected the sample back, got {:?}", other),
    }
    let mut corrupted = frame.clone();
    corrupted[5] ^= 0x10;
    assert!(matches!(
        decode_msg(&corrupted),
        Err(morty_rs::codec::DecodeError::CrcMismatch { .. })
    ));
    let line = relayed_line("abc123", &MAC_A, 42);
    let forwarded = parse_serial_line(&line).unwrap();
    match decode_msg(&forwarded).unwrap().unwrap() {
        Message::Relay(env) => match env.inner {
            RelayInner::Gps(g) => assert_eq!(g.uid, b"abc123".to_vec()),
            other => panic!("expected the sample inside, got {:?}", other),
        },
        other => panic!("expected an envelope, got {:?}", other),
    }
}

#[test]
fn a_double_wrapped_envelope_is_skipped_at_the_gateway() {
    // A beacon hears another beacon's envelope and forwards it; if some
    // foreign node wrapped it again anyway, the gateway does not act on it.
    let inner = RelayEnvelope {
        timestamp: 1,
        src: b"11:22:33:44:55:66".to_vec(),
        inner: RelayInner::Gps(sample_gps("abc123")),
    };
    let outer = RelayEnvelope {
        timestamp: 2,
        src: b"aa:bb:cc:dd:ee:ff".to_vec(),
        inner: RelayInner::Relay(Box::new(inner)),
    };
    let frame = encode_msg(&Message::Relay(outer));
    let line = serial_line_for_frame(&frame);
    let cache = IdCache::new(10);
    match gateway_step(&line, &cache) {
        GatewayAction::Skip { reason } => assert_eq!(reason, SkipReason::NotRelayedGps),
        other => panic!("expected a skip, got {:?}", other),
    }
    assert!(!cache.contains(b"abc123"));
}
