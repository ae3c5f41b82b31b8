//! The receive-and-relay rule of a beacon, applied to each frame the radio
//! queue hands over, in arrival order.
//!
//! A received GPS sample is amplified exactly once: wrapped in a relay
//! envelope stamped with the current time and the sender's address, then
//! re-broadcast over radio and forwarded over the serial line. A message
//! that is already a relay envelope is forwarded over serial only and is
//! never re-wrapped — that keeps relaying to a single hop and stops
//! amplification loops between beacons that hear each other. Presence
//! announcements are noted and dropped; frames that fail to decode are
//! dropped, with the failure reported for the log.

use vstd::prelude::*;
use crate::codec::{
    decode_spec, decode_msg, encode_msg, frame_of, DecodeError,
};
use crate::messages::{GpsFixV, Message, MessageV, RelayEnvelope, RelayEnvelopeV, RelayInner,
    RelayInnerV};
use crate::serial::{parse_line_spec, serial_line_of, serial_line_for_frame, SerialError};
use crate::utils::{mac_bytes, mac_to_bytes};

verus! {

/// What a beacon does with one received frame.
#[derive(Debug, PartialEq)]
pub enum RelayAction {
    /// A GPS sample: broadcast `frame` over radio and write `line` to the
    /// serial bridge. This is the one amplification step.
    Amplify { frame: Vec<u8>, line: Vec<u8> },
    /// An already-relayed message: write `line` to the serial bridge only,
    /// never re-broadcast.
    ForwardOnly { line: Vec<u8> },
    /// A presence announcement: note it, take no relay action.
    LogBeacon { timestamp: i64 },
    /// Nothing to act on: a frame that failed to decode (`Some` error), or
    /// one that decoded to no message at all (`None`).
    Discard { error: Option<DecodeError> },
}

/// What a received byte buffer decodes to: too short a buffer is treated
/// as a malformed frame.
pub open spec fn frame_result(data: Seq<u8>) -> Result<Option<MessageV>, DecodeError> {
    if data.len() < 2 {
        Err(DecodeError::Malformed)
    } else {
        decode_spec(data)
    }
}

/// The envelope a beacon wraps a received GPS sample in.
pub open spec fn relayed_message(g: GpsFixV, src_mac: Seq<u8>, now: i64) -> MessageV {
    MessageV::Relay(
        RelayEnvelopeV { timestamp: now, src: mac_bytes(src_mac), inner: RelayInnerV::Gps(g) },
    )
}

proof fn lemma_mac_bytes_len(mac: Seq<u8>)
    ensures
        mac.len() == 0 ==> mac_bytes(mac).len() == 0,
        mac.len() > 0 ==> mac_bytes(mac).len() == 3 * mac.len() - 1,
    decreases mac.len(),
{
    if mac.len() > 1 {
        lemma_mac_bytes_len(mac.drop_last());
    }
}

/// Applies the relay rule to one received frame: `data` are the received
/// bytes, `src_mac` the sender's radio address, `now` the beacon's clock.
pub fn relay_step(data: &[u8], src_mac: &[u8], now: i64) -> (r: RelayAction)
    requires
        // so the formatted sender address fits the two-byte length field
        3 * src_mac@.len() <= 65536,
    ensures
        ({
            match frame_result(data@) {
                Ok(Some(MessageV::Gps(g))) => {
                    &&& r matches RelayAction::Amplify { frame, line }
                    &&& frame@ == frame_of(relayed_message(g, src_mac@, now))
                    &&& line@ == serial_line_of(frame@)
                    &&& parse_line_spec(line@) == Ok::<Seq<u8>, SerialError>(frame@)
                },
                Ok(Some(MessageV::Relay(env))) => {
                    &&& r matches RelayAction::ForwardOnly { line }
                    &&& line@ == serial_line_of(frame_of(MessageV::Relay(env)))
                    &&& parse_line_spec(line@) == Ok::<Seq<u8>, SerialError>(
                        frame_of(MessageV::Relay(env)),
                    )
                },
                Ok(Some(MessageV::BeaconPresent { timestamp })) => r == (
                RelayAction::LogBeacon { timestamp }),
                Ok(None) => r == (RelayAction::Discard { error: None }),
                Err(e) => r == (RelayAction::Discard { error: Some(e) }),
            }
        }),
{
    if data.len() < 2 {
        return RelayAction::Discard { error: Some(DecodeError::Malformed) };
    }
    match decode_msg(data) {
        Err(e) => RelayAction::Discard { error: Some(e) },
        Ok(None) => RelayAction::Discard { error: None },
        Ok(Some(Message::BeaconPresent { timestamp })) => RelayAction::LogBeacon { timestamp },
        Ok(Some(Message::Gps(g))) => {
            let src = mac_to_bytes(src_mac);
            let env = RelayEnvelope { timestamp: now, src, inner: RelayInner::Gps(g) };
            let msg = Message::Relay(env);
            proof {
                lemma_mac_bytes_len(src_mac@);
                assert(msg@ == relayed_message(frame_result(data@)->Ok_0->Some_0->Gps_0,
                    src_mac@, now));
            }
            let frame = encode_msg(&msg);
            let line = serial_line_for_frame(frame.as_slice());
            RelayAction::Amplify { frame, line }
        },
        Ok(Some(Message::Relay(env))) => {
            let msg = Message::Relay(env);
            let frame = encode_msg(&msg);
            let line = serial_line_for_frame(frame.as_slice());
            RelayAction::ForwardOnly { line }
        },
    }
}

} // verus!
