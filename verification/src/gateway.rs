//! The gateway's rule for one serial line: validate the header, decode the
//! base64 body into a frame, decode the frame, and act only on relay
//! envelopes that wrap a GPS sample. The sample's `uid` is checked against
//! the dedup cache: a fresh one is handed out for upload, a known one
//! means the same original sample already arrived over another relay path
//! and is discarded. The `uid` is recorded (`IdCache::add`) only once the
//! upload has completed, so a failed upload leaves the sample eligible
//! for a later delivery over another path. Every failure only skips the
//! line; the read loop never stops over a bad line.

use vstd::prelude::*;
use crate::codec::DecodeError;
use crate::codec::decode_msg;
use crate::codec::decode_spec;
use crate::idcache::{push_evict, IdCache};
use crate::messages::{GpsFix, GpsFixV, Message, MessageV, RelayEnvelopeV, RelayInner, RelayInnerV};
use crate::serial::{parse_line_spec, parse_serial_line, SerialError};

verus! {

/// Why a serial line was skipped.
#[derive(Clone, Copy, Debug, PartialEq, Eq, Structural)]
pub enum SkipReason {
    /// Bad header or invalid base64.
    Framing(SerialError),
    /// The frame failed the CRC check or did not deserialize.
    Decode(DecodeError),
    /// The frame carried no message at all.
    NoMessage,
    /// The message was not a relay envelope wrapping a GPS sample.
    NotRelayedGps,
}

/// What the gateway does with one serial line.
#[derive(Debug, PartialEq)]
pub enum GatewayAction {
    /// A fresh sample: upload it, attributed to the relaying beacon's
    /// `src` and `timestamp`, and record its `uid` in the cache once the
    /// upload has completed.
    Upload { src: Vec<u8>, timestamp: i64, gps: GpsFix },
    /// The same sample already arrived over another relay path.
    Duplicate { uid: Vec<u8> },
    /// Nothing to act on; the line is skipped.
    Skip { reason: SkipReason },
}

/// The relay envelope and GPS sample a serial line carries, if it carries
/// exactly that.
pub open spec fn relayed_gps_of_line(line: Seq<u8>) -> Option<(RelayEnvelopeV, GpsFixV)> {
    match parse_line_spec(line) {
        Ok(frame) => {
            if frame.len() < 2 {
                None
            } else {
                match decode_spec(frame) {
                    Ok(Some(MessageV::Relay(env))) => match env.inner {
                        RelayInnerV::Gps(g) => Some((env, g)),
                        RelayInnerV::Relay(..) => None,
                    },
                    _ => None,
                }
            }
        },
        Err(..) => None,
    }
}

/// Why a serial line is skipped, or `None` where it carries a relayed GPS
/// sample and the dedup cache decides.
pub open spec fn skip_reason_of_line(line: Seq<u8>) -> Option<SkipReason> {
    match parse_line_spec(line) {
        Err(e) => Some(SkipReason::Framing(e)),
        Ok(frame) => {
            if frame.len() < 2 {
                Some(SkipReason::Decode(DecodeError::Malformed))
            } else {
                match decode_spec(frame) {
                    Err(e) => Some(SkipReason::Decode(e)),
                    Ok(None) => Some(SkipReason::NoMessage),
                    Ok(Some(MessageV::Relay(env))) => match env.inner {
                        RelayInnerV::Gps(..) => None,
                        RelayInnerV::Relay(..) => Some(SkipReason::NotRelayedGps),
                    },
                    Ok(Some(..)) => Some(SkipReason::NotRelayedGps),
                }
            }
        },
    }
}

/// Applies the gateway rule to one serial line against the current dedup
/// cache. The cache is only read: a returned `Upload` asks the caller to
/// perform the upload and, once it has completed, to record the sample's
/// `uid` with `IdCache::add` — after a failed upload the `uid` stays
/// unrecorded and a later copy of the sample is uploaded instead.
pub fn gateway_step(line: &[u8], cache: &IdCache) -> (r: GatewayAction)
    ensures
        ({
            match relayed_gps_of_line(line@) {
                Some((env, g)) => {
                    if cache@.contains(g.uid) {
                        r matches GatewayAction::Duplicate { uid } && uid@ == g.uid
                    } else {
                        r matches GatewayAction::Upload { src, timestamp, gps } && src@
                            == env.src && timestamp == env.timestamp && gps@ == g
                    }
                },
                None => r matches GatewayAction::Skip { reason } && skip_reason_of_line(line@)
                    == Some(reason),
            }
        }),
{
    let frame = match parse_serial_line(line) {
        Ok(f) => f,
        Err(e) => {
            return GatewayAction::Skip { reason: SkipReason::Framing(e) };
        },
    };
    if frame.len() < 2 {
        return GatewayAction::Skip { reason: SkipReason::Decode(DecodeError::Malformed) };
    }
    match decode_msg(frame.as_slice()) {
        Err(e) => GatewayAction::Skip { reason: SkipReason::Decode(e) },
        Ok(None) => GatewayAction::Skip { reason: SkipReason::NoMessage },
        Ok(Some(Message::Relay(env))) => {
            match env.inner {
                RelayInner::Gps(g) => {
                    if cache.contains(g.uid.as_slice()) {
                        GatewayAction::Duplicate { uid: g.uid }
                    } else {
                        GatewayAction::Upload { src: env.src, timestamp: env.timestamp, gps: g }
                    }
                },
                RelayInner::Relay(..) => GatewayAction::Skip {
                    reason: SkipReason::NotRelayedGps,
                },
            }
        },
        Ok(Some(..)) => GatewayAction::Skip { reason: SkipReason::NotRelayedGps },
    }
}

/// Dedup at the gateway: of two relay envelopes carrying the same inner
/// `uid`, the first is handed out for upload (its `uid` is not yet in the
/// cache), and once that upload completes and the `uid` is recorded
/// (`IdCache::add`), the second is reported as a duplicate — the recorded
/// `uid` is still in the cache, for any cache with room for at least one
/// entry. Exactly one upload occurs.
pub proof fn lemma_gateway_dedup(line1: Seq<u8>, line2: Seq<u8>, cache0: Seq<Seq<u8>>, cap: nat)
    requires
        cap >= 1,
        ({
            &&& relayed_gps_of_line(line1) matches Some((env1, g1))
            &&& relayed_gps_of_line(line2) matches Some((env2, g2))
            &&& g2.uid == g1.uid
            &&& !cache0.contains(g1.uid)
        }),
    ensures
        ({
            &&& relayed_gps_of_line(line1) matches Some((env1, g1))
            &&& relayed_gps_of_line(line2) matches Some((env2, g2))
            &&& !cache0.contains(g1.uid)
            &&& push_evict(cache0, g1.uid, cap).contains(g2.uid)
        }),
{
    let (env1, g1) = relayed_gps_of_line(line1)->Some_0;
    let after = push_evict(cache0, g1.uid, cap);
    let t = cache0.push(g1.uid);
    if t.len() > cap {
        assert(after == t.drop_first());
        assert(after[after.len() - 1] == g1.uid);
    } else {
        assert(after[after.len() - 1] == g1.uid);
    }
}

} // verus!
