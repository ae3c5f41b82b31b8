//! The tagged-union message model of the mesh: liveness announcements,
//! GPS samples, and single-hop relay envelopes.
//!
//! Floating-point readings (coordinates, dilution of precision, battery
//! voltage) travel through the mesh untouched, so the model carries them as
//! their IEEE-754 bit patterns; only the edges of the system turn them back
//! into numbers. The `uid` of a GPS sample and the `src` address of a relay
//! envelope are ASCII byte strings.

use vstd::prelude::*;

verus! {

/// One GPS sample. An "empty" sample (no satellite fix) has all readings at
/// their defaults and only `uid`, `charging` and `battery_voltage_bits` set.
#[derive(Debug, PartialEq)]
pub struct GpsFix {
    /// IEEE-754 bits of the latitude in degrees.
    pub latitude_bits: u64,
    /// IEEE-754 bits of the longitude in degrees.
    pub longitude_bits: u64,
    /// Number of satellites used for the fix.
    pub satellites: i32,
    /// Quality indicator of the fix.
    pub fix_quality: i32,
    /// IEEE-754 bits of the horizontal dilution of precision.
    pub hdop_bits: u32,
    /// Seconds since midnight UTC of the fix.
    pub utc: i32,
    /// Identifier minted once per original sample; the deduplication key.
    pub uid: Vec<u8>,
    /// Whether the source node was charging when it sampled.
    pub charging: bool,
    /// IEEE-754 bits of the battery voltage.
    pub battery_voltage_bits: u32,
}

/// An envelope recording who re-transmitted an inner message and when.
#[derive(Debug, PartialEq)]
pub struct RelayEnvelope {
    /// When the relaying beacon handled the message, seconds since the epoch.
    pub timestamp: i64,
    /// Formatted address of the node the beacon heard the message from.
    pub src: Vec<u8>,
    /// The wrapped message.
    pub inner: RelayInner,
}

/// What a relay envelope wraps: a GPS sample, or an envelope from another
/// beacon (never re-wrapped further; see the relay rules).
#[derive(Debug, PartialEq)]
pub enum RelayInner {
    Gps(GpsFix),
    Relay(Box<RelayEnvelope>),
}

/// A message of the mesh protocol.
#[derive(Debug, PartialEq)]
pub enum Message {
    /// Liveness announcement of a relay beacon.
    BeaconPresent { timestamp: i64 },
    /// A GPS sample broadcast by a source node.
    Gps(GpsFix),
    /// A relayed message.
    Relay(RelayEnvelope),
}

/// Mathematical model of a GPS sample.
#[verifier::ext_equal]
pub struct GpsFixV {
    pub latitude_bits: u64,
    pub longitude_bits: u64,
    pub satellites: i32,
    pub fix_quality: i32,
    pub hdop_bits: u32,
    pub utc: i32,
    pub uid: Seq<u8>,
    pub charging: bool,
    pub battery_voltage_bits: u32,
}

/// Mathematical model of a relay envelope.
#[verifier::ext_equal]
pub struct RelayEnvelopeV {
    pub timestamp: i64,
    pub src: Seq<u8>,
    pub inner: RelayInnerV,
}

/// Mathematical model of what an envelope wraps.
#[verifier::ext_equal]
pub enum RelayInnerV {
    Gps(GpsFixV),
    Relay(Box<RelayEnvelopeV>),
}

/// Mathematical model of a message.
#[verifier::ext_equal]
pub enum MessageV {
    BeaconPresent { timestamp: i64 },
    Gps(GpsFixV),
    Relay(RelayEnvelopeV),
}

impl View for GpsFix {
    type V = GpsFixV;

    open spec fn view(&self) -> GpsFixV {
        GpsFixV {
            latitude_bits: self.latitude_bits,
            longitude_bits: self.longitude_bits,
            satellites: self.satellites,
            fix_quality: self.fix_quality,
            hdop_bits: self.hdop_bits,
            utc: self.utc,
            uid: self.uid@,
            charging: self.charging,
            battery_voltage_bits: self.battery_voltage_bits,
        }
    }
}

/// The model of a relay envelope, by structural recursion.
pub open spec fn relay_envelope_view(e: RelayEnvelope) -> RelayEnvelopeV
    decreases e,
{
    RelayEnvelopeV {
        timestamp: e.timestamp,
        src: e.src@,
        inner: match e.inner {
            RelayInner::Gps(g) => RelayInnerV::Gps(g@),
            RelayInner::Relay(b) => RelayInnerV::Relay(Box::new(relay_envelope_view(*b))),
        },
    }
}

impl View for RelayEnvelope {
    type V = RelayEnvelopeV;

    open spec fn view(&self) -> RelayEnvelopeV {
        relay_envelope_view(*self)
    }
}

impl View for Message {
    type V = MessageV;

    open spec fn view(&self) -> MessageV {
        match *self {
            Message::BeaconPresent { timestamp } => MessageV::BeaconPresent { timestamp },
            Message::Gps(g) => MessageV::Gps(g@),
            Message::Relay(e) => MessageV::Relay(e@),
        }
    }
}

impl GpsFixV {
    /// A sample fits on the wire when its identifier length fits the
    /// two-byte length field.
    pub open spec fn wf(self) -> bool {
        self.uid.len() <= u16::MAX
    }
}

impl RelayEnvelopeV {
    /// An envelope fits on the wire when its address length fits the
    /// two-byte length field, recursively.
    pub open spec fn wf(self) -> bool
        decreases self,
    {
        &&& self.src.len() <= u16::MAX
        &&& match self.inner {
            RelayInnerV::Gps(g) => g.wf(),
            RelayInnerV::Relay(b) => b.wf(),
        }
    }
}

impl MessageV {
    /// A message fits on the wire.
    pub open spec fn wf(self) -> bool {
        match self {
            MessageV::BeaconPresent { .. } => true,
            MessageV::Gps(g) => g.wf(),
            MessageV::Relay(e) => e.wf(),
        }
    }
}

} // verus!
