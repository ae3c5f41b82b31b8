//! Binary framing of messages: `[type, crc, payload]`.
//!
//! A frame starts with one type byte (0 none, 1 beacon present, 2 GPS,
//! 3 relay), then the CRC-8 of the payload (polynomial 0x07, MSB first,
//! initial value 0), then the payload itself. The payload is the serialized
//! message and is self-describing: it starts with its own variant tag, and
//! decoding trusts it rather than the outer type byte. Integers are
//! little-endian; `uid` and `src` carry a two-byte length prefix; a nested
//! envelope extends to the end of the payload.

use vstd::prelude::*;
use vstd::bytes::*;
use crate::crc::{crc8, crc8_compute};
use crate::messages::{
    GpsFix, GpsFixV, Message, MessageV, RelayEnvelope, RelayEnvelopeV, RelayInner, RelayInnerV,
};

verus! {

/// Why a frame was rejected: integrity failure, or a payload that does not
/// deserialize.
#[derive(Clone, Copy, Debug, PartialEq, Eq, Structural)]
pub enum DecodeError {
    /// The CRC-8 stored in the frame does not match the one computed over
    /// the payload; carries both for diagnostics.
    CrcMismatch { stored: u8, computed: u8 },
    /// The payload is not a serialized message.
    Malformed,
}

/// Serialized form of a GPS sample.
pub open spec fn gps_body(g: GpsFixV) -> Seq<u8> {
    spec_u64_to_le_bytes(g.latitude_bits) + (spec_u64_to_le_bytes(g.longitude_bits) + (
    spec_u32_to_le_bytes(g.satellites as u32) + (spec_u32_to_le_bytes(g.fix_quality as u32) + (
    spec_u32_to_le_bytes(g.hdop_bits) + (spec_u32_to_le_bytes(g.utc as u32) + (
    seq![if g.charging { 1u8 } else { 0u8 }] + (spec_u32_to_le_bytes(g.battery_voltage_bits) + (
    spec_u16_to_le_bytes(g.uid.len() as u16) + g.uid))))))))
}

/// Serialized form of a relay envelope.
pub open spec fn relay_body(r: RelayEnvelopeV) -> Seq<u8>
    decreases r,
{
    spec_u64_to_le_bytes(r.timestamp as u64) + (spec_u16_to_le_bytes(r.src.len() as u16) + (r.src
        + match r.inner {
        RelayInnerV::Gps(g) => seq![2u8] + gps_body(g),
        RelayInnerV::Relay(b) => seq![3u8] + relay_body(*b),
    }))
}

/// The payload of a frame: the message's variant tag and its body.
pub open spec fn payload_of(m: MessageV) -> Seq<u8> {
    match m {
        MessageV::BeaconPresent { timestamp } => seq![1u8] + spec_u64_to_le_bytes(
            timestamp as u64,
        ),
        MessageV::Gps(g) => seq![2u8] + gps_body(g),
        MessageV::Relay(r) => seq![3u8] + relay_body(r),
    }
}

/// The type byte a frame declares for a message (0 when there is none).
pub open spec fn spec_message_type(m: Option<MessageV>) -> u8 {
    match m {
        Some(MessageV::BeaconPresent { .. }) => 1,
        Some(MessageV::Gps(..)) => 2,
        Some(MessageV::Relay(..)) => 3,
        None => 0,
    }
}

/// The whole frame for a message: type byte, payload CRC, payload.
pub open spec fn frame_of(m: MessageV) -> Seq<u8> {
    seq![spec_message_type(Some(m)), crc8(payload_of(m))] + payload_of(m)
}

/// Parses a serialized GPS sample; the sample must fill `s` exactly.
pub open spec fn parse_gps(s: Seq<u8>) -> Option<GpsFixV> {
    if s.len() < 39 {
        None
    } else {
        let uid_len = spec_u16_from_le_bytes(s.subrange(37, 39)) as int;
        if s.len() == 39 + uid_len && (s[32] == 0 || s[32] == 1) {
            Some(
                GpsFixV {
                    latitude_bits: spec_u64_from_le_bytes(s.subrange(0, 8)),
                    longitude_bits: spec_u64_from_le_bytes(s.subrange(8, 16)),
                    satellites: spec_u32_from_le_bytes(s.subrange(16, 20)) as i32,
                    fix_quality: spec_u32_from_le_bytes(s.subrange(20, 24)) as i32,
                    hdop_bits: spec_u32_from_le_bytes(s.subrange(24, 28)),
                    utc: spec_u32_from_le_bytes(s.subrange(28, 32)) as i32,
                    charging: s[32] == 1,
                    battery_voltage_bits: spec_u32_from_le_bytes(s.subrange(33, 37)),
                    uid: s.skip(39),
                },
            )
        } else {
            None
        }
    }
}

/// Parses a serialized relay envelope; the envelope must fill `s` exactly.
pub open spec fn parse_relay(s: Seq<u8>) -> Option<RelayEnvelopeV>
    decreases s.len(),
{
    if s.len() < 11 {
        None
    } else {
        let src_len = spec_u16_from_le_bytes(s.subrange(8, 10)) as int;
        if s.len() >= 11 + src_len {
            let timestamp = spec_u64_from_le_bytes(s.subrange(0, 8)) as i64;
            let src = s.subrange(10, 10 + src_len);
            let tag = s[10 + src_len];
            let rest = s.skip(11 + src_len);
            if tag == 2 {
                match parse_gps(rest) {
                    Some(g) => Some(
                        RelayEnvelopeV { timestamp, src, inner: RelayInnerV::Gps(g) },
                    ),
                    None => None,
                }
            } else if tag == 3 {
                match parse_relay(rest) {
                    Some(r) => Some(
                        RelayEnvelopeV {
                            timestamp,
                            src,
                            inner: RelayInnerV::Relay(Box::new(r)),
                        },
                    ),
                    None => None,
                }
            } else {
                None
            }
        } else {
            None
        }
    }
}

/// Parses a payload. `None` means the payload is malformed; `Some(None)`
/// is the empty payload, a frame that carries no message.
pub open spec fn parse_payload(s: Seq<u8>) -> Option<Option<MessageV>> {
    if s.len() == 0 {
        Some(None)
    } else if s[0] == 1 {
        if s.len() == 9 {
            Some(
                Some(
                    MessageV::BeaconPresent {
                        timestamp: spec_u64_from_le_bytes(s.subrange(1, 9)) as i64,
                    },
                ),
            )
        } else {
            None
        }
    } else if s[0] == 2 {
        match parse_gps(s.skip(1)) {
            Some(g) => Some(Some(MessageV::Gps(g))),
            None => None,
        }
    } else if s[0] == 3 {
        match parse_relay(s.skip(1)) {
            Some(r) => Some(Some(MessageV::Relay(r))),
            None => None,
        }
    } else {
        None
    }
}

/// What decoding a frame yields: the CRC is checked over the payload first,
/// then the payload is deserialized.
pub open spec fn decode_spec(data: Seq<u8>) -> Result<Option<MessageV>, DecodeError>
    recommends
        data.len() >= 2,
{
    let payload = data.skip(2);
    let computed = crc8(payload);
    if data[1] != computed {
        Err(DecodeError::CrcMismatch { stored: data[1], computed })
    } else {
        match parse_payload(payload) {
            Some(m) => Ok(m),
            None => Err(DecodeError::Malformed),
        }
    }
}

proof fn lemma_i64_bits_round(x: i64)
    ensures
        (x as u64) as i64 == x,
{
    assert((x as u64) as i64 == x) by (bit_vector);
}

proof fn lemma_i32_bits_round(x: i32)
    ensures
        (x as u32) as i32 == x,
{
    assert((x as u32) as i32 == x) by (bit_vector);
}

/// Serializing a GPS sample and parsing the bytes back yields the sample.
proof fn lemma_parse_gps_round(g: GpsFixV)
    requires
        g.wf(),
    ensures
        parse_gps(gps_body(g)) == Some(g),
{
    lemma_auto_spec_u16_to_from_le_bytes();
    lemma_auto_spec_u32_to_from_le_bytes();
    lemma_auto_spec_u64_to_from_le_bytes();
    let s = gps_body(g);
    assert(s.len() == 39 + g.uid.len());
    assert(s.subrange(0, 8) =~= spec_u64_to_le_bytes(g.latitude_bits));
    assert(s.subrange(8, 16) =~= spec_u64_to_le_bytes(g.longitude_bits));
    assert(s.subrange(16, 20) =~= spec_u32_to_le_bytes(g.satellites as u32));
    assert(s.subrange(20, 24) =~= spec_u32_to_le_bytes(g.fix_quality as u32));
    assert(s.subrange(24, 28) =~= spec_u32_to_le_bytes(g.hdop_bits));
    assert(s.subrange(28, 32) =~= spec_u32_to_le_bytes(g.utc as u32));
    assert(s[32] == if g.charging { 1u8 } else { 0u8 });
    assert(s.subrange(33, 37) =~= spec_u32_to_le_bytes(g.battery_voltage_bits));
    assert(s.subrange(37, 39) =~= spec_u16_to_le_bytes(g.uid.len() as u16));
    assert(s.skip(39) =~= g.uid);
    lemma_i32_bits_round(g.satellites);
    lemma_i32_bits_round(g.fix_quality);
    lemma_i32_bits_round(g.utc);
    assert(spec_u16_from_le_bytes(s.subrange(37, 39)) == g.uid.len());
    assert(parse_gps(s) matches Some(p) && p =~= g);
}

/// Serializing a relay envelope and parsing the bytes back yields the
/// envelope.
proof fn lemma_parse_relay_round(r: RelayEnvelopeV)
    requires
        r.wf(),
    ensures
        parse_relay(relay_body(r)) == Some(r),
    decreases r,
{
    lemma_auto_spec_u16_to_from_le_bytes();
    lemma_auto_spec_u64_to_from_le_bytes();
    let s = relay_body(r);
    let inner_bytes = match r.inner {
        RelayInnerV::Gps(g) => seq![2u8] + gps_body(g),
        RelayInnerV::Relay(b) => seq![3u8] + relay_body(*b),
    };
    assert(s.len() == 10 + r.src.len() + inner_bytes.len());
    assert(s.subrange(0, 8) =~= spec_u64_to_le_bytes(r.timestamp as u64));
    assert(s.subrange(8, 10) =~= spec_u16_to_le_bytes(r.src.len() as u16));
    assert(spec_u16_from_le_bytes(s.subrange(8, 10)) == r.src.len());
    let src_len = r.src.len() as int;
    assert(s.subrange(10, 10 + src_len) =~= r.src);
    assert(inner_bytes.len() >= 1);
    assert(s[10 + src_len] == inner_bytes[0]);
    assert(s.skip(11 + src_len) =~= inner_bytes.skip(1));
    lemma_i64_bits_round(r.timestamp);
    match r.inner {
        RelayInnerV::Gps(g) => {
            assert(inner_bytes[0] == 2);
            assert(inner_bytes.skip(1) =~= gps_body(g));
            lemma_parse_gps_round(g);
            assert(parse_relay(s) matches Some(p) && p =~= r);
        },
        RelayInnerV::Relay(b) => {
            assert(inner_bytes[0] == 3);
            assert(inner_bytes.skip(1) =~= relay_body(*b));
            lemma_parse_relay_round(*b);
            assert(parse_relay(s) matches Some(p) && p =~= r);
        },
    }
}

/// Serializing a message and parsing the payload back yields the message.
proof fn lemma_parse_payload_round(m: MessageV)
    requires
        m.wf(),
    ensures
        parse_payload(payload_of(m)) == Some(Some(m)),
{
    let s = payload_of(m);
    match m {
        MessageV::BeaconPresent { timestamp } => {
            lemma_auto_spec_u64_to_from_le_bytes();
            assert(s.len() == 9);
            assert(s[0] == 1);
            assert(s.subrange(1, 9) =~= spec_u64_to_le_bytes(timestamp as u64));
            lemma_i64_bits_round(timestamp);
        },
        MessageV::Gps(g) => {
            assert(s[0] == 2);
            assert(s.skip(1) =~= gps_body(g));
            lemma_parse_gps_round(g);
        },
        MessageV::Relay(r) => {
            assert(s[0] == 3);
            assert(s.skip(1) =~= relay_body(r));
            lemma_parse_relay_round(r);
        },
    }
}

/// Round trip: decoding the frame encoded for any valid message yields
/// exactly that message.
pub proof fn lemma_decode_encode_round_trip(m: MessageV)
    requires
        m.wf(),
    ensures
        decode_spec(frame_of(m)) == Ok::<Option<MessageV>, DecodeError>(Some(m)),
{
    let f = frame_of(m);
    assert(f.skip(2) =~= payload_of(m));
    lemma_parse_payload_round(m);
}

/// Corruption detection: flipping any single bit in the payload portion of
/// a frame whose stored CRC matches its payload — as it does in every
/// encoded frame — makes decoding fail with a CRC mismatch.
pub proof fn lemma_bit_flip_detected(data: Seq<u8>, i: int, j: u8)
    requires
        data.len() >= 2,
        data[1] == crc8(data.skip(2)),
        2 <= i < data.len(),
        j < 8,
    ensures
        ({
            let corrupted = data.update(i, crate::crc::flip_bit(data[i], j));
            decode_spec(corrupted) matches Err(e) && e is CrcMismatch
        }),
{
    let payload = data.skip(2);
    let corrupted = data.update(i, crate::crc::flip_bit(data[i], j));
    assert(corrupted.skip(2) =~= payload.update(
        i - 2,
        crate::crc::flip_bit(payload[i - 2], j),
    ));
    crate::crc::lemma_crc8_detects_bit_flip(payload, i - 2, j);
    assert(corrupted[1] == data[1]);
}

/// A parsed GPS sample always fits back on the wire: its identifier length
/// came out of the two-byte length field.
proof fn lemma_parse_gps_wf(s: Seq<u8>)
    ensures
        parse_gps(s) matches Some(g) ==> g.wf(),
{
}

/// A parsed relay envelope always fits back on the wire.
proof fn lemma_parse_relay_wf(s: Seq<u8>)
    ensures
        parse_relay(s) matches Some(r) ==> r.wf(),
    decreases s.len(),
{
    if s.len() >= 11 {
        let src_len = spec_u16_from_le_bytes(s.subrange(8, 10)) as int;
        if s.len() >= 11 + src_len {
            lemma_parse_gps_wf(s.skip(11 + src_len));
            lemma_parse_relay_wf(s.skip(11 + src_len));
        }
    }
}

/// Whatever a frame decodes to fits back on the wire.
pub proof fn lemma_decode_wf(data: Seq<u8>)
    ensures
        decode_spec(data) matches Ok(Some(m)) ==> m.wf(),
{
    let payload = data.skip(2);
    lemma_parse_gps_wf(payload.skip(1));
    lemma_parse_relay_wf(payload.skip(1));
}

/// The model of an optional message.
pub open spec fn opt_view(om: Option<Message>) -> Option<MessageV> {
    match om {
        Some(m) => Some(m@),
        None => None,
    }
}

/// The type byte written into a frame for a message, 0 when there is none.
pub fn get_message_type(msg: &Option<Message>) -> (t: u8)
    ensures
        t == spec_message_type(opt_view(*msg)),
{
    match msg {
        Some(Message::BeaconPresent { .. }) => 1,
        Some(Message::Gps(..)) => 2,
        Some(Message::Relay(..)) => 3,
        None => 0,
    }
}

fn append_u16_le(out: &mut Vec<u8>, x: u16)
    ensures
        final(out)@ == old(out)@ + spec_u16_to_le_bytes(x),
{
    let mut b = u16_to_le_bytes(x);
    out.append(&mut b);
}

fn append_u32_le(out: &mut Vec<u8>, x: u32)
    ensures
        final(out)@ == old(out)@ + spec_u32_to_le_bytes(x),
{
    let mut b = u32_to_le_bytes(x);
    out.append(&mut b);
}

fn append_u64_le(out: &mut Vec<u8>, x: u64)
    ensures
        final(out)@ == old(out)@ + spec_u64_to_le_bytes(x),
{
    let mut b = u64_to_le_bytes(x);
    out.append(&mut b);
}

fn encode_gps_body(g: &GpsFix, out: &mut Vec<u8>)
    requires
        g@.wf(),
    ensures
        final(out)@ == old(out)@ + gps_body(g@),
{
    append_u64_le(out, g.latitude_bits);
    append_u64_le(out, g.longitude_bits);
    append_u32_le(out, g.satellites as u32);
    append_u32_le(out, g.fix_quality as u32);
    append_u32_le(out, g.hdop_bits);
    append_u32_le(out, g.utc as u32);
    out.push(if g.charging { 1 } else { 0 });
    append_u32_le(out, g.battery_voltage_bits);
    append_u16_le(out, g.uid.len() as u16);
    let mut uid = g.uid.clone();
    out.append(&mut uid);
    assert(out@ =~= old(out)@ + gps_body(g@));
}

fn encode_relay_body(e: &RelayEnvelope, out: &mut Vec<u8>)
    requires
        e@.wf(),
    ensures
        final(out)@ == old(out)@ + relay_body(e@),
    decreases *e,
{
    append_u64_le(out, e.timestamp as u64);
    append_u16_le(out, e.src.len() as u16);
    let mut src = e.src.clone();
    out.append(&mut src);
    match &e.inner {
        RelayInner::Gps(g) => {
            out.push(2);
            encode_gps_body(g, out);
        },
        RelayInner::Relay(b) => {
            out.push(3);
            encode_relay_body(b, out);
        },
    }
    assert(out@ =~= old(out)@ + relay_body(e@));
}

/// Encodes a message as a frame: type byte, CRC-8 of the payload, payload.
pub fn encode_msg(msg: &Message) -> (r: Vec<u8>)
    requires
        msg@.wf(),
    ensures
        r@ == frame_of(msg@),
{
    let mut payload: Vec<u8> = Vec::new();
    let t: u8;
    match msg {
        Message::BeaconPresent { timestamp } => {
            t = 1;
            payload.push(1);
            append_u64_le(&mut payload, *timestamp as u64);
        },
        Message::Gps(g) => {
            t = 2;
            payload.push(2);
            encode_gps_body(g, &mut payload);
        },
        Message::Relay(e) => {
            t = 3;
            payload.push(3);
            encode_relay_body(e, &mut payload);
        },
    }
    assert(payload@ =~= payload_of(msg@));
    let crc = crc8_compute(payload.as_slice());
    let mut out: Vec<u8> = Vec::new();
    out.push(t);
    out.push(crc);
    out.append(&mut payload);
    assert(out@ =~= frame_of(msg@));
    out
}

fn parse_gps_exec(s: &[u8]) -> (r: Option<GpsFix>)
    ensures
        (r is Some) == (parse_gps(s@) is Some),
        r matches Some(g) ==> parse_gps(s@) == Some(g@),
{
    if s.len() < 39 {
        return None;
    }
    let uid_len = u16_from_le_bytes(vstd::slice::slice_subrange(s, 37, 39)) as usize;
    if s.len() != 39 + uid_len {
        return None;
    }
    let charging_byte = *vstd::slice::slice_index_get(s, 32);
    if charging_byte != 0 && charging_byte != 1 {
        return None;
    }
    let g = GpsFix {
        latitude_bits: u64_from_le_bytes(vstd::slice::slice_subrange(s, 0, 8)),
        longitude_bits: u64_from_le_bytes(vstd::slice::slice_subrange(s, 8, 16)),
        satellites: u32_from_le_bytes(vstd::slice::slice_subrange(s, 16, 20)) as i32,
        fix_quality: u32_from_le_bytes(vstd::slice::slice_subrange(s, 20, 24)) as i32,
        hdop_bits: u32_from_le_bytes(vstd::slice::slice_subrange(s, 24, 28)),
        utc: u32_from_le_bytes(vstd::slice::slice_subrange(s, 28, 32)) as i32,
        charging: charging_byte == 1,
        battery_voltage_bits: u32_from_le_bytes(vstd::slice::slice_subrange(s, 33, 37)),
        uid: vstd::slice::slice_to_vec(vstd::slice::slice_subrange(s, 39, s.len())),
    };
    proof {
        assert(s@.subrange(39, s@.len() as int) =~= s@.skip(39));
        assert(parse_gps(s@) matches Some(p) && p =~= g@);
    }
    Some(g)
}

fn parse_relay_exec(s: &[u8]) -> (r: Option<RelayEnvelope>)
    ensures
        (r is Some) == (parse_relay(s@) is Some),
        r matches Some(e) ==> parse_relay(s@) == Some(e@),
    decreases s@.len(),
{
    if s.len() < 11 {
        return None;
    }
    let src_len = u16_from_le_bytes(vstd::slice::slice_subrange(s, 8, 10)) as usize;
    if s.len() < 11 + src_len {
        return None;
    }
    let timestamp = u64_from_le_bytes(vstd::slice::slice_subrange(s, 0, 8)) as i64;
    let src = vstd::slice::slice_to_vec(vstd::slice::slice_subrange(s, 10, 10 + src_len));
    let tag = *vstd::slice::slice_index_get(s, 10 + src_len);
    let rest = vstd::slice::slice_subrange(s, 11 + src_len, s.len());
    proof {
        assert(s@.subrange(11 + src_len as int, s@.len() as int) =~= s@.skip(11 + src_len as int));
    }
    if tag == 2 {
        match parse_gps_exec(rest) {
            Some(g) => {
                let e = RelayEnvelope { timestamp, src, inner: RelayInner::Gps(g) };
                proof {
                    assert(parse_relay(s@) matches Some(p) && p =~= e@);
                }
                Some(e)
            },
            None => None,
        }
    } else if tag == 3 {
        match parse_relay_exec(rest) {
            Some(inner) => {
                let e = RelayEnvelope { timestamp, src, inner: RelayInner::Relay(Box::new(inner)) };
                proof {
                    assert(parse_relay(s@) matches Some(p) && p =~= e@);
                }
                Some(e)
            },
            None => None,
        }
    } else {
        None
    }
}

fn parse_payload_exec(s: &[u8]) -> (r: Option<Option<Message>>)
    ensures
        (r is Some) == (parse_payload(s@) is Some),
        r matches Some(om) ==> parse_payload(s@) == Some(opt_view(om)),
{
    if s.len() == 0 {
        return Some(None);
    }
    let tag = *vstd::slice::slice_index_get(s, 0);
    if tag == 1 {
        if s.len() == 9 {
            let timestamp = u64_from_le_bytes(vstd::slice::slice_subrange(s, 1, 9)) as i64;
            proof {
                assert(s@.subrange(1, 9) =~= s@.subrange(1, s@.len() as int));
            }
            Some(Some(Message::BeaconPresent { timestamp }))
        } else {
            None
        }
    } else if tag == 2 {
        let rest = vstd::slice::slice_subrange(s, 1, s.len());
        proof {
            assert(s@.subrange(1, s@.len() as int) =~= s@.skip(1));
        }
        match parse_gps_exec(rest) {
            Some(g) => Some(Some(Message::Gps(g))),
            None => None,
        }
    } else if tag == 3 {
        let rest = vstd::slice::slice_subrange(s, 1, s.len());
        proof {
            assert(s@.subrange(1, s@.len() as int) =~= s@.skip(1));
        }
        match parse_relay_exec(rest) {
            Some(e) => Some(Some(Message::Relay(e))),
            None => None,
        }
    } else {
        None
    }
}

/// Decodes a frame: recomputes the CRC-8 over the payload and compares it
/// to the stored one, then deserializes the payload. The declared type byte
/// is not cross-checked against the payload; decoding trusts the structured
/// payload.
pub fn decode_msg(data: &[u8]) -> (r: Result<Option<Message>, DecodeError>)
    requires
        data@.len() >= 2,
    ensures
        (r is Ok) == (decode_spec(data@) is Ok),
        r matches Ok(om) ==> decode_spec(data@) == Ok::<Option<MessageV>, DecodeError>(
            opt_view(om),
        ),
        r matches Err(e) ==> decode_spec(data@) == Err::<Option<MessageV>, DecodeError>(e),
        r matches Ok(Some(m)) ==> m@.wf(),
{
    let stored = *vstd::slice::slice_index_get(data, 1);
    let payload = vstd::slice::slice_subrange(data, 2, data.len());
    proof {
        assert(data@.subrange(2, data@.len() as int) =~= data@.skip(2));
    }
    let computed = crc8_compute(payload);
    if stored != computed {
        return Err(DecodeError::CrcMismatch { stored, computed });
    }
    proof {
        lemma_decode_wf(data@);
    }
    match parse_payload_exec(payload) {
        Some(m) => Ok(m),
        None => Err(DecodeError::Malformed),
    }
}

} // verus!
