//! The GPS source role: scanning the sensor's NMEA byte stream for fix
//! sentences, building the rate-gated GPS report, and the power policy
//! that decides when the node may deep-sleep.
//!
//! The sentence grammar is parsed by the `nmea0183` crate, fed one byte at
//! a time; reading the sensor, the battery and the clock are outside the
//! library, so the report builder takes their values as arguments.

use vstd::prelude::*;
use crate::messages::{GpsFix, Message};
use crate::rate::{limiter_fires, limiter_after, LastUpdate};

verus! {

/// The NMEA sentence parser of the `nmea0183` crate; opaque here, it is
/// only carried through the scanner.
#[verifier::external_type_specification]
#[verifier::external_body]
pub struct ExParser(nmea0183::Parser);

/// What one parsed GGA sentence yields, converted to plain values: the
/// coordinate readings as IEEE-754 bits, the counts as integers, and the
/// UTC time of day in its hour, minute and second parts.
#[derive(Clone, Copy, Debug, PartialEq)]
pub struct RawFix {
    pub latitude_bits: u64,
    pub longitude_bits: u64,
    pub satellites: i32,
    pub fix_quality: i32,
    pub hdop_bits: u32,
    pub hours: u8,
    pub minutes: u8,
    pub seconds: u8,
}

/// What feeding one byte to the sentence parser can complete.
#[derive(Clone, Copy, Debug, PartialEq)]
pub enum FixEvent {
    /// A GGA sentence with a valid fix.
    Fix(RawFix),
    /// A GGA sentence reporting no fix.
    NoFix,
    /// A complete sentence of another kind.
    OtherSentence,
    /// A sentence that did not parse.
    BadSentence,
}

/// Relies on nmea0183's `Parser::new`: a fresh parser waiting for the
/// start of a sentence.
#[verifier::external_body]
fn nmea_parser_new() -> nmea0183::Parser {
    nmea0183::Parser::new()
}

/// Relies on nmea0183's `Parser::parse_from_byte`: feeds one byte of the
/// sensor stream, returning a result only when it completes a sentence.
/// The conversion maps a GGA with a fix to its plain values, variant for
/// variant; what comes back depends on the parser's accumulated state, so
/// nothing more is promised of it.
#[verifier::external_body]
fn nmea_parse_byte(p: &mut nmea0183::Parser, b: u8) -> (r: Option<FixEvent>) {
    match p.parse_from_byte(b) {
        Some(Ok(nmea0183::ParseResult::GGA(Some(g)))) => Some(FixEvent::Fix(RawFix {
            latitude_bits: g.latitude.as_f64().to_bits(),
            longitude_bits: g.longitude.as_f64().to_bits(),
            satellites: g.sat_in_use as i32, fix_quality: g.gps_quality as i32,
            hdop_bits: g.hdop.to_bits(), hours: g.time.hours, minutes: g.time.minutes,
            seconds: g.time.seconds as u8 })),
        Some(Ok(nmea0183::ParseResult::GGA(None))) => Some(FixEvent::NoFix),
        Some(Ok(_)) => Some(FixEvent::OtherSentence),
        Some(Err(_)) => Some(FixEvent::BadSentence),
        None => None,
    }
}

/// Relies on uuid's `Uuid::new_v4` and its hyphenated `to_string`: always
/// 36 ASCII characters; their values are random.
#[verifier::external_body]
fn uuid_bytes() -> (r: Vec<u8>)
    ensures
        r@.len() == 36,
{
    uuid::Uuid::new_v4().to_string().into_bytes()
}

/// A fresh 6-character sample identifier: the leading characters of a
/// newly drawn UUID.
fn fresh_uid() -> (r: Vec<u8>)
    ensures
        r@.len() == 6,
{
    let mut v = uuid_bytes();
    v.truncate(6);
    v
}

/// The readings of one GPS sample, before power state and identifier are
/// attached.
#[derive(Clone, Copy, Debug, PartialEq)]
pub struct FixCore {
    pub latitude_bits: u64,
    pub longitude_bits: u64,
    pub satellites: i32,
    pub fix_quality: i32,
    pub hdop_bits: u32,
    pub utc: i32,
}

/// What the sensor stream reported: a sample with readings, or a valid
/// sentence that says there is no fix yet.
#[derive(Clone, Copy, Debug, PartialEq)]
pub enum Reading {
    Fix(FixCore),
    NoFix,
}

/// Seconds since midnight UTC for an hour, minute and second of day.
pub fn utc_seconds(hours: u8, minutes: u8, seconds: u8) -> (r: i32)
    ensures
        r == hours * 3600 + minutes * 60 + seconds,
{
    hours as i32 * 3600 + minutes as i32 * 60 + seconds as i32
}

/// The reading a parse event yields: a GGA fix keeps its five readings
/// and gets its UTC seconds assembled; a no-fix GGA reports `NoFix`;
/// sentences of other kinds and unparsable ones yield nothing.
pub open spec fn reading_of_event(ev: FixEvent) -> Option<Reading> {
    match ev {
        FixEvent::Fix(raw) => Some(
            Reading::Fix(
                FixCore {
                    latitude_bits: raw.latitude_bits,
                    longitude_bits: raw.longitude_bits,
                    satellites: raw.satellites,
                    fix_quality: raw.fix_quality,
                    hdop_bits: raw.hdop_bits,
                    utc: (raw.hours * 3600 + raw.minutes * 60 + raw.seconds) as i32,
                },
            ),
        ),
        FixEvent::NoFix => Some(Reading::NoFix),
        FixEvent::OtherSentence => None,
        FixEvent::BadSentence => None,
    }
}

/// Turns one parse event into the reading the source role acts on.
pub fn reading_of(ev: FixEvent) -> (r: Option<Reading>)
    ensures
        r == reading_of_event(ev),
{
    match ev {
        FixEvent::Fix(raw) => {
            let utc = utc_seconds(raw.hours, raw.minutes, raw.seconds);
            Some(
                Reading::Fix(
                    FixCore {
                        latitude_bits: raw.latitude_bits,
                        longitude_bits: raw.longitude_bits,
                        satellites: raw.satellites,
                        fix_quality: raw.fix_quality,
                        hdop_bits: raw.hdop_bits,
                        utc,
                    },
                ),
            )
        },
        FixEvent::NoFix => Some(Reading::NoFix),
        FixEvent::OtherSentence => None,
        FixEvent::BadSentence => None,
    }
}

/// Scans the sensor byte stream for complete GGA sentences. Sentences of
/// other kinds and parse errors are discarded silently: the protocol
/// re-synchronizes on each sentence start.
pub struct SentenceScanner {
    parser: nmea0183::Parser,
}

impl SentenceScanner {
    /// A scanner waiting for the start of a sentence.
    pub fn new() -> SentenceScanner {
        SentenceScanner { parser: nmea_parser_new() }
    }

    /// Feeds one byte of the sensor stream. The parser's outcome depends
    /// on its accumulated state, so only the shape of the result can be
    /// promised here; what each parse event becomes is the contract of
    /// `reading_of`, which this calls on whatever event came back.
    pub fn feed(&mut self, b: u8) -> (r: Option<Reading>)
        ensures
            r matches Some(Reading::Fix(f)) ==> 0 <= f.utc <= 255 * 3600 + 255 * 60 + 255,
    {
        match nmea_parse_byte(&mut self.parser, b) {
            Some(ev) => reading_of(ev),
            None => None,
        }
    }
}

/// Builds the rate-limited GPS report for one sensor reading, polled at time
/// `now` of a monotonic clock: a report is due exactly when the rate
/// limiter fires. A fix carries its readings; a no-fix report carries default
/// readings and signals "alive but no fix". Either way the report gets a
/// fresh 6-character identifier and the power state handed in by the
/// caller.
pub fn handle_message(
    reading: &Option<FixCore>,
    limiter: &mut LastUpdate,
    now: u64,
    interval: u64,
    charging: bool,
    battery_voltage_bits: u32,
) -> (r: Option<Message>)
    requires
        old(limiter)@ matches Some(t) ==> t <= now,
    ensures
        final(limiter)@ == limiter_after(old(limiter)@, now, interval),
        (r is Some) == limiter_fires(old(limiter)@, now, interval),
        r matches Some(m) ==> ({
            &&& m matches Message::Gps(g)
            &&& g.uid@.len() == 6
            &&& g.charging == charging
            &&& g.battery_voltage_bits == battery_voltage_bits
            &&& (match *reading {
                Some(f) => {
                    &&& g.latitude_bits == f.latitude_bits
                    &&& g.longitude_bits == f.longitude_bits
                    &&& g.satellites == f.satellites
                    &&& g.fix_quality == f.fix_quality
                    &&& g.hdop_bits == f.hdop_bits
                    &&& g.utc == f.utc
                },
                None => {
                    &&& g.latitude_bits == 0
                    &&& g.longitude_bits == 0
                    &&& g.satellites == 0
                    &&& g.fix_quality == 0
                    &&& g.hdop_bits == 0
                    &&& g.utc == 0
                },
            })
            &&& m@.wf()
        }),
{
    if !limiter.should_update(now, interval) {
        return None;
    }
    let uid = fresh_uid();
    let g = match reading {
        Some(f) => GpsFix {
            latitude_bits: f.latitude_bits,
            longitude_bits: f.longitude_bits,
            satellites: f.satellites,
            fix_quality: f.fix_quality,
            hdop_bits: f.hdop_bits,
            utc: f.utc,
            uid,
            charging,
            battery_voltage_bits,
        },
        None => GpsFix {
            latitude_bits: 0,
            longitude_bits: 0,
            satellites: 0,
            fix_quality: 0,
            hdop_bits: 0,
            utc: 0,
            uid,
            charging,
            battery_voltage_bits,
        },
    };
    Some(Message::Gps(g))
}

/// The power policy after a broadcast: the node deep-sleeps only when the
/// send was acknowledged as delivered and it is not on charge.
pub fn should_sleep(charging: bool, send_succeeded: bool) -> (r: bool)
    ensures
        r == (!charging && send_succeeded),
{
    !charging && send_succeeded
}

} // verus!
