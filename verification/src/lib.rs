//! Core logic of a low-power GPS mesh: message framing with CRC-8 integrity
//! checking, duplicate suppression, rate-limited reporting, and the relay and
//! gateway decision rules that move a GPS fix from a tracker node through
//! relay beacons to an uploading gateway.

use vstd::prelude::*;

pub mod codec;
pub mod crc;
pub mod gateway;
pub mod idcache;
pub mod led;
pub mod messages;
pub mod rate;
pub mod relay;
pub mod serial;
pub mod source;
pub mod utils;

verus! {

/// Interval between two GPS reports from a source node, in seconds.
pub const GPS_UPDATE_INTERVAL_SECONDS: u64 = 10;

/// Interval between two presence announcements from a relay beacon, in seconds.
pub const BEACON_PRESENT_INTERVAL_SECONDS: u64 = 10;

} // verus!
