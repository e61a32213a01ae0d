//! One probe: where the device is asked, and what the prober is answered.

use crate::extract::ShellyError;
use crate::readings::is_rendering;
use crate::readings::PowerReadings;
use vstd::prelude::*;
use vstd::string::StringExecFns;

verus! {

/// Seconds after which a device that has not answered is given up.
pub const DEVICE_TIMEOUT_SECS: u64 = 10;

/// Where probes are taken: port 8080, on every interface.
pub const LISTEN_ADDRESS: &'static str = "0.0.0.0:8080";

/// The path under which probes are taken. The device to ask is the query
/// parameter `target`.
pub const PROBE_PATH: &'static str = "/probe";

/// The status of an answer that carries readings.
pub const STATUS_OK: u16 = 200;

/// The status of every answer that carries none, whatever went wrong.
pub const STATUS_FAILED: u16 = 500;

/// What a prober is answered: an HTTP status and a body.
#[derive(Debug, PartialEq, Eq)]
pub struct ProbeResponse {
    pub status: u16,
    pub body: String,
}

/// The address of a device's status: the target as it was given, then the
/// path of the status call.
pub open spec fn status_address(target: Seq<char>) -> Seq<char> {
    target + "/rpc/Shelly.GetStatus"@
}

/// The URL at which a device reports its status. The target is not looked
/// at: it is the prefix, character for character.
pub fn status_url(target: &str) -> (r: String)
    ensures
        r@ == status_address(target@),
{
    let mut url = String::from_str(target);
    url.append("/rpc/Shelly.GetStatus");
    url
}

/// Answers a probe. Readings are rendered under status 200. Every failure
/// gets status 500 and an empty body, so that a prober cannot tell one
/// failure from another.
pub fn handler(outcome: &Result<PowerReadings, ShellyError>) -> (r: ProbeResponse)
    ensures
        match outcome {
            Ok(readings) => r.status == STATUS_OK && is_rendering(readings@, r.body@),
            Err(_) => r.status == STATUS_FAILED && r.body@ == Seq::<char>::empty(),
        },
{
    match outcome {
        Ok(readings) => ProbeResponse { status: STATUS_OK, body: readings.render() },
        Err(_) => ProbeResponse { status: STATUS_FAILED, body: String::new() },
    }
}

} // verus!
