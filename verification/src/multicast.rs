//! Robot discovery on the local network: what a discovery reply says.
use vstd::prelude::*;

use crate::json::{Json, JsonValue};
use crate::msgs::future_resolver::opt_str;
use crate::text::string_from_str;

verus! {

/// The multicast group that discovery queries go to.
pub const MULTICAST_GROUP: &'static str = "231.1.1.1";

/// The port that discovery queries go to.
pub const MULTICAST_PORT: u16 = 10131;

/// The port that replies come back on.
pub const RECV_PORT: u16 = 10134;

/// The query that asks robots to answer.
pub const QUERY_MESSAGE: &'static str = "{\"name\":\"unitree_dapengche\"}";

/// The serial number and address that a reply gives: its `sn` (which must be
/// text) and its `ip` when that is text, else the sender's address.
pub open spec fn discovery_of(reply: Json, sender_ip: Seq<char>) -> Option<(Seq<char>, Seq<char>)> {
    match opt_str(reply.field("sn"@)) {
        Some(sn) => Some(
            (
                sn,
                match opt_str(reply.field("ip"@)) {
                    Some(ip) => ip,
                    None => sender_ip,
                },
            ),
        ),
        None => None,
    }
}

/// The serial number and address that a discovery reply (read as JSON) gives.
pub fn discovery_entry(reply: &JsonValue, sender_ip: &str) -> (r: Option<(String, String)>)
    ensures
        match discovery_of(reply@, sender_ip@) {
            Some((sn, ip)) => match r {
                Some((a, b)) => a@ == sn && b@ == ip,
                None => false,
            },
            None => r is None,
        },
{
    let sn = match reply.get("sn") {
        Some(v) => match v.as_str() {
            Some(s) => string_from_str(s),
            None => return None,
        },
        None => return None,
    };
    let ip = match reply.get("ip") {
        Some(v) => match v.as_str() {
            Some(s) => string_from_str(s),
            None => string_from_str(sender_ip),
        },
        None => string_from_str(sender_ip),
    };
    Some((sn, ip))
}

} // verus!
