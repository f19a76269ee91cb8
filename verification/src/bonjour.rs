//! Bonjour/DNS-SD diagnostic browsing for the PaperSpoon service: the
//! service types, and the one candidate a resolved service gives.
//!
//! An IPv4 address is the integer of its four octets in network order, so
//! the integer order is the address order.
use crate::text::{chars_to_string, str_to_chars};
use vstd::prelude::*;

verus! {

/// DNS-SD service type this project advertises and browses.
pub const SERVICE_TYPE: &'static str = "_paperspoon._tcp.local.";

/// Meta-service type that returns every mDNS service on the LAN; it tells
/// "no multicast at all" from "our advert missing".
pub const SERVICES_TYPE: &'static str = "_services._dns-sd._udp.local.";

/// Bound on how long one diagnostic browse waits, in milliseconds.
pub const DEFAULT_BROWSE_TIMEOUT_MS: u64 = 15000;

/// A resolvable candidate endpoint.
#[derive(Clone, Debug, PartialEq, Eq)]
pub struct Candidate {
    /// Full instance name of the resolved service.
    pub instance: String,
    /// The IPv4 address.
    pub address: u32,
    /// The SRV-advertised port.
    pub port: u16,
}

/// Whether `address` is the least of `addresses`.
pub open spec fn is_least(addresses: Seq<u32>, address: u32) -> bool {
    &&& addresses.contains(address)
    &&& forall|i: int| 0 <= i < addresses.len() ==> address <= #[trigger] addresses[i]
}

/// The candidate of a resolved service: the lowest of its IPv4 addresses
/// with the SRV-advertised port; none without an IPv4 address. TXT
/// metadata is advisory and never chooses the port.
pub fn resolved_candidate(full_name: &str, addresses: &[u32], port: u16) -> (candidate: Option<
    Candidate,
>)
    ensures
        addresses@.len() == 0 <==> candidate is None,
        candidate matches Some(candidate) ==> candidate.instance@ == full_name@
            && candidate.port == port && is_least(addresses@, candidate.address),
{
    if addresses.len() == 0 {
        return None;
    }
    let mut least = addresses[0];
    let mut index: usize = 1;
    assert(addresses@.subrange(0, 1)[0] == least);
    while index < addresses.len()
        invariant
            1 <= index <= addresses@.len(),
            addresses@.subrange(0, index as int).contains(least),
            forall|i: int| 0 <= i < index ==> least <= #[trigger] addresses@[i],
        decreases addresses@.len() - index,
    {
        if addresses[index] < least {
            least = addresses[index];
            assert(addresses@.subrange(0, index + 1)[index as int] == least);
        } else {
            let ghost witness = choose|k: int|
                0 <= k < index && addresses@.subrange(0, index as int)[k] == least;
            assert(addresses@.subrange(0, index + 1)[witness] == least);
            assert(addresses@.subrange(0, index + 1) =~= addresses@.subrange(0, index as int).push(
                addresses@[index as int],
            ));
        }
        index = index + 1;
    }
    proof {
        assert(addresses@.subrange(0, addresses@.len() as int) =~= addresses@);
    }
    let chars = str_to_chars(full_name);
    Some(Candidate { instance: chars_to_string(chars.as_slice()), address: least, port })
}

} // verus!
