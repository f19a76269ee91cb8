//! PaperPad's side of zero-config discovery: which datagrams answer its
//! probe, and which endpoint the answers name.
//!
//! Discovery runs over IPv4 UDP; an endpoint is an IPv4 address, as the
//! integer of its four octets in network order, and a TCP port. Endpoints
//! are ordered by address, then port.
use crate::datagram::{parse_here, parse_here_spec};
use crate::text::{chars_equal, str_to_chars};
use vstd::prelude::*;

verus! {

/// An IPv4 endpoint: address and port.
pub type Endpoint = (u32, u16);

/// Endpoint order: by address, then by port.
pub open spec fn endpoint_less(a: Endpoint, b: Endpoint) -> bool {
    a.0 < b.0 || (a.0 == b.0 && a.1 < b.1)
}

/// Each endpoint strictly precedes the next.
pub open spec fn strictly_sorted(endpoints: Seq<Endpoint>) -> bool {
    forall|i: int, j: int|
        0 <= i < j < endpoints.len() ==> endpoint_less(#[trigger] endpoints[i], #[trigger] endpoints[j])
}

/// Why no single endpoint was selected.
#[derive(Clone, Debug, PartialEq, Eq)]
pub enum DiscoveryError {
    /// No valid responder produced an endpoint.
    NoResponder,
    /// More than one distinct endpoint was offered, in order.
    Ambiguous(Vec<Endpoint>),
}

/// The endpoint a response names: its source address and advertised port.
pub open spec fn response_endpoints(responses: Seq<Endpoint>) -> Set<Endpoint> {
    responses.to_set()
}

/// The advertised TCP port of a response to the probe with `nonce`: the
/// datagram must be a valid HERE echoing that nonce.
pub open spec fn accepted_port(datagram: Seq<u8>, nonce: Seq<char>) -> Option<u16> {
    match parse_here_spec(datagram) {
        Some((echoed, port)) => if echoed == nonce {
            Some(port)
        } else {
            None
        },
        None => None,
    }
}

/// Decide whether a received datagram answers the probe with `nonce`.
pub fn accept_response(datagram: &[u8], nonce: &str) -> (port: Option<u16>)
    ensures
        port == accepted_port(datagram@, nonce@),
{
    match parse_here(datagram) {
        Some((echoed, port)) => {
            let echoed = str_to_chars(echoed.as_str());
            let expected = str_to_chars(nonce);
            if chars_equal(echoed.as_slice(), expected.as_slice()) {
                Some(port)
            } else {
                None
            }
        },
        None => None,
    }
}

/// Insert `endpoint` into a strictly sorted list unless it is there.
fn insert_sorted(list: &mut Vec<Endpoint>, endpoint: Endpoint)
    requires
        strictly_sorted(old(list)@),
    ensures
        strictly_sorted(final(list)@),
        final(list)@.to_set() == old(list)@.to_set().insert(endpoint),
{
    let mut index: usize = 0;
    while index < list.len() && endpoint_before(list[index], endpoint)
        invariant
            index <= list@.len(),
            strictly_sorted(list@),
            forall|j: int| 0 <= j < index ==> endpoint_less(#[trigger] list@[j], endpoint),
        decreases list@.len() - index,
    {
        index = index + 1;
    }
    let ghost before = list@;
    if index < list.len() && list[index].0 == endpoint.0 && list[index].1 == endpoint.1 {
        assert(before.to_set() =~= before.to_set().insert(endpoint)) by {
            assert(before.contains(endpoint)) by {
                assert(before[index as int] == endpoint);
            }
        }
        return;
    }
    list.insert(index, endpoint);
    assert forall|i: int, j: int| 0 <= i < j < list@.len() implies endpoint_less(
        #[trigger] list@[i],
        #[trigger] list@[j],
    ) by {
        if j < index {
        } else if j == index {
        } else if i < index {
            assert(endpoint_less(before[i], endpoint));
            assert(list@[j] == before[j - 1]);
            if index < before.len() {
                assert(!endpoint_less(before[index as int], endpoint));
                if j - 1 > index {
                    assert(endpoint_less(before[index as int], before[j - 1]));
                }
            }
        } else if i == index {
            assert(list@[j] == before[j - 1]);
            assert(!endpoint_less(before[index as int], endpoint));
            if j - 1 > index {
                assert(endpoint_less(before[index as int], before[j - 1]));
            }
        } else {
            assert(list@[i] == before[i - 1] && list@[j] == before[j - 1]);
        }
    }
    assert(list@.to_set() =~= before.to_set().insert(endpoint)) by {
        assert forall|e: Endpoint| list@.to_set().contains(e) implies before.to_set().insert(
            endpoint,
        ).contains(e) by {
            let k = choose|k: int| 0 <= k < list@.len() && list@[k] == e;
            if k < index {
                assert(before[k] == e);
            } else if k > index {
                assert(before[k - 1] == e);
            }
        }
        assert forall|e: Endpoint| before.to_set().insert(endpoint).contains(e) implies list@.to_set().contains(
            e,
        ) by {
            if e == endpoint {
                assert(list@[index as int] == endpoint);
            } else {
                let k = choose|k: int| 0 <= k < before.len() && before[k] == e;
                if k < index {
                    assert(list@[k] == e);
                } else {
                    assert(list@[k + 1] == e);
                }
            }
        }
    }
}

fn endpoint_before(a: Endpoint, b: Endpoint) -> (before: bool)
    ensures
        before == endpoint_less(a, b),
{
    a.0 < b.0 || (a.0 == b.0 && a.1 < b.1)
}

/// Select the discovered endpoint from the validated responses, each its
/// source address and advertised port: the one distinct endpoint, or an
/// error for none or several.
pub fn select_endpoint(responses: &[Endpoint]) -> (result: Result<Endpoint, DiscoveryError>)
    ensures
        match result {
            Ok(endpoint) => response_endpoints(responses@) == set![endpoint],
            Err(DiscoveryError::NoResponder) => responses@.len() == 0,
            Err(DiscoveryError::Ambiguous(endpoints)) => {
                &&& strictly_sorted(endpoints@)
                &&& endpoints@.to_set() == response_endpoints(responses@)
                &&& endpoints@.len() >= 2
            },
        },
{
    let mut endpoints: Vec<Endpoint> = Vec::new();
    let mut index: usize = 0;
    while index < responses.len()
        invariant
            index <= responses@.len(),
            strictly_sorted(endpoints@),
            endpoints@.to_set() == responses@.subrange(0, index as int).to_set(),
        decreases responses@.len() - index,
    {
        proof {
            assert(responses@.subrange(0, index + 1) =~= responses@.subrange(0, index as int).push(
                responses@[index as int],
            ));
            responses@.subrange(0, index as int).lemma_push_to_set_commute(
                responses@[index as int],
            );
        }
        insert_sorted(&mut endpoints, responses[index]);
        index = index + 1;
    }
    proof {
        assert(responses@.subrange(0, responses@.len() as int) =~= responses@);
    }
    if endpoints.len() == 0 {
        proof {
            if responses@.len() > 0 {
                assert(responses@.to_set().contains(responses@[0]));
                assert(endpoints@.to_set().contains(responses@[0]));
            }
        }
        Err(DiscoveryError::NoResponder)
    } else if endpoints.len() == 1 {
        let endpoint = endpoints[0];
        proof {
            assert(endpoints@ =~= seq![endpoint]);
            assert(seq![endpoint].to_set() =~= set![endpoint]) by {
                assert forall|e: Endpoint| seq![endpoint].to_set().contains(e) implies e == endpoint by {
                    let k = choose|k: int| 0 <= k < 1 && seq![endpoint][k] == e;
                }
                assert(seq![endpoint][0] == endpoint);
            }
        }
        Ok(endpoint)
    } else {
        Err(DiscoveryError::Ambiguous(endpoints))
    }
}

} // verus!
