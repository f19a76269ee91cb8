use paperpad::bonjour::{resolved_candidate, Candidate, SERVICES_TYPE, SERVICE_TYPE};
use paperpad::datagram::{format_discover, format_here, DISCOVER_PREFIX};
use paperpad::discovery::{accept_response, select_endpoint, DiscoveryError};

fn ipv4(a: u8, b: u8, c: u8, d: u8) -> u32 {
    u32::from_be_bytes([a, b, c, d])
}

#[test]
fn service_type_is_stable() {
    assert_eq!(SERVICE_TYPE, "_paperspoon._tcp.local.");
}

#[test]
fn services_browsing_type_is_stable() {
    assert_eq!(SERVICES_TYPE, "_services._dns-sd._udp.local.");
}

fn srv_port_choice(srv_port: u16, _txt: Option<&str>) -> u16 {
    resolved_candidate("paperspoon._paperspoon._tcp.local.", &[ipv4(192, 168, 0, 12)], srv_port)
        .expect("candidate")
        .port
}

#[test]
fn candidate_uses_srv_port() {
    // The SRV-advertised port is observed; TXT "port" metadata is advisory
    // and must not override it (handshake stays authoritative).
    assert_eq!(srv_port_choice(5590, Some("5591")), 5590);
}

#[test]
fn candidate_falls_back_to_service_port() {
    assert_eq!(srv_port_choice(5581, None), 5581);
}

#[test]
fn candidate_prefers_the_lowest_ipv4_address() {
    let addresses = [ipv4(192, 168, 0, 13), ipv4(10, 0, 0, 7), ipv4(192, 168, 0, 12)];
    assert_eq!(
        resolved_candidate("name.local.", &addresses, 5581),
        Some(Candidate {
            instance: "name.local.".to_string(),
            address: ipv4(10, 0, 0, 7),
            port: 5581,
        })
    );
    assert_eq!(resolved_candidate("name.local.", &[], 5581), None);
}

#[test]
fn client_parses_valid_here() {
    let response = format_discover("deadbeef");
    assert!(response.starts_with(DISCOVER_PREFIX));
}

#[test]
fn responses_must_echo_the_probe_nonce() {
    let here = format_here("deadbeef", 5581);
    assert_eq!(accept_response(here.as_bytes(), "deadbeef"), Some(5581));
    assert_eq!(accept_response(here.as_bytes(), "cafebabe"), None);
    assert_eq!(accept_response(b"garbage", "deadbeef"), None);
}

#[test]
fn endpoint_selected_from_udp_source() {
    let endpoint = select_endpoint(&[(ipv4(192, 168, 0, 12), 5581)]).unwrap();
    assert_eq!(endpoint, (ipv4(192, 168, 0, 12), 5581));
}

#[test]
fn multiple_responders_are_ambiguous() {
    let a = ipv4(192, 168, 0, 12);
    let b = ipv4(192, 168, 0, 13);
    let result = select_endpoint(&[(b, 5581), (a, 5581), (b, 5581)]);
    assert_eq!(result, Err(DiscoveryError::Ambiguous(vec![(a, 5581), (b, 5581)])));
}

#[test]
fn no_responder_is_an_error() {
    assert_eq!(select_endpoint(&[]), Err(DiscoveryError::NoResponder));
}

#[test]
fn repeated_responses_from_one_responder_select_it() {
    let a = ipv4(127, 0, 0, 1);
    assert_eq!(select_endpoint(&[(a, 5581), (a, 5581)]), Ok((a, 5581)));
}
