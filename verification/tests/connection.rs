use paperpad::connection::ConnectionSlot;
use paperpad::datagram::{format_discover, parse_here};
use paperpad::paperspoon::host::{discovery_response, ZeroTcpPort};

#[test]
fn disconnected_state_rejects_stream_clone() {
    let state = ConnectionSlot::disconnected();
    assert_eq!(state.current_token(), None);
}

#[test]
fn reconnect_closes_previous_socket_and_installs_replacement() {
    let mut state = ConnectionSlot::disconnected();
    let first = state.install();
    state.disconnect();
    let replacement = state.install();
    assert_ne!(first, replacement);
    assert_eq!(state.current_token(), Some(replacement));
    assert!(!state.is_current(first));
}

#[test]
fn disconnect_shuts_down_cloned_socket_and_is_idempotent() {
    let mut state = ConnectionSlot::disconnected();
    let _token = state.install();
    state.disconnect();
    state.disconnect();
    assert_eq!(state.current_token(), None);
}

#[test]
fn stale_stream_cannot_disconnect_replacement() {
    let mut state = ConnectionSlot::disconnected();
    let stale = state.install();
    let current = state.install();
    assert!(!state.is_current(stale));
    assert!(!state.clear_if_current(stale));
    assert_eq!(state.current_token(), Some(current));
    assert!(state.clear_if_current(current));
    assert_eq!(state.current_token(), None);
    assert!(!state.clear_if_current(current));
}

#[test]
fn forwarding_follows_connection_replacement() {
    let mut current = ConnectionSlot::disconnected();
    assert_eq!(current.current_token(), None);
    let first = current.install();
    assert!(current.is_current(first));
    let second = current.install();
    assert!(current.is_current(second));
    assert!(!current.clear_if_current(first));
    assert!(current.can_install());
}

#[test]
fn responder_advertises_injected_tcp_port() {
    let nonce = "actual-port-test";
    let response = discovery_response(format_discover(nonce).as_bytes(), 42_424)
        .expect("respond")
        .expect("response");
    assert_eq!(
        parse_here(response.as_bytes()),
        Some((nonce.to_string(), 42_424))
    );
}

#[test]
fn responder_rejects_zero_tcp_port() {
    let error = discovery_response(format_discover("n").as_bytes(), 0).expect_err("zero port");
    assert_eq!(error, ZeroTcpPort);
    assert_eq!(error.message(), "discovery cannot advertise TCP port 0");
}

#[test]
fn malformed_request_is_ignored_without_response() {
    assert_eq!(
        discovery_response(b"not a discovery request\n", 42_424),
        Ok(None)
    );
}
