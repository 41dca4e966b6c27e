use iroh_proxy::stun::{
    binding_request, is_stun_candidate, stun_server, PublicAddressTracker, SocketAddress,
    STUN_REQUEST_INTERVAL_SECS, STUN_SERVER_PORT,
};

fn response_with_mapped(ip: &str, port: u16) -> Vec<u8> {
    let mut message = stun::message::Message::new();
    let mapped = stun::xoraddr::XorMappedAddress { ip: ip.parse().unwrap(), port };
    message
        .build(&[Box::new(stun::message::BINDING_SUCCESS), Box::new(mapped)])
        .unwrap();
    message.raw
}

fn bound() -> SocketAddress {
    SocketAddress { ip: vec![0, 0, 0, 0], port: 4433 }
}

#[test]
fn binding_request_is_a_bare_header() {
    let request = binding_request();
    let mut expected = vec![0x00, 0x01, 0x00, 0x00, 0x21, 0x12, 0xA4, 0x42];
    expected.extend_from_slice(&[0u8; 12]);
    assert_eq!(request, expected);
}

#[test]
fn server_is_the_public_stun_server() {
    let server = stun_server();
    assert_eq!(server.ip, vec![74, 125, 250, 129]);
    assert_eq!(server.port, 19302);
    assert_eq!(STUN_SERVER_PORT, 19302);
    assert_eq!(STUN_REQUEST_INTERVAL_SECS, 10);
}

#[test]
fn recognises_stun_datagrams() {
    let request = binding_request();
    assert!(is_stun_candidate(&request, request.len()));
    assert!(!is_stun_candidate(&request, 19));
    let mut wrong_cookie = request.clone();
    wrong_cookie[6] = 0;
    assert!(!is_stun_candidate(&wrong_cookie, wrong_cookie.len()));
    assert!(!is_stun_candidate(b"GET / HTTP/1.1\r\nHost: x\r\n\r\n", 27));
}

#[test]
fn reports_bound_address_until_a_response_arrives() {
    let tracker = PublicAddressTracker::new();
    let reported: Result<SocketAddress, ()> = tracker.local_addr(Ok(bound()));
    assert_eq!(reported.unwrap().port, 4433);
    let failed: Result<SocketAddress, &str> = tracker.local_addr(Err("unbound"));
    assert_eq!(failed.err(), Some("unbound"));
}

#[test]
fn learns_the_mapped_address() {
    let mut tracker = PublicAddressTracker::new();
    let response = response_with_mapped("203.0.113.9", 61000);
    tracker.observe(&response, response.len());
    let reported = tracker.local_addr::<()>(Ok(bound())).unwrap();
    assert_eq!(reported.ip, vec![203, 0, 113, 9]);
    assert_eq!(reported.port, 61000);
    let even_on_error = tracker.local_addr::<&str>(Err("unbound")).unwrap();
    assert_eq!(even_on_error.port, 61000);
}

#[test]
fn learns_an_ipv6_mapped_address() {
    let mut tracker = PublicAddressTracker::new();
    let response = response_with_mapped("2001:db8::1", 443);
    tracker.observe(&response, response.len());
    let reported = tracker.local_addr::<()>(Ok(bound())).unwrap();
    let mut expected = vec![0x20, 0x01, 0x0d, 0xb8];
    expected.extend_from_slice(&[0u8; 11]);
    expected.push(1);
    assert_eq!(reported.ip, expected);
    assert_eq!(reported.port, 443);
}

#[test]
fn ignores_foreign_datagrams() {
    let mut tracker = PublicAddressTracker::new();
    let response = response_with_mapped("203.0.113.9", 61000);
    tracker.observe(&response, response.len());
    let noise = vec![0xffu8; 64];
    tracker.observe(&noise, noise.len());
    tracker.observe(&response, 10);
    let reported = tracker.local_addr::<()>(Ok(bound())).unwrap();
    assert_eq!(reported.ip, vec![203, 0, 113, 9]);
}

#[test]
fn a_request_without_mapped_address_changes_nothing() {
    let mut tracker = PublicAddressTracker::new();
    let request = binding_request();
    tracker.observe(&request, request.len());
    let reported = tracker.local_addr::<()>(Ok(bound())).unwrap();
    assert_eq!(reported.ip, vec![0, 0, 0, 0]);
}

#[test]
fn the_last_response_of_a_batch_wins() {
    let mut tracker = PublicAddressTracker::new();
    let first = response_with_mapped("198.51.100.1", 1000);
    let second = response_with_mapped("198.51.100.2", 2000);
    let noise = vec![1u8, 2, 3];
    let bufs: Vec<&[u8]> = vec![&first, &second, &noise];
    let lens = vec![first.len(), second.len(), noise.len()];
    tracker.observe_received(&bufs, &lens, 3);
    let reported = tracker.local_addr::<()>(Ok(bound())).unwrap();
    assert_eq!(reported.ip, vec![198, 51, 100, 2]);
    assert_eq!(reported.port, 2000);
}

#[test]
fn only_the_received_part_of_each_buffer_counts() {
    let mut tracker = PublicAddressTracker::new();
    let response = response_with_mapped("198.51.100.7", 7000);
    let mut big = response.clone();
    big.extend_from_slice(&[0u8; 100]);
    let bufs: Vec<&[u8]> = vec![&big];
    let lens = vec![response.len()];
    tracker.observe_received(&bufs, &lens, 1);
    let reported = tracker.local_addr::<()>(Ok(bound())).unwrap();
    assert_eq!(reported.port, 7000);
    let mut untouched = PublicAddressTracker::new();
    untouched.observe_received(&bufs, &lens, 0);
    assert_eq!(untouched.local_addr::<()>(Ok(bound())).unwrap().port, 4433);
}
