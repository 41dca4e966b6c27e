use iroh_proxy::support::connection_pool::{
    keep_alive_url, parse_ticket, PoolStep, UplinkPool, ticket_url, LingerMonitor, DEFAULT_LINGER_SECS,
    KEEP_ALIVE_INTERVAL_SECS, KEEP_ALIVE_TIMEOUT_SECS,
};

#[test]
fn ticket_url_appends_the_route() {
    assert_eq!(ticket_url("https://proxy.example"), "https://proxy.example/iroh/ticket");
    assert_eq!(ticket_url(""), "/iroh/ticket");
}

#[test]
fn keep_alive_url_asks_for_five_minutes() {
    assert_eq!(
        keep_alive_url("http://10.0.0.1:8080"),
        "http://10.0.0.1:8080/keep_alive?time_out_secs=300"
    );
    assert_eq!(KEEP_ALIVE_TIMEOUT_SECS, 300);
    assert_eq!(KEEP_ALIVE_INTERVAL_SECS, 5);
}

#[test]
fn refuses_text_that_is_not_a_ticket() {
    assert!(parse_ticket("").is_err());
    assert!(parse_ticket("hello").is_err());
    assert!(parse_ticket("endpoint!!!").is_err());
}

#[test]
fn accepts_a_real_ticket() {
    let id = iroh::SecretKey::from_bytes(&[7u8; 32]).public();
    let ticket = iroh_tickets::endpoint::EndpointTicket::new(iroh::EndpointAddr::new(id));
    let text = ticket.to_string();
    assert!(text.starts_with("endpoint"));
    let parsed = parse_ticket(&text).expect("a ticket's own text parses");
    assert_eq!(parsed, ticket);
}

#[test]
fn linger_default_is_ten_checks() {
    assert_eq!(DEFAULT_LINGER_SECS, 10);
}

#[test]
fn linger_expires_after_consecutive_idle_checks() {
    let mut monitor = LingerMonitor::new(3);
    assert!(monitor.is_lingering());
    monitor.record_check(1);
    monitor.record_check(1);
    assert!(monitor.is_lingering());
    monitor.record_check(1);
    assert!(!monitor.is_lingering());
}

#[test]
fn linger_use_resets_the_count() {
    let mut monitor = LingerMonitor::new(3);
    monitor.record_check(1);
    monitor.record_check(1);
    monitor.record_check(2);
    monitor.record_check(1);
    monitor.record_check(1);
    assert!(monitor.is_lingering());
    monitor.record_check(1);
    assert!(!monitor.is_lingering());
}

#[test]
fn linger_stays_expired() {
    let mut monitor = LingerMonitor::new(1);
    monitor.record_check(1);
    assert!(!monitor.is_lingering());
    monitor.record_check(5);
    assert!(!monitor.is_lingering());
}

#[test]
fn linger_zero_expires_at_once() {
    let monitor = LingerMonitor::new(0);
    assert!(!monitor.is_lingering());
}

#[test]
fn a_new_pool_builds() {
    let pool = UplinkPool::new();
    assert_eq!(pool.get(true), PoolStep::Build);
    assert_eq!(pool.get(false), PoolStep::Build);
}

#[test]
fn a_held_uplink_is_handed_out_again() {
    let mut pool = UplinkPool::new();
    pool.record_built(41);
    for _ in 0..5 {
        assert_eq!(pool.get(true), PoolStep::Reuse(41));
    }
    pool.record_built(42);
    assert_eq!(pool.get(true), PoolStep::Reuse(42));
}

#[test]
fn a_dropped_uplink_is_rebuilt() {
    let mut pool = UplinkPool::new();
    pool.record_built(7);
    assert_eq!(pool.get(false), PoolStep::Build);
}

#[test]
fn the_published_ticket_is_the_tickets_text() {
    let id = iroh::SecretKey::from_bytes(&[9u8; 32]).public();
    let addr = iroh::EndpointAddr::new(id);
    let ticket = iroh_tickets::endpoint::EndpointTicket::new(addr.clone());
    let text = iroh_proxy::web::ticket_text_for(addr.clone());
    assert_eq!(text, ticket.to_string());
    assert!(text.starts_with("endpoint"));
    let parsed = parse_ticket(&text).unwrap();
    assert_eq!(iroh::EndpointAddr::from(parsed), addr);
}
