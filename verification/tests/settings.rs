use iroh_proxy::support::iroh::{
    endpoint_builder, external_addresses, get_congestion_controller, transport_config,
    DEFAULT_BBR_INITIAL_WINDOW, DEFAULT_RECEIVE_WINDOW, DEFAULT_SEND_WINDOW,
    DEFAULT_STREAM_RECEIVE_WINDOW, STUN_QUIC_ALPN,
};
use iroh_proxy::support::{parse_u16, parse_u32, parse_u64};

#[test]
fn parses_plain_port() {
    assert_eq!(parse_u16("8080"), Some(8080));
    assert_eq!(parse_u16("0"), Some(0));
    assert_eq!(parse_u16("65535"), Some(65535));
}

#[test]
fn parses_leading_plus() {
    assert_eq!(parse_u16("+42"), Some(42));
    assert_eq!(parse_u32("+0007"), Some(7));
}

#[test]
fn refuses_empty_and_bare_signs() {
    assert_eq!(parse_u16(""), None);
    assert_eq!(parse_u16("+"), None);
    assert_eq!(parse_u16("-"), None);
    assert_eq!(parse_u16("++1"), None);
}

#[test]
fn refuses_negative_numbers() {
    assert_eq!(parse_u16("-1"), None);
    assert_eq!(parse_u64("-0"), None);
}

#[test]
fn refuses_other_characters() {
    assert_eq!(parse_u16("12a"), None);
    assert_eq!(parse_u16(" 12"), None);
    assert_eq!(parse_u16("12 "), None);
    assert_eq!(parse_u32("1_000"), None);
    assert_eq!(parse_u32("١٢"), None);
}

#[test]
fn refuses_overflow() {
    assert_eq!(parse_u16("65536"), None);
    assert_eq!(parse_u16("100000"), None);
    assert_eq!(parse_u32("4294967295"), Some(4294967295));
    assert_eq!(parse_u32("4294967296"), None);
    assert_eq!(parse_u64("18446744073709551615"), Some(u64::MAX));
    assert_eq!(parse_u64("18446744073709551616"), None);
    assert_eq!(parse_u64("99999999999999999999999"), None);
}

#[test]
fn agrees_with_std_parse() {
    for text in ["0", "1", "+1", "", "+", "-1", "65535", "65536", "007", "1x", "300"] {
        assert_eq!(parse_u16(text), text.parse::<u16>().ok(), "{}", text);
        assert_eq!(parse_u32(text), text.parse::<u32>().ok(), "{}", text);
        assert_eq!(parse_u64(text), text.parse::<u64>().ok(), "{}", text);
    }
}

#[test]
fn splits_external_addresses() {
    assert_eq!(
        external_addresses("1.2.3.4:5,example.org:6"),
        vec!["1.2.3.4:5".to_string(), "example.org:6".to_string()]
    );
}

#[test]
fn splits_like_str_split() {
    for text in ["", ",", "a", "a,", ",a", "a,,b", "é,ü,", "x:1,y:2,z:3"] {
        let expected: Vec<String> = text.split(',').map(|s| s.to_string()).collect();
        assert_eq!(external_addresses(text), expected, "{}", text);
    }
}

#[test]
fn split_then_join_gives_back_the_text() {
    for text in ["a,b,c", "", ",,", "host:1"] {
        assert_eq!(external_addresses(text).join(","), text);
    }
}

#[test]
fn alpn_is_stun_quic() {
    assert_eq!(STUN_QUIC_ALPN, "stun-quic");
}

#[test]
fn unset_windows_keep_the_defaults() {
    let tuning = transport_config(None, None, None, None);
    assert_eq!(tuning.receive_window, DEFAULT_RECEIVE_WINDOW);
    assert_eq!(tuning.send_window, DEFAULT_SEND_WINDOW);
    assert_eq!(tuning.stream_receive_window, DEFAULT_STREAM_RECEIVE_WINDOW);
    assert_eq!(tuning.congestion.bbr_initial_window, DEFAULT_BBR_INITIAL_WINDOW);
    assert_eq!(DEFAULT_RECEIVE_WINDOW, (1u64 << 62) - 1);
    assert_eq!(DEFAULT_SEND_WINDOW, 10_000_000);
    assert_eq!(DEFAULT_STREAM_RECEIVE_WINDOW, 1_250_000);
    assert_eq!(DEFAULT_BBR_INITIAL_WINDOW, 12_000);
}

#[test]
fn set_windows_are_used_each_in_its_place() {
    let tuning = transport_config(Some(1 << 20), Some(1 << 21), Some(1 << 19), Some(64_000));
    assert_eq!(tuning.receive_window, 1 << 20);
    assert_eq!(tuning.send_window, 1 << 21);
    assert_eq!(tuning.stream_receive_window, 1 << 19);
    assert_eq!(tuning.congestion.bbr_initial_window, 64_000);
    let partly = transport_config(None, Some(7), None, None);
    assert_eq!(partly.receive_window, DEFAULT_RECEIVE_WINDOW);
    assert_eq!(partly.send_window, 7);
}

#[test]
fn unparseable_windows_keep_the_defaults() {
    let tuning = transport_config(parse_u32("-1"), parse_u32("5000000000"), parse_u32("64k"), parse_u64("x"));
    assert_eq!(tuning.receive_window, DEFAULT_RECEIVE_WINDOW);
    assert_eq!(tuning.send_window, DEFAULT_SEND_WINDOW);
    assert_eq!(tuning.stream_receive_window, DEFAULT_STREAM_RECEIVE_WINDOW);
    assert_eq!(tuning.congestion.bbr_initial_window, DEFAULT_BBR_INITIAL_WINDOW);
}

#[test]
fn builds_endpoint_builders() {
    assert!(endpoint_builder(None, None, None, None, None).is_ok());
    assert!(endpoint_builder(Some(1 << 20), None, None, Some(64_000), Some("127.0.0.1:0")).is_ok());
    assert!(endpoint_builder(None, None, None, None, Some("[::1]:0")).is_ok());
}

#[test]
fn refuses_a_bind_address_that_is_not_one() {
    assert!(endpoint_builder(None, None, None, None, Some("localhost")).is_err());
    assert!(endpoint_builder(None, None, None, None, Some("")).is_err());
}

#[test]
fn congestion_controller_takes_the_given_window() {
    assert_eq!(get_congestion_controller(None).bbr_initial_window, DEFAULT_BBR_INITIAL_WINDOW);
    assert_eq!(get_congestion_controller(Some(128_000)).bbr_initial_window, 128_000);
}
