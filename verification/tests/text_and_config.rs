use sentry::config::{get_redirect_url, get_validity_window, trim_end, DEFAULT_RULE_VALIDITY_SECS};
use sentry::config::SentryConfig;
use sentry::lifeline::{build_helo, Logger};
use sentry::device_config::{maketrue, ConfigWifiRadio, ConfigWifiRadios};
use sentry::secret::create_secret;
use sentry::text::{find_sub, parse_u64, split_lines, starts_with, str_eq, str_eq_ci, u64_to_dec};
use sentry::url::{get_redirect_host, get_url_port, strip_port};

#[test]
fn parse_u64_accepts_plain_decimals() {
    assert_eq!(parse_u64("0"), Some(0));
    assert_eq!(parse_u64("42"), Some(42));
    assert_eq!(parse_u64("18446744073709551615"), Some(u64::MAX));
}

#[test]
fn parse_u64_rejects_junk_and_overflow() {
    assert_eq!(parse_u64(""), None);
    assert_eq!(parse_u64("12a"), None);
    assert_eq!(parse_u64("-3"), None);
    assert_eq!(parse_u64("18446744073709551616"), None);
    assert_eq!(parse_u64("99999999999999999999999"), None);
}

#[test]
fn u64_to_dec_renders_canonically() {
    assert_eq!(u64_to_dec(0).as_str(), "0");
    assert_eq!(u64_to_dec(7).as_str(), "7");
    assert_eq!(u64_to_dec(1234).as_str(), "1234");
    assert_eq!(u64_to_dec(u64::MAX).as_str(), "18446744073709551615");
}

#[test]
fn find_sub_finds_first_occurrence() {
    assert_eq!(find_sub("abcabc", "bc", 0), Some(1));
    assert_eq!(find_sub("abcabc", "bc", 2), Some(4));
    assert_eq!(find_sub("abcabc", "zz", 0), None);
    assert_eq!(find_sub("abc", "", 1), Some(1));
}

#[test]
fn string_comparisons() {
    assert!(str_eq("same", "same"));
    assert!(!str_eq("same", "Same"));
    assert!(str_eq_ci("Host", "hOST"));
    assert!(!str_eq_ci("Host", "Hos"));
    assert!(starts_with("timestamp=12", "timestamp="));
    assert!(!starts_with("time", "timestamp="));
}

#[test]
fn redirect_url_falls_back_when_invalid() {
    assert_eq!(get_redirect_url(None).as_str(), "http://portal.captif.io/?origin=");
    assert_eq!(get_redirect_url(Some("nonsense")).as_str(), "http://portal.captif.io/?origin=");
    assert_eq!(
        get_redirect_url(Some("http://10.0.0.1:8080/")).as_str(),
        "http://10.0.0.1:8080/"
    );
}

#[test]
fn redirect_host_extraction() {
    assert_eq!(
        get_redirect_host("http://portal.captif.io/?origin=").unwrap().as_str(),
        "portal.captif.io"
    );
    assert_eq!(get_redirect_host("http://127.0.0.1:8080/").unwrap().as_str(), "127.0.0.1");
    assert_eq!(get_redirect_host("https://a.example#f").unwrap().as_str(), "a.example");
    assert!(get_redirect_host("nonsense").is_none());
    assert!(get_redirect_host("http:///path").is_none());
    assert!(get_redirect_host("://host/").is_none());
}

#[test]
fn url_port_extraction() {
    assert_eq!(get_url_port("http://127.0.0.1:8080/"), Some(8080));
    assert_eq!(get_url_port("http://h.example/"), None);
    assert_eq!(get_url_port("http://h.example:/x"), None);
    assert_eq!(get_url_port("http://h.example:70000/"), None);
    assert_eq!(get_url_port("nonsense"), None);
}

#[test]
fn split_lines_keeps_inner_empties_only() {
    let lines = split_lines("a\nb\n\nc\n");
    let texts: Vec<&str> = lines.iter().map(|s| s.as_str()).collect();
    assert_eq!(texts, ["a", "b", "", "c"]);
    assert!(split_lines("").is_empty());
    let one = split_lines("solo");
    assert_eq!(one.len(), 1);
    assert_eq!(one[0].as_str(), "solo");
}

#[test]
fn strip_port_handles_both_forms() {
    assert_eq!(strip_port("127.0.0.1:8080").as_str(), "127.0.0.1");
    assert_eq!(strip_port("portal.captif.io").as_str(), "portal.captif.io");
}

#[test]
fn validity_window_parses_or_defaults() {
    assert_eq!(get_validity_window(None), DEFAULT_RULE_VALIDITY_SECS);
    assert_eq!(get_validity_window(Some("3600")), 3600);
    assert_eq!(get_validity_window(Some("7200\n")), 7200);
    assert_eq!(get_validity_window(Some("soon")), DEFAULT_RULE_VALIDITY_SECS);
    assert_eq!(get_validity_window(Some("")), DEFAULT_RULE_VALIDITY_SECS);
}

#[test]
fn trim_end_strips_trailing_whitespace_only() {
    assert_eq!(trim_end("abc \n\t").as_str(), "abc");
    assert_eq!(trim_end("  abc").as_str(), "  abc");
    assert_eq!(trim_end("").as_str(), "");
}

#[test]
fn secret_has_fixed_length_and_alphabet() {
    let s = create_secret();
    assert_eq!(s.len(), 16);
    assert!(s.chars().all(|c| c.is_ascii_alphanumeric()));
    let t = create_secret();
    assert_eq!(t.len(), 16);
}

#[test]
fn config_carries_identity_and_secret() {
    let cfg = SentryConfig::new(String::from("pylonpylon"), Some("http://127.0.0.1:9999/"))
        .unwrap();
    assert_eq!(cfg.pylon.as_str(), "pylonpylon");
    assert_eq!(cfg.redirect_url.as_str(), "http://127.0.0.1:9999/");
    assert_eq!(cfg.redirect_host.as_str(), "127.0.0.1");
    assert_eq!(cfg.secret.len(), 16);
}

#[test]
fn helo_is_built_exactly() {
    let h = build_helo("deviceid", "lifeline.example");
    let expected = "GET /lifeline/1 HTTP/1.1\r\nHost: lifeline.example\r\nUpgrade: websocket\r\nConnection: Upgrade\r\nUser-Agent: Mozilla/5.0 (X11; Linux x86_64) AppleWebKit/537.36 (KHTML, like Gecko) Chrome/51.0.2704.63 Safari/537.36\r\nSec-WebSocket-Key: x3JJHMbDL1EzLkh9GBhXDw==\r\nSec-WebSocket-Protocol: chat, superchat\r\nSec-WebSocket-Version: 13\r\nX-LF-Name: deviceid\r\n\r\n";
    assert_eq!(h.as_str(), expected);
}

#[test]
fn device_config_defaults() {
    assert!(maketrue());
    let r = ConfigWifiRadio::default();
    assert!(r.on);
    assert!(r.channel.is_none());
    let rs = ConfigWifiRadios::default();
    assert!(rs.a.on && rs.g.on);
    let _ = Logger::new();
}
