use sentry::firewall::{
    grant_rule, rule_body_of_listing, rule_is_stale, rule_timestamp, sweep_select, IPT_CHAIN,
    IPT_TABLE,
};

fn listed(mac: &str, ts: u64) -> String {
    format!(
        "-A prerouting_public_rule -m mac --mac-source {} -m comment --comment \"timestamp={}\" -j ACCEPT",
        mac, ts
    )
}

#[test]
fn test_access_control() {
    let valid_mac = "DE:AD:BE:DE:AD:DE";
    let expired_mac = "DE:AD:BE:DE:FF:DE";
    let window: u64 = 3600;
    let now: u64 = 1_000_000;

    let rules = vec![
        listed(valid_mac, now),
        listed(expired_mac, now - window - 10),
    ];
    let stale = sweep_select(&rules, now, window);

    let joined: String = stale.iter().flat_map(|s| s.chars()).collect();
    assert!(!joined.contains(valid_mac));
    assert!(joined.contains(expired_mac));
    assert_eq!(stale.len(), 1);
}

#[test]
fn test_access_control_duration_from_file() {
    let valid_mac = "DE:AD:BE:DE:AD:DF";
    let expired_mac = "DE:AD:BE:DE:FF:DF";
    let window = sentry::config::get_validity_window(Some("3600"));
    assert_eq!(window, 3600);
    let now: u64 = 1_000_000;

    let rules = vec![
        listed(valid_mac, now),
        listed(expired_mac, now - window - 10),
    ];
    let stale = sweep_select(&rules, now, window);

    let joined: String = stale.iter().flat_map(|s| s.chars()).collect();
    assert!(!joined.contains(valid_mac));
    assert!(joined.contains(expired_mac));
}

#[test]
fn sweep_leaves_rules_without_timestamp_untouched() {
    let now: u64 = 10_000;
    let window: u64 = 100;
    let rules = vec![
        String::from("-A prerouting_public_rule -j RETURN"),
        listed("AA:BB:CC:DD:EE:FF", 1),
        String::from("-A prerouting_public_rule -m comment --comment \"note=5\" -j ACCEPT"),
    ];
    let stale = sweep_select(&rules, now, window);
    assert_eq!(stale.len(), 1);
    assert!(stale[0].contains("AA:BB:CC:DD:EE:FF"));
}

#[test]
fn grant_rule_is_exact_and_parses_back() {
    let r = grant_rule("DE:AD:BE:EF:00:11", 12345);
    assert_eq!(
        r.as_str(),
        "-m mac --mac-source DE:AD:BE:EF:00:11 -m comment --comment timestamp=12345 -j ACCEPT"
    );
    assert_eq!(rule_timestamp(r.as_str()), Some(12345));
}

#[test]
fn rule_timestamp_reads_quoted_comments() {
    assert_eq!(rule_timestamp(&listed("AA:BB:CC:DD:EE:FF", 777)), Some(777));
    assert_eq!(rule_timestamp("-j ACCEPT"), None);
    assert_eq!(rule_timestamp("--comment timestamp= -j ACCEPT"), None);
    assert_eq!(
        rule_timestamp("--comment timestamp=99999999999999999999 -j ACCEPT"),
        None
    );
}

#[test]
fn staleness_respects_the_window_boundary() {
    let rule = listed("AA:BB:CC:DD:EE:FF", 100);
    assert!(!rule_is_stale(&rule, 100 + 50, 50));
    assert!(rule_is_stale(&rule, 100 + 51, 50));
    assert!(!rule_is_stale(&rule, 10, 50));
}

#[test]
fn listing_prefix_is_stripped_for_deletion() {
    let body = "-m mac --mac-source AA:BB:CC:DD:EE:FF -j ACCEPT";
    let listing = format!("-A {} {}", IPT_CHAIN, body);
    assert_eq!(rule_body_of_listing(&listing, IPT_CHAIN).unwrap().as_str(), body);
    assert!(rule_body_of_listing(body, IPT_CHAIN).is_none());
    assert_eq!(IPT_TABLE, "nat");
}
