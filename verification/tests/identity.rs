use sentry::leases::leases_from_reply;
use sentry::neighbor::{resolve_hostname, resolve_mac, Lease};

const IP_COMMAND_OUTPUT: &str = "127.0.0.1 dev enp0s20u1 lladdr DE:AD:BE:EF:00:11 REACHABLE";
const UBUS_COMMAND_OUTPUT: &str = r#"
    {
        "device": {
                "br-private": {
                        "leases": [

                        ]
                },
                "br-public": {
                        "leases": [
                                {
                                        "mac": "macmacmac",
                                        "hostname": "testmachine",
                                        "ip": "127.0.0.1",
                                        "valid": -42406
                                }
                        ]
                }
        }
   }"#;

#[test]
fn resolve_mac_reads_reachable_entry() {
    let mac = resolve_mac(IP_COMMAND_OUTPUT, "127.0.0.1").unwrap();
    assert_eq!(mac.as_str(), "DE:AD:BE:EF:00:11");
}

#[test]
fn resolve_mac_fails_on_empty_table() {
    assert!(resolve_mac("", "127.0.0.1").is_none());
}

#[test]
fn resolve_mac_picks_the_right_line() {
    let table = "10.0.0.7 dev br0  FAILED\n\
                 127.0.0.1 dev enp0s20u1 lladdr DE:AD:BE:EF:00:11 REACHABLE\n\
                 10.0.0.9 dev br0 lladdr 11:22:33:44:55:66 STALE";
    assert_eq!(
        resolve_mac(table, "127.0.0.1").unwrap().as_str(),
        "DE:AD:BE:EF:00:11"
    );
    assert_eq!(
        resolve_mac(table, "10.0.0.9").unwrap().as_str(),
        "11:22:33:44:55:66"
    );
    assert!(resolve_mac(table, "10.0.0.7").is_none());
    assert!(resolve_mac(table, "10.0.0").is_none());
}

#[test]
fn leases_decode_from_oracle_reply() {
    let leases = leases_from_reply(UBUS_COMMAND_OUTPUT, "br-public");
    assert_eq!(leases.len(), 1);
    assert_eq!(leases[0].mac.as_str(), "macmacmac");
    assert_eq!(leases[0].ip.as_str(), "127.0.0.1");
    assert_eq!(leases[0].hostname.as_str(), "testmachine");
    assert_eq!(leases[0].valid, -42406);
    assert!(leases_from_reply(UBUS_COMMAND_OUTPUT, "br-private").is_empty());
    assert!(leases_from_reply("not json", "br-public").is_empty());
}

#[test]
fn hostname_resolution_matches_ip_or_mac() {
    let leases = leases_from_reply(UBUS_COMMAND_OUTPUT, "br-public");
    let by_ip = resolve_hostname(&leases, "127.0.0.1", "DE:AD:BE:EF:00:11").unwrap();
    assert_eq!(by_ip.as_str(), "testmachine");
    let by_mac = resolve_hostname(&leases, "10.9.9.9", "MACMACMAC").unwrap();
    assert_eq!(by_mac.as_str(), "testmachine");
    assert!(resolve_hostname(&leases, "10.9.9.9", "00:00:00:00:00:00").is_none());
}

#[test]
fn expired_lease_still_names_its_host() {
    let leases = vec![Lease {
        mac: String::from("DE:AD:BE:EF:00:11"),
        ip: String::from("192.168.1.50"),
        hostname: String::from("oldtimer"),
        valid: -1,
    }];
    assert_eq!(
        resolve_hostname(&leases, "192.168.1.50", "??").unwrap().as_str(),
        "oldtimer"
    );
}

#[test]
fn first_matching_lease_wins() {
    let leases = vec![
        Lease {
            mac: String::from("aa:aa:aa:aa:aa:aa"),
            ip: String::from("10.0.0.1"),
            hostname: String::from("first"),
            valid: 100,
        },
        Lease {
            mac: String::from("aa:aa:aa:aa:aa:aa"),
            ip: String::from("10.0.0.2"),
            hostname: String::from("second"),
            valid: 100,
        },
    ];
    assert_eq!(
        resolve_hostname(&leases, "10.0.0.9", "AA:AA:AA:AA:AA:AA").unwrap().as_str(),
        "first"
    );
}
