use sentry::config::SentryConfig;
use sentry::engine::{
    accept_action, classify, handshake_request, mac_error_response, offline_page,
    passthrough_request, proxied_response, redirect_response, reject_response, AcceptAction,
    Phase,
};
use sentry::http::{header_value, Header, Request};

const TEST_DEVICE_IP: &str = "127.0.0.1";
const TEST_DEVICE_MAC: &str = "DE:AD:BE:EF:00:11";
const TEST_DEVICE_HOSTNAME: &str = "testmachine";
const TEST_PYLON_NAME: &str = "pylonpylon";
const TEST_PORTAL_UPPER_BODY: &str = "portal-content-yeah-cake!";

fn test_config() -> SentryConfig {
    SentryConfig {
        redirect_url: String::from("http://127.0.0.1:9999/"),
        redirect_host: String::from("127.0.0.1"),
        pylon: String::from(TEST_PYLON_NAME),
        secret: String::from("S3cr3tS3cr3tABCD"),
    }
}

fn request(target: &str, headers: Vec<(&str, &str)>) -> Request {
    Request {
        method: String::from("GET"),
        target: String::from(target),
        headers: headers
            .into_iter()
            .map(|(n, v)| Header { name: String::from(n), value: String::from(v) })
            .collect(),
    }
}

#[test]
fn phase_order_passthrough_accept_handshake_redirect() {
    let cfg = test_config();
    let rh = cfg.redirect_host.as_str();

    let referer = request("/asset.css", vec![("Host", "x"), ("Referer", "http://127.0.0.1:9/p")]);
    assert_eq!(classify(&referer, rh), Phase::Passthrough);

    let with_secret = request("/?secret=abc", vec![("Host", "x")]);
    assert_eq!(classify(&with_secret, rh), Phase::Accept);

    let to_portal = request("/", vec![("Host", "127.0.0.1:9999")]);
    assert_eq!(classify(&to_portal, rh), Phase::Handshake);

    let other = request("/test?", vec![("Host", "test.test")]);
    assert_eq!(classify(&other, rh), Phase::Redirect);

    // the earliest matching phase wins
    let both = request("/?secret=abc", vec![("Host", "x"), ("Referer", "http://127.0.0.1/")]);
    assert_eq!(classify(&both, rh), Phase::Passthrough);
}

#[test]
fn redirect_carries_location_and_close() {
    let cfg = test_config();
    let req = request("/test?", vec![("Host", "test.test")]);
    assert_eq!(classify(&req, cfg.redirect_host.as_str()), Phase::Redirect);
    let resp = redirect_response(cfg.redirect_url.as_str(), &req);
    assert_eq!(resp.status, 302);
    let loc = header_value(&resp.headers, "Location").unwrap();
    assert_eq!(loc.as_str(), "http://127.0.0.1:9999/http://test.test/test?");
    assert!(loc.as_str().starts_with(cfg.redirect_url.as_str()));
    assert!(loc.as_str().ends_with("test.test/test?"));
    assert_eq!(header_value(&resp.headers, "Connection").unwrap().as_str(), "close");
}

#[test]
fn passthrough_never_carries_identity_headers() {
    let req = request(
        "/asset.css",
        vec![
            ("Host", "gateway"),
            ("Referer", "http://127.0.0.1:9999/"),
            ("X-SC-Sentry-Secret", "forged"),
            ("x-sc-sentry-connected-mac", "forged"),
            ("Accept", "text/css"),
        ],
    );
    let fwd = passthrough_request(&req);
    for h in &fwd.headers {
        assert!(!h.name.to_ascii_lowercase().starts_with("x-sc-sentry-"));
    }
    assert_eq!(fwd.headers.len(), 3);
    assert!(header_value(&fwd.headers, "X-SC-Sentry-Secret").is_none());
    assert!(header_value(&fwd.headers, "X-SC-Sentry-Connected-Mac").is_none());
    assert_eq!(header_value(&fwd.headers, "Accept").unwrap().as_str(), "text/css");
}

#[test]
fn handshake_injects_identity_headers() {
    let cfg = test_config();
    let req = request("/", vec![("Host", "127.0.0.1:9999")]);
    let fwd = handshake_request(
        &cfg,
        &req,
        TEST_DEVICE_IP,
        TEST_DEVICE_MAC,
        Some(TEST_DEVICE_HOSTNAME),
    );
    assert_eq!(fwd.target.as_str(), "/");
    assert_eq!(
        header_value(&fwd.headers, "X-SC-Sentry-Connected-Ip").unwrap().as_str(),
        TEST_DEVICE_IP
    );
    assert_eq!(
        header_value(&fwd.headers, "X-SC-Sentry-Connected-Mac").unwrap().as_str(),
        TEST_DEVICE_MAC
    );
    assert_eq!(
        header_value(&fwd.headers, "X-SC-Sentry-Connected-Hostname").unwrap().as_str(),
        TEST_DEVICE_HOSTNAME
    );
    assert_eq!(
        header_value(&fwd.headers, "X-SC-Sentry-Pylon").unwrap().as_str(),
        TEST_PYLON_NAME
    );
    assert_eq!(
        header_value(&fwd.headers, "X-SC-Sentry-Secret").unwrap().as_str(),
        cfg.secret.as_str()
    );
}

#[test]
fn handshake_without_hostname_omits_the_header() {
    let cfg = test_config();
    let req = request("/", vec![("Host", "127.0.0.1:9999")]);
    let fwd = handshake_request(&cfg, &req, TEST_DEVICE_IP, TEST_DEVICE_MAC, None);
    assert!(header_value(&fwd.headers, "X-SC-Sentry-Connected-Hostname").is_none());
    assert!(header_value(&fwd.headers, "X-SC-Sentry-Connected-Mac").is_some());
}

#[test]
fn correct_secret_grants_exactly_one_rule() {
    let cfg = test_config();
    let mac = String::from(TEST_DEVICE_MAC);
    let req = request("/?secret=S3cr3tS3cr3tABCD", vec![("Host", "127.0.0.1:9999")]);
    let now: u64 = 1_700_000_000;
    match accept_action(&cfg, &req, TEST_DEVICE_IP, Some(&mac), Some(TEST_DEVICE_HOSTNAME), now) {
        AcceptAction::Grant { rule, upstream } => {
            assert_eq!(
                rule.as_str(),
                "-m mac --mac-source DE:AD:BE:EF:00:11 -m comment --comment timestamp=1700000000 -j ACCEPT"
            );
            assert_eq!(upstream.target.as_str(), "/sentry/accept");
            assert_eq!(
                header_value(&upstream.headers, "X-SC-Sentry-Connected-Mac").unwrap().as_str(),
                TEST_DEVICE_MAC
            );
        },
        _ => panic!("expected a grant"),
    }
}

#[test]
fn wrong_secret_installs_nothing() {
    let cfg = test_config();
    let mac = String::from(TEST_DEVICE_MAC);
    let req = request("/?secret=wrongwrongwrong1", vec![("Host", "127.0.0.1:9999")]);
    match accept_action(&cfg, &req, TEST_DEVICE_IP, Some(&mac), None, 1) {
        AcceptAction::Reject(resp) => {
            assert_eq!(resp.status, 403);
            assert!(!resp.body.contains(TEST_DEVICE_MAC));
            assert!(!resp.body.contains("testmachine"));
            assert_eq!(header_value(&resp.headers, "Connection").unwrap().as_str(), "close");
        },
        _ => panic!("expected a rejection"),
    }
}

#[test]
fn unresolved_mac_is_fatal_for_the_request() {
    let cfg = test_config();
    let req = request("/?secret=S3cr3tS3cr3tABCD", vec![("Host", "127.0.0.1:9999")]);
    match accept_action(&cfg, &req, TEST_DEVICE_IP, None, None, 1) {
        AcceptAction::MacUnresolved(resp) => {
            assert_eq!(resp.status, 500);
            assert_eq!(
                resp.body.as_str(),
                "Could not get mac address for the following ip address: 127.0.0.1"
            );
        },
        _ => panic!("expected a resolution failure"),
    }
}

#[test]
fn unreachable_portal_serves_the_offline_page() {
    let resp = proxied_response(None);
    assert_eq!(resp.status, 200);
    assert_eq!(resp.body.as_str(), offline_page());
    assert_eq!(header_value(&resp.headers, "Connection").unwrap().as_str(), "close");
}

#[test]
fn reachable_portal_body_is_relayed() {
    let resp = proxied_response(Some((200, String::from("OK"), String::from("portal page"))));
    assert_eq!(resp.status, 200);
    assert_eq!(resp.reason.as_str(), "OK");
    assert_eq!(resp.body.as_str(), "portal page");
    assert_eq!(header_value(&resp.headers, "Connection").unwrap().as_str(), "close");

    let missing = proxied_response(Some((404, String::from("Not Found"), String::new())));
    assert_eq!(missing.status, 404);
    assert_eq!(missing.reason.as_str(), "Not Found");
}

#[test]
fn every_gateway_response_says_connection_close() {
    let req = request("/x", vec![("Host", "h")]);
    for resp in [
        redirect_response("http://p/", &req),
        reject_response(),
        mac_error_response("1.2.3.4"),
        proxied_response(None),
        proxied_response(Some((204, String::from("No Content"), String::new()))),
    ] {
        assert_eq!(header_value(&resp.headers, "Connection").unwrap().as_str(), "close");
    }
}

#[test]
fn full_handshake_then_accept_scenario() {
    // identity "pylonpylon", portal at http://127.0.0.1:9999/, client
    // 127.0.0.1 with MAC DE:AD:BE:EF:00:11 and hostname testmachine
    let cfg = SentryConfig::new(
        String::from(TEST_PYLON_NAME),
        Some("http://127.0.0.1:9999/"),
    )
    .unwrap();
    let mac = String::from(TEST_DEVICE_MAC);

    // first request: no secret, Host addressed to the portal
    let first = request("/", vec![("Host", "127.0.0.1:9999")]);
    assert_eq!(classify(&first, cfg.redirect_host.as_str()), Phase::Handshake);
    let fwd = handshake_request(
        &cfg,
        &first,
        TEST_DEVICE_IP,
        TEST_DEVICE_MAC,
        Some(TEST_DEVICE_HOSTNAME),
    );

    // the portal answers with a page whose last line is the secret it saw
    let seen_secret = header_value(&fwd.headers, "X-SC-Sentry-Secret").unwrap();
    let portal_body = format!("{}\n{}", TEST_PORTAL_UPPER_BODY, seen_secret);
    let reply = proxied_response(Some((200, String::from("OK"), portal_body)));
    assert_eq!(reply.body.lines().count(), 2);
    assert!(reply.body.contains(TEST_PORTAL_UPPER_BODY));
    let secret = reply.body.lines().nth(1).unwrap().to_owned();
    assert_eq!(secret.as_str(), cfg.secret.as_str());

    // follow-up with that secret: exactly one accept rule for the MAC
    let follow = request(
        &format!("/?secret={}", secret),
        vec![("Host", "127.0.0.1:9999")],
    );
    assert_eq!(classify(&follow, cfg.redirect_host.as_str()), Phase::Accept);
    let now: u64 = 1_700_000_777;
    match accept_action(&cfg, &follow, TEST_DEVICE_IP, Some(&mac), Some(TEST_DEVICE_HOSTNAME), now)
    {
        AcceptAction::Grant { rule, upstream } => {
            assert_eq!(
                rule.as_str(),
                format!(
                    "-m mac --mac-source {} -m comment --comment timestamp={} -j ACCEPT",
                    TEST_DEVICE_MAC, now
                )
            );
            assert_eq!(upstream.target.as_str(), "/sentry/accept");
            let confirmation = proxied_response(Some((200, String::from("OK"), format!(
                "{}\n{}",
                TEST_PORTAL_UPPER_BODY,
                header_value(&upstream.headers, "X-SC-Sentry-Secret").unwrap()
            ))));
            assert_eq!(confirmation.body.lines().count(), 2);
            assert!(confirmation.body.contains(TEST_PORTAL_UPPER_BODY));
        },
        _ => panic!("the correct live secret must grant"),
    }
}
