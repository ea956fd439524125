//! Phase classifier and per-request decision engine: which of the four
//! phases a request falls in, the exact response or upstream request each
//! phase produces, and the identity-header discipline.

use vstd::prelude::*;
use crate::config::SentryConfig;
use crate::firewall::spec_grant_rule;
use crate::firewall::grant_rule;
use crate::http::{
    get_query_param, header_value, headers_view, spec_header_lookup, spec_param,
    spec_query_of_target, Header, Request, Response,
};
use crate::text::{seq_eq_ci, str_eq, str_eq_ci};
use crate::url::{
    get_redirect_host, host_part, host_range, is_host_of, lemma_host_range_unique, strip_port,
    valid_redirect_url,
};

verus! {

/// Header carrying the client's IP to the portal.
pub open spec fn hdr_ip() -> Seq<char> {
    "X-SC-Sentry-Connected-Ip"@
}

/// Header carrying the client's MAC to the portal.
pub open spec fn hdr_mac() -> Seq<char> {
    "X-SC-Sentry-Connected-Mac"@
}

/// Header carrying the client's hostname to the portal, when resolved.
pub open spec fn hdr_hostname() -> Seq<char> {
    "X-SC-Sentry-Connected-Hostname"@
}

/// Header carrying the gateway's identity to the portal.
pub open spec fn hdr_pylon() -> Seq<char> {
    "X-SC-Sentry-Pylon"@
}

/// Header carrying the live session secret to the portal.
pub open spec fn hdr_secret() -> Seq<char> {
    "X-SC-Sentry-Secret"@
}

/// The name is one of the identity-injection headers, in any ASCII case.
pub open spec fn is_injection_name(n: Seq<char>) -> bool {
    ||| seq_eq_ci(n, hdr_ip())
    ||| seq_eq_ci(n, hdr_mac())
    ||| seq_eq_ci(n, hdr_hostname())
    ||| seq_eq_ci(n, hdr_pylon())
    ||| seq_eq_ci(n, hdr_secret())
}

/// Decides whether a header name is an identity-injection name.
pub fn injection_name(n: &str) -> (r: bool)
    ensures
        r == is_injection_name(n@),
{
    str_eq_ci(n, "X-SC-Sentry-Connected-Ip") || str_eq_ci(n, "X-SC-Sentry-Connected-Mac")
        || str_eq_ci(n, "X-SC-Sentry-Connected-Hostname") || str_eq_ci(n, "X-SC-Sentry-Pylon")
        || str_eq_ci(n, "X-SC-Sentry-Secret")
}

/// The header list with every identity-injection header removed, order kept.
pub open spec fn strip_injection(hs: Seq<(Seq<char>, Seq<char>)>) -> Seq<(Seq<char>, Seq<char>)>
    decreases hs.len(),
{
    if hs.len() == 0 {
        Seq::empty()
    } else if is_injection_name(hs[0].0) {
        strip_injection(hs.skip(1))
    } else {
        seq![hs[0]] + strip_injection(hs.skip(1))
    }
}

/// Nothing stripped of injection headers holds one: every element of the
/// stripped list is an element of the input whose name is no injection name.
pub proof fn lemma_strip_injection_clean(hs: Seq<(Seq<char>, Seq<char>)>)
    ensures
        forall|k: int|
            0 <= k < strip_injection(hs).len() ==> !is_injection_name(
                #[trigger] strip_injection(hs)[k].0,
            ) && hs.contains(strip_injection(hs)[k]),
    decreases hs.len(),
{
    if hs.len() > 0 {
        lemma_strip_injection_clean(hs.skip(1));
        let st = strip_injection(hs);
        let stt = strip_injection(hs.skip(1));
        assert(forall|j: int|
            0 <= j < stt.len() ==> !is_injection_name(#[trigger] stt[j].0) && hs.skip(
                1,
            ).contains(stt[j]));
        assert forall|k: int|
            0 <= k < st.len() implies !is_injection_name(#[trigger] st[k].0) && hs.contains(
            st[k],
        ) by {
            if is_injection_name(hs[0].0) {
                assert(st[k] == stt[k]);
                assert(!is_injection_name(stt[k].0) && hs.skip(1).contains(stt[k]));
                let m = choose|m: int| 0 <= m < hs.skip(1).len() && hs.skip(1)[m] == stt[k];
                assert(hs[m + 1] == hs.skip(1)[m]);
            } else if k == 0 {
                assert(st[0] == hs[0]);
            } else {
                assert(st =~= seq![hs[0]] + stt);
                assert(st.len() == 1 + stt.len());
                assert(0 <= k - 1 < stt.len());
                assert(st[k] == stt[k - 1]);
                assert(!is_injection_name(stt[k - 1].0) && hs.skip(1).contains(stt[k - 1]));
                let m = choose|m: int|
                    0 <= m < hs.skip(1).len() && hs.skip(1)[m] == stt[k - 1];
                assert(hs[m + 1] == hs.skip(1)[m]);
            }
        }
    }
}

/// Removes every identity-injection header, keeping the rest in order.
pub fn strip_injection_headers(headers: &Vec<Header>) -> (out: Vec<Header>)
    ensures
        headers_view(out@) == strip_injection(headers_view(headers@)),
{
    let ghost hv = headers_view(headers@);
    let mut out: Vec<Header> = Vec::new();
    let mut i: usize = 0;
    proof {
        assert(hv.skip(0) =~= hv);
        assert(headers_view(out@) + strip_injection(hv.skip(0)) =~= strip_injection(hv));
    }
    while i < headers.len()
        invariant
            0 <= i <= headers.len(),
            hv == headers_view(headers@),
            hv.len() == headers.len(),
            headers_view(out@) + strip_injection(hv.skip(i as int)) == strip_injection(hv),
        decreases headers.len() - i,
    {
        let ghost out0 = headers_view(out@);
        proof {
            assert(hv.skip(i as int)[0] == hv[i as int]);
            assert(hv.skip(i as int).skip(1) =~= hv.skip(i + 1));
            assert(hv[i as int] == crate::http::hview(headers@[i as int]));
        }
        let h = &headers[i];
        if !injection_name(h.name.as_str()) {
            out.push(Header { name: h.name.clone(), value: h.value.clone() });
            proof {
                assert(headers_view(out@) =~= out0.push(hv[i as int]));
                assert(out0.push(hv[i as int]) + strip_injection(hv.skip(i + 1)) =~= out0 + (seq![
                    hv[i as int],
                ] + strip_injection(hv.skip(i + 1))));
            }
        }
        i += 1;
    }
    proof {
        assert(hv.skip(headers@.len() as int) =~= Seq::<(Seq<char>, Seq<char>)>::empty());
        assert(headers_view(out@) + Seq::<(Seq<char>, Seq<char>)>::empty() =~= headers_view(
            out@,
        ));
    }
    out
}

/// The request's `Referer` names a valid URL whose host is the redirect
/// host: the request fetches an asset of the portal page.
pub open spec fn spec_referer_matches(
    hv: Seq<(Seq<char>, Seq<char>)>,
    redirect_host: Seq<char>,
) -> bool {
    match spec_header_lookup(hv, "Referer"@) {
        Some(r) => valid_redirect_url(r) && is_host_of(r, redirect_host),
        None => false,
    }
}

/// The request carries a `secret` query parameter.
pub open spec fn spec_has_secret(target: Seq<char>) -> bool {
    spec_param(spec_query_of_target(target), "secret"@) is Some
}

/// The request's `Host` header, less any port, equals the redirect host: the
/// client is addressing the portal through the gateway.
pub open spec fn spec_host_matches(
    hv: Seq<(Seq<char>, Seq<char>)>,
    redirect_host: Seq<char>,
) -> bool {
    match spec_header_lookup(hv, "Host"@) {
        Some(h) => host_part(h) == redirect_host,
        None => false,
    }
}

/// The four request phases, in classification order.
#[derive(Clone, Copy, Debug, PartialEq, Eq, Structural)]
pub enum Phase {
    /// Portal-originated asset fetch: proxy without identity injection.
    Passthrough,
    /// Secret callback: verify the secret and install a grant.
    Accept,
    /// Portal handshake: proxy with identity injection.
    Handshake,
    /// Anything else: redirect the client to the portal.
    Redirect,
}

/// The phase of a request: passthrough before accept before handshake
/// before the default redirect; the earliest matching phase wins.
pub open spec fn spec_phase(
    hv: Seq<(Seq<char>, Seq<char>)>,
    target: Seq<char>,
    redirect_host: Seq<char>,
) -> Phase {
    if spec_referer_matches(hv, redirect_host) {
        Phase::Passthrough
    } else if spec_has_secret(target) {
        Phase::Accept
    } else if spec_host_matches(hv, redirect_host) {
        Phase::Handshake
    } else {
        Phase::Redirect
    }
}

/// Classifies a request against the redirect host.
pub fn classify(req: &Request, redirect_host: &str) -> (p: Phase)
    ensures
        p == spec_phase(headers_view(req.headers@), req.target@, redirect_host@),
{
    let ghost hv = headers_view(req.headers@);
    let referer_matches = match header_value(&req.headers, "Referer") {
        Some(r) => {
            match get_redirect_host(r.as_str()) {
                Some(h) => {
                    let eq = str_eq(h.as_str(), redirect_host);
                    proof {
                        if !eq && is_host_of(r@, redirect_host@) {
                            let (a1, b1) = choose|a1: int, b1: int|
                                #[trigger] host_range(r@, a1, b1) && h@ == r@.subrange(a1, b1);
                            let (a2, b2) = choose|a2: int, b2: int|
                                #[trigger] host_range(r@, a2, b2) && redirect_host@ == r@.subrange(
                                    a2,
                                    b2,
                                );
                            lemma_host_range_unique(r@, a1, b1, a2, b2);
                        }
                    }
                    eq
                },
                None => false,
            }
        },
        None => false,
    };
    if referer_matches {
        return Phase::Passthrough;
    }
    if get_query_param(req.target.as_str(), "secret").is_some() {
        return Phase::Accept;
    }
    let host_matches = match header_value(&req.headers, "Host") {
        Some(h) => {
            let hp = strip_port(h.as_str());
            str_eq(hp.as_str(), redirect_host)
        },
        None => false,
    };
    if host_matches {
        return Phase::Handshake;
    }
    Phase::Redirect
}

/// The origin the redirect embeds: the client's intended destination,
/// rebuilt from its `Host` header (empty when absent) and request target.
pub open spec fn spec_origin(hv: Seq<(Seq<char>, Seq<char>)>, target: Seq<char>) -> Seq<char> {
    "http://"@ + (match spec_header_lookup(hv, "Host"@) {
        Some(h) => h,
        None => Seq::empty(),
    }) + target
}

/// The headers every gateway-built response carries after its own: exactly
/// `Connection: close`.
pub open spec fn close_only_headers() -> Seq<(Seq<char>, Seq<char>)> {
    seq![("Connection"@, "close"@)]
}

/// The response says `Connection: close`.
pub open spec fn says_close(r: Response) -> bool {
    spec_header_lookup(headers_view(r.headers@), "Connection"@) == Some("close"@)
}

/// Builds the default-phase response: a 302 whose `Location` is the
/// redirect URL with the client's intended origin appended, closing the
/// connection.
pub fn redirect_response(redirect_url: &str, req: &Request) -> (r: Response)
    ensures
        r.status == 302,
        r.reason@ == "Found"@,
        r.body@ == Seq::<char>::empty(),
        headers_view(r.headers@) == seq![
            ("Location"@, redirect_url@ + spec_origin(headers_view(req.headers@), req.target@)),
            ("Connection"@, "close"@),
        ],
        says_close(r),
{
    let host = match header_value(&req.headers, "Host") {
        Some(h) => h,
        None => String::new(),
    };
    let mut loc = String::from_str(redirect_url);
    loc.append("http://");
    loc.append(host.as_str());
    loc.append(req.target.as_str());
    let mut headers: Vec<Header> = Vec::new();
    headers.push(Header { name: String::from_str("Location"), value: loc });
    headers.push(Header { name: String::from_str("Connection"), value: String::from_str("close") });
    let r = Response {
        status: 302,
        reason: String::from_str("Found"),
        headers,
        body: String::new(),
    };
    proof {
        assert(r.headers@.len() == 2);
        assert(r.headers@[0].value@ =~= redirect_url@ + spec_origin(
            headers_view(req.headers@),
            req.target@,
        ));
        assert(headers_view(r.headers@) =~~= seq![
            ("Location"@, redirect_url@ + spec_origin(headers_view(req.headers@), req.target@)),
            ("Connection"@, "close"@),
        ]);
        lemma_location_not_connection();
        lemma_close_lookup_two("Location"@, redirect_url@ + spec_origin(
            headers_view(req.headers@),
            req.target@,
        ));
    }
    r
}

/// Looking `Connection` up in `[(other, v), (Connection, close)]` yields
/// `close`, provided the other name is not `Connection` in any case.
proof fn lemma_close_lookup_two(n: Seq<char>, v: Seq<char>)
    requires
        !seq_eq_ci(n, "Connection"@),
    ensures
        spec_header_lookup(seq![(n, v), ("Connection"@, "close"@)], "Connection"@) == Some(
            "close"@,
        ),
{
    let hs = seq![(n, v), ("Connection"@, "close"@)];
    assert(hs.skip(1) =~= seq![("Connection"@, "close"@)]);
    assert(seq_eq_ci("Connection"@, "Connection"@));
    assert(spec_header_lookup(hs.skip(1), "Connection"@) == Some("close"@));
}

/// Looking `Connection` up in `[(Connection, close)]` yields `close`.
proof fn lemma_close_lookup_one()
    ensures
        spec_header_lookup(close_only_headers(), "Connection"@) == Some("close"@),
{
    assert(seq_eq_ci("Connection"@, "Connection"@));
}

/// `Location` is not `Connection`, in any ASCII case.
proof fn lemma_location_not_connection()
    ensures
        !seq_eq_ci("Location"@, "Connection"@),
{
    reveal_strlit("Location");
    reveal_strlit("Connection");
    assert("Location"@.len() != "Connection"@.len());
}

/// The identity headers injected for the portal, in order: client IP and
/// MAC, the hostname when resolved, the gateway identity, and the live
/// secret.
pub open spec fn injected_headers(
    ip: Seq<char>,
    mac: Seq<char>,
    hostname: Option<Seq<char>>,
    pylon: Seq<char>,
    secret: Seq<char>,
) -> Seq<(Seq<char>, Seq<char>)> {
    seq![(hdr_ip(), ip), (hdr_mac(), mac)] + (match hostname {
        Some(h) => seq![(hdr_hostname(), h)],
        None => Seq::empty(),
    }) + seq![(hdr_pylon(), pylon), (hdr_secret(), secret)]
}

/// View of an optional hostname argument.
pub open spec fn hostname_view(hostname: Option<&str>) -> Option<Seq<char>> {
    match hostname {
        Some(h) => Some(h@),
        None => None,
    }
}

/// Builds the handshake request proxied to the portal: the client's request
/// with any client-supplied injection headers removed and the gateway's
/// identity headers appended.
pub fn handshake_request(
    cfg: &SentryConfig,
    req: &Request,
    ip: &str,
    mac: &str,
    hostname: Option<&str>,
) -> (out: Request)
    ensures
        out.method@ == req.method@,
        out.target@ == req.target@,
        headers_view(out.headers@) == strip_injection(headers_view(req.headers@))
            + injected_headers(ip@, mac@, hostname_view(hostname), cfg.pylon@, cfg.secret@),
{
    let mut headers = strip_injection_headers(&req.headers);
    let ghost base = headers_view(headers@);
    headers.push(
        Header { name: String::from_str("X-SC-Sentry-Connected-Ip"), value: String::from_str(ip) },
    );
    headers.push(
        Header {
            name: String::from_str("X-SC-Sentry-Connected-Mac"),
            value: String::from_str(mac),
        },
    );
    match hostname {
        Some(h) => {
            headers.push(
                Header {
                    name: String::from_str("X-SC-Sentry-Connected-Hostname"),
                    value: String::from_str(h),
                },
            );
        },
        None => {},
    }
    headers.push(
        Header { name: String::from_str("X-SC-Sentry-Pylon"), value: cfg.pylon.clone() },
    );
    headers.push(
        Header { name: String::from_str("X-SC-Sentry-Secret"), value: cfg.secret.clone() },
    );
    let out = Request {
        method: req.method.clone(),
        target: req.target.clone(),
        headers,
    };
    proof {
        assert(headers_view(out.headers@) =~= base + injected_headers(
            ip@,
            mac@,
            hostname_view(hostname),
            cfg.pylon@,
            cfg.secret@,
        ));
    }
    out
}

/// Builds the passthrough request proxied to the portal for a
/// portal-originated asset fetch: the client's request with any injection
/// headers removed and nothing added.
pub fn passthrough_request(req: &Request) -> (out: Request)
    ensures
        out.method@ == req.method@,
        out.target@ == req.target@,
        headers_view(out.headers@) == strip_injection(headers_view(req.headers@)),
{
    let headers = strip_injection_headers(&req.headers);
    Request { method: req.method.clone(), target: req.target.clone(), headers }
}

/// The portal's acceptance confirmation path.
pub fn accept_path() -> (r: &'static str)
    ensures
        r@ == "/sentry/accept"@,
{
    "/sentry/accept"
}

/// The fixed rejection sent on a secret mismatch: it discloses nothing of
/// the client's identity or of the reason.
pub open spec fn is_reject_response(r: Response) -> bool {
    &&& r.status == 403
    &&& r.reason@ == "Forbidden"@
    &&& headers_view(r.headers@) == close_only_headers()
    &&& r.body@ == "Forbidden"@
}

/// Builds the rejection response.
pub fn reject_response() -> (r: Response)
    ensures
        is_reject_response(r),
        says_close(r),
{
    let mut headers: Vec<Header> = Vec::new();
    headers.push(Header { name: String::from_str("Connection"), value: String::from_str("close") });
    let r = Response {
        status: 403,
        reason: String::from_str("Forbidden"),
        headers,
        body: String::from_str("Forbidden"),
    };
    proof {
        assert(headers_view(r.headers@) =~= close_only_headers());
        lemma_close_lookup_one();
    }
    r
}

/// The error sent when the client's MAC cannot be resolved: fatal for the
/// request, not for the gateway.
pub open spec fn is_mac_error_response(r: Response, ip: Seq<char>) -> bool {
    &&& r.status == 500
    &&& r.reason@ == "Internal Server Error"@
    &&& headers_view(r.headers@) == close_only_headers()
    &&& r.body@ == "Could not get mac address for the following ip address: "@ + ip
}

/// Builds the MAC-resolution error response.
pub fn mac_error_response(ip: &str) -> (r: Response)
    ensures
        is_mac_error_response(r, ip@),
        says_close(r),
{
    let mut headers: Vec<Header> = Vec::new();
    headers.push(Header { name: String::from_str("Connection"), value: String::from_str("close") });
    let mut body = String::from_str("Could not get mac address for the following ip address: ");
    body.append(ip);
    let r = Response {
        status: 500,
        reason: String::from_str("Internal Server Error"),
        headers,
        body,
    };
    proof {
        assert(headers_view(r.headers@) =~= close_only_headers());
        lemma_close_lookup_one();
    }
    r
}

/// The bundled page served when the portal is unreachable.
pub open spec fn spec_offline_page() -> Seq<char> {
    "<!DOCTYPE html>\n<html>\n<head><title>Network unavailable</title></head>\n<body>\n<h1>The portal is currently unreachable.</h1>\n<p>Please try again in a few minutes.</p>\n</body>\n</html>\n"@
}

/// The bundled offline page, served verbatim.
pub fn offline_page() -> (r: &'static str)
    ensures
        r@ == spec_offline_page(),
{
    "<!DOCTYPE html>\n<html>\n<head><title>Network unavailable</title></head>\n<body>\n<h1>The portal is currently unreachable.</h1>\n<p>Please try again in a few minutes.</p>\n</body>\n</html>\n"
}

/// Builds the client-facing response of a proxied exchange: the upstream
/// status, reason and body when the portal answered, and a 200 carrying the
/// bundled offline page byte for byte when it did not. Transport failures
/// never surface to the client.
pub fn proxied_response(upstream: Option<(u16, String, String)>) -> (r: Response)
    ensures
        match upstream {
            Some(up) => r.status == up.0 && r.reason@ == up.1@ && r.body@ == up.2@,
            None => r.status == 200 && r.reason@ == "OK"@ && r.body@ == spec_offline_page(),
        },
        headers_view(r.headers@) == close_only_headers(),
        says_close(r),
{
    let mut headers: Vec<Header> = Vec::new();
    headers.push(Header { name: String::from_str("Connection"), value: String::from_str("close") });
    let (status, reason, body) = match upstream {
        Some(up) => up,
        None => (200, String::from_str("OK"), String::from_str(offline_page())),
    };
    let r = Response { status, reason, headers, body };
    proof {
        assert(headers_view(r.headers@) =~= close_only_headers());
        lemma_close_lookup_one();
    }
    r
}

/// What the accept phase decides: a resolution failure, a rejection, or a
/// grant carrying exactly one rule to install and the confirmation request
/// to proxy.
pub enum AcceptAction {
    /// The client's MAC could not be resolved: protocol violation, answered
    /// with an error.
    MacUnresolved(Response),
    /// The supplied secret does not match the live one: no rule installed.
    Reject(Response),
    /// The secret matches: install the rule, then proxy the confirmation.
    Grant { rule: String, upstream: Request },
}

/// Decides the accept phase for a request carrying a `secret` parameter.
/// A grant is issued exactly when the MAC is resolved and the supplied
/// secret equals the live one, and it installs exactly the one rule for
/// that MAC stamped with the current time.
pub fn accept_action(
    cfg: &SentryConfig,
    req: &Request,
    ip: &str,
    mac: Option<&String>,
    hostname: Option<&str>,
    now: u64,
) -> (a: AcceptAction)
    requires
        spec_has_secret(req.target@),
    ensures
        match mac {
            None => a matches AcceptAction::MacUnresolved(r) && is_mac_error_response(r, ip@)
                && says_close(r),
            Some(m) => {
                if spec_param(spec_query_of_target(req.target@), "secret"@) == Some(
                    cfg.secret@,
                ) {
                    a matches AcceptAction::Grant { rule, upstream }
                        && rule@ == spec_grant_rule(m@, now as nat)
                        && upstream.method@ == req.method@
                        && upstream.target@ == "/sentry/accept"@
                        && headers_view(upstream.headers@) == strip_injection(
                        headers_view(req.headers@),
                    ) + injected_headers(
                        ip@,
                        m@,
                        hostname_view(hostname),
                        cfg.pylon@,
                        cfg.secret@,
                    )
                } else {
                    a matches AcceptAction::Reject(r) && is_reject_response(r) && says_close(r)
                }
            },
        },
{
    let m = match mac {
        Some(m) => m,
        None => {
            return AcceptAction::MacUnresolved(mac_error_response(ip));
        },
    };
    let supplied = match get_query_param(req.target.as_str(), "secret") {
        Some(s) => s,
        None => {
            proof {
                assert(false);
            }
            return AcceptAction::Reject(reject_response());
        },
    };
    if crate::secret::secret_matches(supplied.as_str(), cfg.secret.as_str()) {
        let mut upstream = handshake_request(cfg, req, ip, m.as_str(), hostname);
        upstream.target = String::from_str(accept_path());
        AcceptAction::Grant { rule: grant_rule(m.as_str(), now), upstream }
    } else {
        AcceptAction::Reject(reject_response())
    }
}

/// For any request whose `Referer` host equals the redirect host, the phase
/// is passthrough, and the proxied header list holds no identity-injection
/// header: each of its elements is a non-injection header of the client's
/// own request.
pub proof fn lemma_passthrough_free_of_identity(
    hv: Seq<(Seq<char>, Seq<char>)>,
    target: Seq<char>,
    redirect_host: Seq<char>,
)
    requires
        spec_referer_matches(hv, redirect_host),
    ensures
        spec_phase(hv, target, redirect_host) == Phase::Passthrough,
        forall|k: int|
            0 <= k < strip_injection(hv).len() ==> !is_injection_name(
                #[trigger] strip_injection(hv)[k].0,
            ) && hv.contains(strip_injection(hv)[k]),
{
    lemma_strip_injection_clean(hv);
}

/// For any request without a portal-matching `Referer`, without a `secret`
/// parameter, and whose `Host` is not the redirect host, the phase is the
/// default redirect.
pub proof fn lemma_default_phase_redirects(
    hv: Seq<(Seq<char>, Seq<char>)>,
    target: Seq<char>,
    redirect_host: Seq<char>,
)
    requires
        !spec_referer_matches(hv, redirect_host),
        !spec_has_secret(target),
        !spec_host_matches(hv, redirect_host),
    ensures
        spec_phase(hv, target, redirect_host) == Phase::Redirect,
{
}

/// The redirect `Location` begins with the configured redirect URL and ends
/// with the client's original host and target.
pub proof fn lemma_redirect_location_shape(
    u: Seq<char>,
    hv: Seq<(Seq<char>, Seq<char>)>,
    target: Seq<char>,
)
    ensures
        ({
            let loc = u + spec_origin(hv, target);
            &&& loc.subrange(0, u.len() as int) == u
            &&& loc.skip(u.len() + "http://"@.len() as int) == (match spec_header_lookup(hv, "Host"@) {
                Some(h) => h,
                None => Seq::<char>::empty(),
            }) + target
            &&& loc.len() >= target.len() && loc.skip(loc.len() - target.len()) == target
        }),
{
    let host = match spec_header_lookup(hv, "Host"@) {
        Some(h) => h,
        None => Seq::<char>::empty(),
    };
    let loc = u + spec_origin(hv, target);
    assert(loc.subrange(0, u.len() as int) =~= u);
    assert(loc.skip(u.len() + "http://"@.len() as int) =~= host + target);
    assert(loc.skip(loc.len() - target.len()) =~= target);
}

} // verus!
