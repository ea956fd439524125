//! HTTP front: the request-head grammar the gateway accepts, parsed into a
//! request model, and the rendering of requests and responses back to text.

use vstd::prelude::*;
use crate::text::{
    all_digits, crlf_seq, dec_digits, dec_value, digit_val, find_pat, is_digit, match_at,
    parse_u64, seq_eq_ci, spec_find, starts_with, str_eq, str_eq_ci, u64_to_dec,
};

verus! {

/// A single header: a name and its value.
pub struct Header {
    pub name: String,
    pub value: String,
}

/// Mathematical view of a header: the pair of its character sequences.
pub open spec fn hview(h: Header) -> (Seq<char>, Seq<char>) {
    (h.name@, h.value@)
}

/// Mathematical view of a header list.
pub open spec fn headers_view(hs: Seq<Header>) -> Seq<(Seq<char>, Seq<char>)> {
    hs.map_values(|h: Header| hview(h))
}

/// A parsed request head: method, request target, and headers in order.
pub struct Request {
    pub method: String,
    pub target: String,
    pub headers: Vec<Header>,
}

/// Mathematical view of a request.
pub open spec fn request_view(r: Request) -> (Seq<char>, Seq<char>, Seq<(Seq<char>, Seq<char>)>) {
    (r.method@, r.target@, headers_view(r.headers@))
}

/// An optional-whitespace character around a header value.
pub open spec fn is_ows(c: char) -> bool {
    c == ' ' || c == '\t'
}

/// The sequence with trailing optional whitespace removed.
pub open spec fn trim_end_ows(s: Seq<char>) -> Seq<char>
    decreases s.len(),
{
    if s.len() > 0 && is_ows(s.last()) {
        trim_end_ows(s.drop_last())
    } else {
        s
    }
}

/// The sequence with leading optional whitespace removed.
pub open spec fn trim_start_ows(s: Seq<char>) -> Seq<char>
    decreases s.len(),
{
    if s.len() > 0 && is_ows(s[0]) {
        trim_start_ows(s.skip(1))
    } else {
        s
    }
}

/// The sequence with optional whitespace removed at both ends.
pub open spec fn trim_ows_spec(s: Seq<char>) -> Seq<char> {
    trim_start_ows(trim_end_ows(s))
}

/// A header line `name: value`: the name is everything before the first
/// colon and must be nonempty; the value is trimmed of optional whitespace.
pub open spec fn spec_parse_header_line(line: Seq<char>) -> Option<(Seq<char>, Seq<char>)> {
    let c = spec_find(line, seq![':'], 0);
    if c <= 0 {
        None
    } else {
        Some((line.take(c), trim_ows_spec(line.skip(c + 1))))
    }
}

/// The header section: header lines each ended by CRLF, closed by an empty
/// line that must end the head.
pub open spec fn spec_parse_headers(s: Seq<char>) -> Option<Seq<(Seq<char>, Seq<char>)>>
    decreases s.len(),
{
    let e = spec_find(s, crlf_seq(), 0);
    if e < 0 {
        None
    } else if e == 0 {
        if s.len() == 2 {
            Some(Seq::empty())
        } else {
            None
        }
    } else if e + 2 > s.len() {
        // unreachable: a found line ending lies within the text
        None
    } else {
        match spec_parse_header_line(s.take(e)) {
            None => None,
            Some(h) => match spec_parse_headers(s.skip(e + 2)) {
                None => None,
                Some(t) => Some(seq![h] + t),
            },
        }
    }
}

/// The version string `HTTP/1.1`.
pub open spec fn http11() -> Seq<char> {
    seq!['H', 'T', 'T', 'P', '/', '1', '.', '1']
}

/// The version string `HTTP/1.0`.
pub open spec fn http10() -> Seq<char> {
    seq!['H', 'T', 'T', 'P', '/', '1', '.', '0']
}

/// A whole request head: `method SP target SP version CRLF`, then the header
/// section. Method and target are nonempty and split at the first spaces;
/// only the two HTTP/1 versions are accepted.
pub open spec fn spec_parse_request(s: Seq<char>) -> Option<
    (Seq<char>, Seq<char>, Seq<(Seq<char>, Seq<char>)>),
> {
    let e = spec_find(s, crlf_seq(), 0);
    if e <= 0 {
        None
    } else {
        let line = s.take(e);
        let sp1 = spec_find(line, seq![' '], 0);
        if sp1 <= 0 {
            None
        } else {
            let method = line.take(sp1);
            let line2 = line.skip(sp1 + 1);
            let sp2 = spec_find(line2, seq![' '], 0);
            if sp2 <= 0 {
                None
            } else {
                let target = line2.take(sp2);
                let version = line2.skip(sp2 + 1);
                if version != http11() && version != http10() {
                    None
                } else {
                    match spec_parse_headers(s.skip(e + 2)) {
                        None => None,
                        Some(hs) => Some((method, target, hs)),
                    }
                }
            }
        }
    }
}

/// Strips optional whitespace from both ends of a header value.
pub fn trim_ows(s: &str) -> (r: String)
    ensures
        r@ == trim_ows_spec(s@),
{
    let n = s.unicode_len();
    let mut e: usize = n;
    proof {
        assert(s@.take(n as int) =~= s@);
    }
    while e > 0 && is_ows_char(s.get_char(e - 1))
        invariant
            n == s@.len(),
            0 <= e <= n,
            trim_end_ows(s@) == trim_end_ows(s@.take(e as int)),
        decreases e,
    {
        proof {
            assert(s@.take(e as int).drop_last() =~= s@.take(e - 1));
        }
        e -= 1;
    }
    proof {
        assert(trim_end_ows(s@) == s@.take(e as int));
        assert(s@.take(e as int).skip(0) =~= s@.take(e as int));
    }
    let mut a: usize = 0;
    while a < e && is_ows_char(s.get_char(a))
        invariant
            n == s@.len(),
            0 <= a <= e <= n,
            trim_end_ows(s@) == s@.take(e as int),
            trim_start_ows(s@.take(e as int)) == trim_start_ows(
                s@.take(e as int).skip(a as int),
            ),
        decreases e - a,
    {
        proof {
            assert(s@.take(e as int).skip(a as int)[0] == s@[a as int]);
            assert(s@.take(e as int).skip(a as int).skip(1) =~= s@.take(e as int).skip(
                a + 1,
            ));
        }
        a += 1;
    }
    let r = s.substring_char(a, e);
    proof {
        assert(r@ =~= s@.take(e as int).skip(a as int));
        if a < e {
            assert(s@.take(e as int).skip(a as int)[0] == s@[a as int]);
        }
    }
    String::from_str(r)
}

/// Decides whether a character is optional whitespace.
pub fn is_ows_char(c: char) -> (r: bool)
    ensures
        r == is_ows(c),
{
    c == ' ' || c == '\t'
}

/// Parses one header line.
pub fn parse_header_line(line: &str) -> (r: Option<Header>)
    ensures
        match r {
            Some(h) => spec_parse_header_line(line@) == Some(hview(h)),
            None => spec_parse_header_line(line@) is None,
        },
{
    proof {
        reveal_strlit(":");
        assert(":"@ =~= seq![':']);
    }
    let c = match find_pat(line, ":", 0) {
        Some(c) => c,
        None => {
            return None;
        },
    };
    if c == 0 {
        return None;
    }
    let ln = line.unicode_len();
    let name = line.substring_char(0, c);
    let rest = line.substring_char(c + 1, ln);
    proof {
        assert(name@ =~= line@.take(c as int));
        assert(rest@ =~= line@.skip(c + 1));
    }
    let value = trim_ows(rest);
    Some(Header { name: String::from_str(name), value })
}

/// Parses the header section.
pub fn parse_headers(s: &str) -> (r: Option<Vec<Header>>)
    ensures
        match r {
            Some(v) => spec_parse_headers(s@) == Some(headers_view(v@)),
            None => spec_parse_headers(s@) is None,
        },
    decreases s@.len(),
{
    proof {
        reveal_strlit("\r\n");
        assert("\r\n"@ =~= crlf_seq());
    }
    let n = s.unicode_len();
    let e = match find_pat(s, "\r\n", 0) {
        Some(e) => e,
        None => {
            return None;
        },
    };
    if e == 0 {
        if n == 2 {
            let v: Vec<Header> = Vec::new();
            proof {
                assert(headers_view(v@) =~= Seq::<(Seq<char>, Seq<char>)>::empty());
            }
            return Some(v);
        } else {
            return None;
        }
    }
    let line = s.substring_char(0, e);
    let rest = s.substring_char(e + 2, n);
    proof {
        assert(line@ =~= s@.take(e as int));
        assert(rest@ =~= s@.skip(e + 2));
    }
    let h = match parse_header_line(line) {
        Some(h) => h,
        None => {
            return None;
        },
    };
    let mut tail = match parse_headers(rest) {
        Some(t) => t,
        None => {
            return None;
        },
    };
    let ghost tail0 = tail@;
    tail.insert(0, h);
    proof {
        assert(headers_view(tail@) =~= seq![hview(h)] + headers_view(tail0));
    }
    Some(tail)
}

/// Parses a whole request head, the text up to and including the blank line.
pub fn parse_request(s: &str) -> (r: Option<Request>)
    ensures
        match r {
            Some(req) => spec_parse_request(s@) == Some(request_view(req)),
            None => spec_parse_request(s@) is None,
        },
{
    proof {
        reveal_strlit("\r\n");
        assert("\r\n"@ =~= crlf_seq());
        reveal_strlit(" ");
        assert(" "@ =~= seq![' ']);
    }
    let n = s.unicode_len();
    let e = match find_pat(s, "\r\n", 0) {
        Some(e) => e,
        None => {
            return None;
        },
    };
    if e == 0 {
        return None;
    }
    let line = s.substring_char(0, e);
    let rest = s.substring_char(e + 2, n);
    proof {
        assert(line@ =~= s@.take(e as int));
        assert(rest@ =~= s@.skip(e + 2));
    }
    let sp1 = match find_pat(line, " ", 0) {
        Some(k) => k,
        None => {
            return None;
        },
    };
    if sp1 == 0 {
        return None;
    }
    let method = line.substring_char(0, sp1);
    let line2 = line.substring_char(sp1 + 1, line.unicode_len());
    proof {
        assert(method@ =~= line@.take(sp1 as int));
        assert(line2@ =~= line@.skip(sp1 + 1));
    }
    let sp2 = match find_pat(line2, " ", 0) {
        Some(k) => k,
        None => {
            return None;
        },
    };
    if sp2 == 0 {
        return None;
    }
    let target = line2.substring_char(0, sp2);
    let version = line2.substring_char(sp2 + 1, line2.unicode_len());
    proof {
        assert(target@ =~= line2@.take(sp2 as int));
        assert(version@ =~= line2@.skip(sp2 + 1));
        reveal_strlit("HTTP/1.1");
        assert("HTTP/1.1"@ =~= http11());
        reveal_strlit("HTTP/1.0");
        assert("HTTP/1.0"@ =~= http10());
    }
    if !(str_eq(version, "HTTP/1.1") || str_eq(version, "HTTP/1.0")) {
        return None;
    }
    let headers = match parse_headers(rest) {
        Some(hs) => hs,
        None => {
            return None;
        },
    };
    Some(Request { method: String::from_str(method), target: String::from_str(target), headers })
}

/// The blank line separating a message head from its body.
pub open spec fn dcrlf_seq() -> Seq<char> {
    seq!['\r', '\n', '\r', '\n']
}

/// A three-digit sequence is at most 999.
proof fn lemma_three_digits_bounded(s: Seq<char>)
    requires
        s.len() == 3,
        all_digits(s),
    ensures
        dec_value(s) <= 999,
{
    let s2 = s.drop_last();
    let s1 = s2.drop_last();
    assert(s1.drop_last() =~= Seq::<char>::empty());
    assert(dec_value(Seq::<char>::empty()) == 0);
    assert(s.last() == s[2] && is_digit(s[2]));
    assert(s2.last() == s[1] && is_digit(s[1]));
    assert(s1.last() == s[0] && is_digit(s[0]));
    assert(digit_val(s[2]) <= 9 && digit_val(s[1]) <= 9 && digit_val(s[0]) <= 9);
    assert(dec_value(s1) == digit_val(s[0]));
    assert(dec_value(s2) == dec_value(s1) * 10 + digit_val(s[1]));
    assert(dec_value(s) == dec_value(s2) * 10 + digit_val(s[2]));
}

/// A whole response text: `version SP code SP reason CRLF`, the header
/// section up to the first blank line, then the raw body. Only the two
/// HTTP/1 versions and three-digit status codes are accepted.
pub open spec fn spec_parse_response(s: Seq<char>) -> Option<
    (nat, Seq<char>, Seq<(Seq<char>, Seq<char>)>, Seq<char>),
> {
    let f = spec_find(s, dcrlf_seq(), 0);
    if f < 0 {
        None
    } else if f + 4 > s.len() {
        // unreachable: a found blank line lies within the text
        None
    } else {
        let e = spec_find(s, crlf_seq(), 0);
        if e <= 0 {
            None
        } else if e + 2 > f + 4 {
            // unreachable: the first line ending is no later than the blank line
            None
        } else {
            let line = s.take(e);
            let sp1 = spec_find(line, seq![' '], 0);
            if sp1 <= 0 {
                None
            } else {
                let version = line.take(sp1);
                let line2 = line.skip(sp1 + 1);
                let sp2 = spec_find(line2, seq![' '], 0);
                if version != http11() && version != http10() {
                    None
                } else if sp2 <= 0 {
                    None
                } else {
                    let code = line2.take(sp2);
                    let reason = line2.skip(sp2 + 1);
                    if !(code.len() == 3 && all_digits(code)) {
                        None
                    } else {
                        match spec_parse_headers(s.subrange(e + 2, f + 4)) {
                            None => None,
                            Some(hs) => Some((dec_value(code), reason, hs, s.skip(f + 4))),
                        }
                    }
                }
            }
        }
    }
}

/// Parses a whole upstream response, body included.
pub fn parse_response(s: &str) -> (r: Option<Response>)
    ensures
        match r {
            Some(resp) => spec_parse_response(s@) == Some(
                (resp.status as nat, resp.reason@, headers_view(resp.headers@), resp.body@),
            ),
            None => spec_parse_response(s@) is None,
        },
{
    proof {
        reveal_strlit("\r\n\r\n");
        assert("\r\n\r\n"@ =~= dcrlf_seq());
        reveal_strlit("\r\n");
        assert("\r\n"@ =~= crlf_seq());
        reveal_strlit(" ");
        assert(" "@ =~= seq![' ']);
    }
    let n = s.unicode_len();
    let f = match find_pat(s, "\r\n\r\n", 0) {
        Some(f) => f,
        None => {
            return None;
        },
    };
    proof {
        assert(s@.subrange(f as int, f + 2) =~= s@.subrange(f as int, f + 4).subrange(0, 2));
        assert(s@.subrange(f as int, f + 2) =~= crlf_seq());
        assert(match_at(s@, crlf_seq(), f as int));
    }
    let e = match find_pat(s, "\r\n", 0) {
        Some(e) => e,
        None => {
            return None;
        },
    };
    if e == 0 {
        return None;
    }
    proof {
        assert(e <= f);
    }
    let line = s.substring_char(0, e);
    proof {
        assert(line@ =~= s@.take(e as int));
    }
    let sp1 = match find_pat(line, " ", 0) {
        Some(k) => k,
        None => {
            return None;
        },
    };
    if sp1 == 0 {
        return None;
    }
    let version = line.substring_char(0, sp1);
    let line2 = line.substring_char(sp1 + 1, line.unicode_len());
    proof {
        assert(version@ =~= line@.take(sp1 as int));
        assert(line2@ =~= line@.skip(sp1 + 1));
        reveal_strlit("HTTP/1.1");
        assert("HTTP/1.1"@ =~= http11());
        reveal_strlit("HTTP/1.0");
        assert("HTTP/1.0"@ =~= http10());
    }
    if !(str_eq(version, "HTTP/1.1") || str_eq(version, "HTTP/1.0")) {
        return None;
    }
    let sp2 = match find_pat(line2, " ", 0) {
        Some(k) => k,
        None => {
            return None;
        },
    };
    if sp2 == 0 {
        return None;
    }
    let code = line2.substring_char(0, sp2);
    let reason = line2.substring_char(sp2 + 1, line2.unicode_len());
    proof {
        assert(code@ =~= line2@.take(sp2 as int));
        assert(reason@ =~= line2@.skip(sp2 + 1));
    }
    if code.unicode_len() != 3 {
        return None;
    }
    let status = match parse_u64(code) {
        Some(v) => v,
        None => {
            proof {
                if all_digits(code@) {
                    lemma_three_digits_bounded(code@);
                }
            }
            return None;
        },
    };
    proof {
        lemma_three_digits_bounded(code@);
    }
    let head = s.substring_char(e + 2, f + 4);
    let body = s.substring_char(f + 4, n);
    proof {
        assert(head@ =~= s@.subrange(e + 2, f + 4));
        assert(body@ =~= s@.skip(f + 4));
    }
    let headers = match parse_headers(head) {
        Some(hs) => hs,
        None => {
            return None;
        },
    };
    Some(
        Response {
            status: status as u16,
            reason: String::from_str(reason),
            headers,
            body: String::from_str(body),
        },
    )
}

/// A response: status code and reason, headers in order, and a body.
pub struct Response {
    pub status: u16,
    pub reason: String,
    pub headers: Vec<Header>,
    pub body: String,
}

/// Rendering of one header line.
pub open spec fn render_header(h: (Seq<char>, Seq<char>)) -> Seq<char> {
    h.0 + seq![':', ' '] + h.1 + crlf_seq()
}

/// Rendering of a header list, in order.
pub open spec fn render_headers(hs: Seq<(Seq<char>, Seq<char>)>) -> Seq<char>
    decreases hs.len(),
{
    if hs.len() == 0 {
        Seq::empty()
    } else {
        render_header(hs[0]) + render_headers(hs.skip(1))
    }
}

/// Rendering of a whole response.
pub open spec fn render_response(r: Response) -> Seq<char> {
    "HTTP/1.1 "@ + dec_digits(r.status as nat) + seq![' '] + r.reason@ + crlf_seq()
        + render_headers(headers_view(r.headers@)) + crlf_seq() + r.body@
}

/// Rendering of a whole request head (requests are forwarded without a body).
pub open spec fn render_request(m: (Seq<char>, Seq<char>, Seq<(Seq<char>, Seq<char>)>)) -> Seq<
    char,
> {
    m.0 + seq![' '] + m.1 + seq![' '] + http11() + crlf_seq() + render_headers(m.2) + crlf_seq()
}

/// Rendering a list with one more header appends that header's line.
pub proof fn lemma_render_headers_push(hs: Seq<(Seq<char>, Seq<char>)>, h: (Seq<char>, Seq<char>))
    ensures
        render_headers(hs.push(h)) == render_headers(hs) + render_header(h),
    decreases hs.len(),
{
    if hs.len() == 0 {
        assert(hs.push(h).skip(1) =~= Seq::<(Seq<char>, Seq<char>)>::empty());
        assert(hs.push(h)[0] == h);
        assert(render_headers(Seq::<(Seq<char>, Seq<char>)>::empty())
            =~= Seq::<char>::empty());
        assert(render_headers(hs.push(h)) =~= render_headers(hs) + render_header(h));
    } else {
        lemma_render_headers_push(hs.skip(1), h);
        assert(hs.push(h).skip(1) =~= hs.skip(1).push(h));
        assert(hs.push(h)[0] == hs[0]);
        assert(render_header(hs[0]) + (render_headers(hs.skip(1)) + render_header(h)) =~= (
        render_header(hs[0]) + render_headers(hs.skip(1))) + render_header(h));
        assert(render_headers(hs.push(h)) =~= render_headers(hs) + render_header(h));
    }
}

/// Appends the rendering of a header list to a string.
fn append_headers(out: &mut String, headers: &Vec<Header>)
    ensures
        final(out)@ == old(out)@ + render_headers(headers_view(headers@)),
{
    let ghost base = out@;
    let mut i: usize = 0;
    proof {
        assert(headers_view(headers@).take(0) =~= Seq::<(Seq<char>, Seq<char>)>::empty());
        assert(out@ =~= base + render_headers(headers_view(headers@).take(0)));
    }
    while i < headers.len()
        invariant
            0 <= i <= headers.len(),
            out@ == base + render_headers(headers_view(headers@).take(i as int)),
        decreases headers.len() - i,
    {
        let h = &headers[i];
        out.append(h.name.as_str());
        out.append(": ");
        out.append(h.value.as_str());
        out.append("\r\n");
        proof {
            reveal_strlit(": ");
            reveal_strlit("\r\n");
            let hv = headers_view(headers@);
            lemma_render_headers_push(hv.take(i as int), hv[i as int]);
            assert(hv.take(i + 1) =~= hv.take(i as int).push(hv[i as int]));
            assert(": "@ =~= seq![':', ' ']);
            assert("\r\n"@ =~= crlf_seq());
            assert(out@ =~= base + render_headers(hv.take(i + 1)));
        }
        i += 1;
    }
    proof {
        assert(headers_view(headers@).take(headers@.len() as int) =~= headers_view(headers@));
    }
}

/// Renders a response to the text sent back to the client.
pub fn serialize_response(r: &Response) -> (out: String)
    ensures
        out@ == render_response(*r),
{
    let mut out = String::from_str("HTTP/1.1 ");
    let status = u64_to_dec(r.status as u64);
    out.append(status.as_str());
    out.append(" ");
    out.append(r.reason.as_str());
    out.append("\r\n");
    append_headers(&mut out, &r.headers);
    out.append("\r\n");
    out.append(r.body.as_str());
    proof {
        reveal_strlit(" ");
        reveal_strlit("\r\n");
        assert(" "@ =~= seq![' ']);
        assert("\r\n"@ =~= crlf_seq());
        assert(out@ =~= render_response(*r));
    }
    out
}

/// Renders a request head to the text sent upstream.
pub fn serialize_request(r: &Request) -> (out: String)
    ensures
        out@ == render_request(request_view(*r)),
{
    let mut out = String::new();
    out.append(r.method.as_str());
    out.append(" ");
    out.append(r.target.as_str());
    out.append(" HTTP/1.1\r\n");
    append_headers(&mut out, &r.headers);
    out.append("\r\n");
    proof {
        reveal_strlit(" ");
        reveal_strlit(" HTTP/1.1\r\n");
        reveal_strlit("\r\n");
        assert(" "@ =~= seq![' ']);
        assert("\r\n"@ =~= crlf_seq());
        assert(" HTTP/1.1\r\n"@ =~= seq![' '] + http11() + crlf_seq());
        assert(out@ =~= render_request(request_view(*r)));
    }
    out
}

/// Value of the first header whose name matches, comparing names without
/// regard to ASCII case.
pub open spec fn spec_header_lookup(hs: Seq<(Seq<char>, Seq<char>)>, name: Seq<char>) -> Option<
    Seq<char>,
>
    decreases hs.len(),
{
    if hs.len() == 0 {
        None
    } else if seq_eq_ci(hs[0].0, name) {
        Some(hs[0].1)
    } else {
        spec_header_lookup(hs.skip(1), name)
    }
}

/// Looks a header up by name, without regard to ASCII case.
pub fn header_value(headers: &Vec<Header>, name: &str) -> (r: Option<String>)
    ensures
        match r {
            Some(v) => spec_header_lookup(headers_view(headers@), name@) == Some(v@),
            None => spec_header_lookup(headers_view(headers@), name@) is None,
        },
{
    let ghost hv = headers_view(headers@);
    let mut i: usize = 0;
    proof {
        assert(hv.skip(0) =~= hv);
    }
    while i < headers.len()
        invariant
            0 <= i <= headers.len(),
            hv == headers_view(headers@),
            spec_header_lookup(hv, name@) == spec_header_lookup(hv.skip(i as int), name@),
        decreases headers.len() - i,
    {
        let h = &headers[i];
        proof {
            assert(hv.skip(i as int)[0] == hv[i as int]);
        }
        if str_eq_ci(h.name.as_str(), name) {
            return Some(h.value.clone());
        }
        proof {
            assert(hv.skip(i as int).skip(1) =~= hv.skip(i + 1));
        }
        i += 1;
    }
    proof {
        assert(hv.skip(headers@.len() as int) =~= Seq::<(Seq<char>, Seq<char>)>::empty());
    }
    None
}

/// The query component of a request target: what follows the first `?`, or
/// empty when there is none.
pub open spec fn spec_query_of_target(t: Seq<char>) -> Seq<char> {
    let q = spec_find(t, seq!['?'], 0);
    if q < 0 {
        t.skip(t.len() as int)
    } else {
        t.skip(q + 1)
    }
}

/// Value of a query parameter in a `name=value&...` query, if present.
pub open spec fn spec_param(q: Seq<char>, name: Seq<char>) -> Option<Seq<char>>
    decreases q.len(),
{
    let e = spec_find(q, seq!['&'], 0);
    let item = if e < 0 {
        q
    } else {
        q.take(e)
    };
    if item.len() > name.len() && item.take(name.len() as int) == name && item[name.len() as int]
        == '=' {
        Some(item.skip(name.len() + 1 as int))
    } else if e < 0 {
        None
    } else if e + 1 > q.len() {
        // unreachable: a found separator lies within the text
        None
    } else {
        spec_param(q.skip(e + 1), name)
    }
}

/// Looks a parameter up in a query string.
fn param_lookup(q: &str, name: &str) -> (r: Option<String>)
    ensures
        match r {
            Some(v) => spec_param(q@, name@) == Some(v@),
            None => spec_param(q@, name@) is None,
        },
    decreases q@.len(),
{
    proof {
        reveal_strlit("&");
        assert("&"@ =~= seq!['&']);
    }
    let n = q.unicode_len();
    let e = find_pat(q, "&", 0);
    let item_end: usize = match e {
        Some(k) => k,
        None => n,
    };
    let item = q.substring_char(0, item_end);
    proof {
        match e {
            Some(k) => {
                assert(item@ =~= q@.take(k as int));
            },
            None => {
                assert(item@ =~= q@);
            },
        }
    }
    let nl = name.unicode_len();
    let il = item.unicode_len();
    if il > nl && starts_with(item, name) && item.get_char(nl) == '=' {
        let v = item.substring_char(nl + 1, il);
        proof {
            assert(item@.take(nl as int) =~= item@.subrange(0, nl as int));
            assert(v@ =~= item@.skip(nl + 1));
        }
        return Some(String::from_str(v));
    }
    proof {
        assert(!(item@.len() > name@.len() && item@.take(name@.len() as int) == name@
            && item@[name@.len() as int] == '='));
    }
    match e {
        Some(k) => {
            let rest = q.substring_char(k + 1, n);
            proof {
                assert(rest@ =~= q@.skip(k + 1));
            }
            param_lookup(rest, name)
        },
        None => None,
    }
}

/// Value of a query parameter of the request target, if present.
pub fn get_query_param(target: &str, name: &str) -> (r: Option<String>)
    ensures
        match r {
            Some(v) => spec_param(spec_query_of_target(target@), name@) == Some(v@),
            None => spec_param(spec_query_of_target(target@), name@) is None,
        },
{
    proof {
        reveal_strlit("?");
        assert("?"@ =~= seq!['?']);
    }
    let n = target.unicode_len();
    match find_pat(target, "?", 0) {
        Some(k) => {
            let qs = target.substring_char(k + 1, n);
            proof {
                assert(qs@ =~= target@.skip(k + 1));
            }
            param_lookup(qs, name)
        },
        None => {
            proof {
                assert(spec_query_of_target(target@) =~= Seq::<char>::empty());
                assert(spec_param(Seq::<char>::empty(), name@) is None);
            }
            None
        },
    }
}

} // verus!
