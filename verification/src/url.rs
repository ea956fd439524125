//! URL handling for the redirect target: validity of a configured portal URL
//! and extraction of its host component.

use vstd::prelude::*;
use crate::text::{
    dec_value, find_char, find_sub, is_digit_char, leading_digits, lemma_leading_digits,
    match_at, parse_u64,
};

verus! {

/// The scheme separator `://`.
pub open spec fn scheme_sep() -> Seq<char> {
    seq![':', '/', '/']
}

/// The scheme separator occurs at position `i`, and nowhere earlier.
pub open spec fn first_sep_at(s: Seq<char>, i: int) -> bool {
    &&& match_at(s, scheme_sep(), i)
    &&& forall|j: int| 0 <= j < i ==> !match_at(s, scheme_sep(), j)
}

/// A character that ends the host component of a URL.
pub open spec fn is_host_end(c: char) -> bool {
    c == ':' || c == '/' || c == '?' || c == '#'
}

/// `a .. b` is the host range of `s`: right after the first scheme separator,
/// up to the first port, path, query or fragment delimiter.
pub open spec fn host_range(s: Seq<char>, a: int, b: int) -> bool {
    &&& first_sep_at(s, a - 3)
    &&& a <= b <= s.len()
    &&& forall|j: int| a <= j < b ==> !is_host_end(#[trigger] s[j])
    &&& b == s.len() || is_host_end(s[b])
}

/// `h` is the host component of `s`.
pub open spec fn is_host_of(s: Seq<char>, h: Seq<char>) -> bool {
    exists|a: int, b: int| #[trigger] host_range(s, a, b) && h == s.subrange(a, b)
}

/// The string is usable as a redirect target: a nonempty scheme, the
/// separator, and a nonempty host.
pub open spec fn valid_redirect_url(s: Seq<char>) -> bool {
    exists|a: int, b: int| #[trigger] host_range(s, a, b) && a - 3 >= 1 && b - a >= 1
}

/// Decides whether a character ends the host component.
pub fn host_end_char(c: char) -> (r: bool)
    ensures
        r == is_host_end(c),
{
    c == ':' || c == '/' || c == '?' || c == '#'
}

/// Extracts the host component of a URL: the characters after the first
/// `://`, up to the first `:`, `/`, `?` or `#`. Fails on a string without a
/// separator, without a scheme, or with an empty host.
pub fn get_redirect_host(url: &str) -> (r: Option<String>)
    ensures
        match r {
            Some(h) => valid_redirect_url(url@) && is_host_of(url@, h@),
            None => !valid_redirect_url(url@),
        },
{
    proof {
        reveal_strlit("://");
        assert("://"@ =~= scheme_sep());
    }
    let sep = match find_sub(url, "://", 0) {
        Some(p) => p,
        None => {
            proof {
                if valid_redirect_url(url@) {
                    let (a, b) = choose|a: int, b: int|
                        #[trigger] host_range(url@, a, b) && a - 3 >= 1 && b - a >= 1;
                    assert(match_at(url@, scheme_sep(), a - 3));
                }
            }
            return None;
        },
    };
    let n = url.unicode_len();
    let start = sep + 3;
    let mut b: usize = start;
    while b < n && !host_end_char(url.get_char(b))
        invariant
            n == url@.len(),
            start <= b <= n,
            start == sep + 3,
            sep + 3 <= n,
            forall|j: int| start <= j < b ==> !is_host_end(#[trigger] url@[j]),
        decreases n - b,
    {
        b += 1;
    }
    proof {
        assert(host_range(url@, start as int, b as int));
    }
    if sep == 0 || b == start {
        proof {
            if valid_redirect_url(url@) {
                let (a2, b2) = choose|a2: int, b2: int|
                    #[trigger] host_range(url@, a2, b2) && a2 - 3 >= 1 && b2 - a2 >= 1;
                assert(match_at(url@, scheme_sep(), a2 - 3));
                lemma_host_range_unique(url@, start as int, b as int, a2, b2);
            }
        }
        return None;
    }
    let h = url.substring_char(start, b);
    proof {
        assert(valid_redirect_url(url@));
    }
    Some(String::from_str(h))
}

/// The host range of a string is unique.
pub proof fn lemma_host_range_unique(s: Seq<char>, a1: int, b1: int, a2: int, b2: int)
    requires
        host_range(s, a1, b1),
        host_range(s, a2, b2),
    ensures
        a1 == a2,
        b1 == b2,
{
    assert(match_at(s, scheme_sep(), a1 - 3));
    assert(match_at(s, scheme_sep(), a2 - 3));
    if a1 < a2 {
        assert(!match_at(s, scheme_sep(), a1 - 3));
    }
    if a2 < a1 {
        assert(!match_at(s, scheme_sep(), a2 - 3));
    }
    if b1 < b2 {
        assert(is_host_end(s[b1]));
        assert(!is_host_end(s[b1]));
    }
    if b2 < b1 {
        assert(is_host_end(s[b2]));
        assert(!is_host_end(s[b2]));
    }
}

/// The port a URL names explicitly: the digit run after a `:` that follows
/// the host, when there is one.
pub open spec fn spec_url_port(s: Seq<char>) -> Option<nat> {
    if exists|a: int, b: int| #[trigger] host_range(s, a, b) && b < s.len() && s[b] == ':' {
        let (a, b) = choose|a: int, b: int|
            #[trigger] host_range(s, a, b) && b < s.len() && s[b] == ':';
        let d = leading_digits(s.skip(b + 1));
        if d == 0 {
            None
        } else {
            Some(dec_value(s.skip(b + 1).take(d)))
        }
    } else {
        None
    }
}

/// Reads the explicit port of a URL: `None` when the URL names none, names
/// an empty one, or names one that does not fit a port number.
pub fn get_url_port(url: &str) -> (r: Option<u16>)
    ensures
        match r {
            Some(p) => spec_url_port(url@) == Some(p as nat),
            None => spec_url_port(url@) is None || (spec_url_port(url@) matches Some(v) && v
                > u16::MAX),
        },
{
    proof {
        reveal_strlit("://");
        assert("://"@ =~= scheme_sep());
    }
    let sep = match find_sub(url, "://", 0) {
        Some(p) => p,
        None => {
            proof {
                if exists|a: int, b: int|
                    #[trigger] host_range(url@, a, b) && b < url@.len() && url@[b] == ':' {
                    let (a, b) = choose|a: int, b: int|
                        #[trigger] host_range(url@, a, b) && b < url@.len() && url@[b] == ':';
                    assert(match_at(url@, scheme_sep(), a - 3));
                }
            }
            return None;
        },
    };
    let n = url.unicode_len();
    let start = sep + 3;
    let mut b: usize = start;
    while b < n && !host_end_char(url.get_char(b))
        invariant
            n == url@.len(),
            start <= b <= n,
            start == sep + 3,
            sep + 3 <= n,
            forall|j: int| start <= j < b ==> !is_host_end(#[trigger] url@[j]),
        decreases n - b,
    {
        b += 1;
    }
    proof {
        assert(host_range(url@, start as int, b as int));
    }
    if b == n || url.get_char(b) != ':' {
        proof {
            if exists|a2: int, b2: int|
                #[trigger] host_range(url@, a2, b2) && b2 < url@.len() && url@[b2] == ':' {
                let (a2, b2) = choose|a2: int, b2: int|
                    #[trigger] host_range(url@, a2, b2) && b2 < url@.len() && url@[b2] == ':';
                lemma_host_range_unique(url@, start as int, b as int, a2, b2);
            }
        }
        return None;
    }
    let pstart = b + 1;
    let mut e: usize = pstart;
    while e < n && is_digit_char(url.get_char(e))
        invariant
            n == url@.len(),
            pstart <= e <= n,
            forall|j: int| pstart <= j < e ==> crate::text::is_digit(#[trigger] url@[j]),
        decreases n - e,
    {
        e += 1;
    }
    proof {
        let rest = url@.skip(pstart as int);
        lemma_leading_digits(rest);
        assert(forall|j: int| 0 <= j < e - pstart ==> rest[j] == #[trigger] url@[j + pstart]);
        if leading_digits(rest) < e - pstart {
            assert(crate::text::is_digit(rest[leading_digits(rest)]));
        }
        if leading_digits(rest) > e - pstart {
            assert(e < n);
            assert(!crate::text::is_digit(rest[e - pstart]));
        }
        assert(leading_digits(rest) == e - pstart);
        let (a2, b2) = choose|a2: int, b2: int|
            #[trigger] host_range(url@, a2, b2) && b2 < url@.len() && url@[b2] == ':';
        lemma_host_range_unique(url@, start as int, b as int, a2, b2);
    }
    if e == pstart {
        return None;
    }
    let digits = url.substring_char(pstart, e);
    proof {
        assert(digits@ =~= url@.skip(pstart as int).take(e - pstart));
    }
    match parse_u64(digits) {
        Some(v) => {
            if v <= 65535 {
                Some(v as u16)
            } else {
                None
            }
        },
        None => {
            proof {
                assert(forall|j: int|
                    0 <= j < digits@.len() ==> crate::text::is_digit(#[trigger] digits@[j]));
            }
            None
        },
    }
}

/// The host part of a `Host` header value: everything before the first `:`,
/// or the whole value when no port is given.
pub open spec fn host_part(s: Seq<char>) -> Seq<char> {
    if exists|i: int| 0 <= i < s.len() && s[i] == ':' {
        s.take(choose|i: int|
            0 <= i < s.len() && s[i] == ':' && (forall|j: int| 0 <= j < i ==> s[j] != ':'))
    } else {
        s
    }
}

/// Strips an optional `:port` suffix from a `Host` header value.
pub fn strip_port(host: &str) -> (r: String)
    ensures
        r@ == host_part(host@),
{
    match find_char(host, ':', 0) {
        Some(i) => {
            let h = host.substring_char(0, i);
            proof {
                let w = choose|w: int|
                    0 <= w < host@.len() && host@[w] == ':' && (forall|j: int|
                        0 <= j < w ==> host@[j] != ':');
                assert(w == i as int);
                assert(h@ =~= host_part(host@));
            }
            String::from_str(h)
        },
        None => String::from_str(host),
    }
}

} // verus!
