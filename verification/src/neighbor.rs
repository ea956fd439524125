//! Identity resolver: the client IP is mapped to a MAC address through the
//! kernel neighbor table's text, and optionally to a hostname through the
//! DHCP lease records.

use vstd::prelude::*;
use crate::text::{find_pat, seq_eq_ci, spec_find, str_eq, str_eq_ci};

verus! {

/// The ` lladdr ` marker that precedes the link-layer address in a neighbor
/// table line.
pub open spec fn lladdr_marker() -> Seq<char> {
    seq![' ', 'l', 'l', 'a', 'd', 'd', 'r', ' ']
}

/// Number of leading characters of the sequence before a space.
pub open spec fn leading_nonspace(s: Seq<char>) -> int
    decreases s.len(),
{
    if s.len() > 0 && s[0] != ' ' {
        1 + leading_nonspace(s.skip(1))
    } else {
        0
    }
}

/// The MAC address a single neighbor table line gives for `ip`: the line
/// must begin with the IP as its first token and hold a ` lladdr ` marker;
/// the address is the token after the first marker. A line without a
/// link-layer address resolves nothing.
pub open spec fn spec_line_mac(line: Seq<char>, ip: Seq<char>) -> Option<Seq<char>> {
    if !(line.len() > ip.len() && line.take(ip.len() as int) == ip && line[ip.len() as int]
        == ' ') {
        None
    } else {
        let p = spec_find(line, lladdr_marker(), 0);
        if p < 0 {
            None
        } else {
            let rest = line.skip(p + 8);
            let k = leading_nonspace(rest);
            if k == 0 {
                None
            } else {
                Some(rest.take(k))
            }
        }
    }
}

/// The MAC address the whole neighbor table text gives for `ip`: the first
/// line that resolves one.
pub open spec fn spec_resolve_mac(out: Seq<char>, ip: Seq<char>) -> Option<Seq<char>>
    decreases out.len(),
{
    let e = spec_find(out, seq!['\n'], 0);
    let line = if e < 0 {
        out
    } else {
        out.take(e)
    };
    match spec_line_mac(line, ip) {
        Some(m) => Some(m),
        None => if e < 0 {
            None
        } else if e + 1 > out.len() {
            // unreachable: a found line break lies within the text
            None
        } else {
            spec_resolve_mac(out.skip(e + 1), ip)
        },
    }
}

/// The leading non-space run is space-free and ends at a space or the end.
proof fn lemma_leading_nonspace(s: Seq<char>)
    ensures
        0 <= leading_nonspace(s) <= s.len(),
        forall|j: int| 0 <= j < leading_nonspace(s) ==> #[trigger] s[j] != ' ',
        leading_nonspace(s) < s.len() ==> s[leading_nonspace(s)] == ' ',
    decreases s.len(),
{
    if s.len() > 0 && s[0] != ' ' {
        lemma_leading_nonspace(s.skip(1));
        assert forall|j: int| 1 <= j < leading_nonspace(s) implies #[trigger] s[j] != ' ' by {
            assert(s.skip(1)[j - 1] == s[j]);
            assert(s.skip(1)[j - 1] != ' ');
        }
        if leading_nonspace(s) < s.len() {
            assert(s.skip(1)[leading_nonspace(s) - 1] == s[leading_nonspace(s)]);
        }
    }
}

/// Resolves `ip` against one neighbor table line.
fn line_mac(line: &str, ip: &str) -> (r: Option<String>)
    ensures
        match r {
            Some(m) => spec_line_mac(line@, ip@) == Some(m@),
            None => spec_line_mac(line@, ip@) is None,
        },
{
    let n = line.unicode_len();
    let ipl = ip.unicode_len();
    if !(n > ipl && crate::text::starts_with(line, ip) && line.get_char(ipl) == ' ') {
        return None;
    }
    proof {
        reveal_strlit(" lladdr ");
        assert(" lladdr "@ =~= lladdr_marker());
    }
    let p = match find_pat(line, " lladdr ", 0) {
        Some(p) => p,
        None => {
            return None;
        },
    };
    let start = p + 8;
    let mut e: usize = start;
    while e < n && line.get_char(e) != ' '
        invariant
            n == line@.len(),
            start <= e <= n,
            forall|j: int| start <= j < e ==> #[trigger] line@[j] != ' ',
        decreases n - e,
    {
        e += 1;
    }
    proof {
        let rest = line@.skip(start as int);
        lemma_leading_nonspace(rest);
        assert(forall|j: int| 0 <= j < e - start ==> rest[j] == #[trigger] line@[j + start]);
        if leading_nonspace(rest) < e - start {
            assert(rest[leading_nonspace(rest)] != ' ');
        }
        if leading_nonspace(rest) > e - start {
            assert(e < n);
            assert(rest[e - start] != ' ');
        }
        assert(leading_nonspace(rest) == e - start);
    }
    if e == start {
        return None;
    }
    let mac = line.substring_char(start, e);
    proof {
        assert(mac@ =~= line@.skip(start as int).take(e - start));
    }
    Some(String::from_str(mac))
}

/// Resolves the MAC address for a client IP from the neighbor table's text.
/// Returns `None` when no populated entry for the IP exists: a fatal
/// condition for the request being handled, decided by the caller.
pub fn resolve_mac(table: &str, ip: &str) -> (r: Option<String>)
    ensures
        match r {
            Some(m) => spec_resolve_mac(table@, ip@) == Some(m@),
            None => spec_resolve_mac(table@, ip@) is None,
        },
    decreases table@.len(),
{
    proof {
        reveal_strlit("\n");
        assert("\n"@ =~= seq!['\n']);
    }
    let n = table.unicode_len();
    let e = find_pat(table, "\n", 0);
    let line_end: usize = match e {
        Some(k) => k,
        None => n,
    };
    let line = table.substring_char(0, line_end);
    proof {
        match e {
            Some(k) => {
                assert(line@ =~= table@.take(k as int));
            },
            None => {
                assert(line@ =~= table@);
            },
        }
    }
    match line_mac(line, ip) {
        Some(m) => Some(m),
        None => {
            match e {
                Some(k) => {
                    let rest = table.substring_char(k + 1, n);
                    proof {
                        assert(rest@ =~= table@.skip(k + 1));
                    }
                    resolve_mac(rest, ip)
                },
                None => None,
            }
        },
    }
}

/// One DHCP lease record, as the lease oracle reports it. The remaining
/// validity may be negative for an expired lease.
pub struct Lease {
    pub mac: String,
    pub ip: String,
    pub hostname: String,
    pub valid: i64,
}

/// Mathematical view of a lease record: the remaining validity is left out
/// on purpose, since matching never consults it — an expired lease still
/// names its host.
pub open spec fn lease_view(l: Lease) -> (Seq<char>, Seq<char>, Seq<char>) {
    (l.mac@, l.ip@, l.hostname@)
}

/// Mathematical view of a lease list.
pub open spec fn leases_view(ls: Seq<Lease>) -> Seq<(Seq<char>, Seq<char>, Seq<char>)> {
    ls.map_values(|l: Lease| lease_view(l))
}

/// A lease record is for the client: its IP matches exactly, or its MAC
/// matches without regard to ASCII case. Expired leases still match; lease
/// expiry is about addressing, not authorization.
pub open spec fn lease_matches(l: (Seq<char>, Seq<char>, Seq<char>), ip: Seq<char>, mac: Seq<char>) -> bool {
    l.1 == ip || seq_eq_ci(l.0, mac)
}

/// The hostname of the first lease record matching the client, if any.
pub open spec fn spec_resolve_hostname(
    ls: Seq<(Seq<char>, Seq<char>, Seq<char>)>,
    ip: Seq<char>,
    mac: Seq<char>,
) -> Option<Seq<char>>
    decreases ls.len(),
{
    if ls.len() == 0 {
        None
    } else if lease_matches(ls[0], ip, mac) {
        Some(ls[0].2)
    } else {
        spec_resolve_hostname(ls.skip(1), ip, mac)
    }
}

/// Resolves the client's hostname from the lease records. Absence of a match
/// is not an error: the hostname is optional downstream.
pub fn resolve_hostname(leases: &Vec<Lease>, ip: &str, mac: &str) -> (r: Option<String>)
    ensures
        match r {
            Some(h) => spec_resolve_hostname(leases_view(leases@), ip@, mac@) == Some(h@),
            None => spec_resolve_hostname(leases_view(leases@), ip@, mac@) is None,
        },
{
    let ghost lv = leases_view(leases@);
    let mut i: usize = 0;
    proof {
        assert(lv.skip(0) =~= lv);
    }
    while i < leases.len()
        invariant
            0 <= i <= leases.len(),
            lv == leases_view(leases@),
            spec_resolve_hostname(lv, ip@, mac@) == spec_resolve_hostname(
                lv.skip(i as int),
                ip@,
                mac@,
            ),
        decreases leases.len() - i,
    {
        let l = &leases[i];
        proof {
            assert(lv.skip(i as int)[0] == lv[i as int]);
        }
        if str_eq(l.ip.as_str(), ip) || str_eq_ci(l.mac.as_str(), mac) {
            return Some(l.hostname.clone());
        }
        proof {
            assert(lv.skip(i as int).skip(1) =~= lv.skip(i + 1));
        }
        i += 1;
    }
    proof {
        assert(lv.skip(leases@.len() as int) =~= Seq::<(Seq<char>, Seq<char>, Seq<char>)>::empty());
    }
    None
}

} // verus!
