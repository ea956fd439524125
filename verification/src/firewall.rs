//! Access grant engine: building the packet-filter accept rule for a client,
//! and selecting the stale rules a sweep must remove.

use vstd::prelude::*;
use crate::text::{
    dec_digits, dec_value, find_pat, is_digit, is_digit_char, leading_digits,
    lemma_leading_digits, lemma_spec_find, match_at, parse_u64, spec_find, starts_with,
    u64_to_dec,
};

verus! {

/// Packet-filter table holding the gateway's rules.
pub const IPT_TABLE: &'static str = "nat";

/// Chain holding the gateway's accept rules.
pub const IPT_CHAIN: &'static str = "prerouting_public_rule";

/// The comment key marking a rule as this engine's, `timestamp=`.
pub open spec fn timestamp_key() -> Seq<char> {
    seq!['t', 'i', 'm', 'e', 's', 't', 'a', 'm', 'p', '=']
}

/// The issuance timestamp encoded in a rule's comment: the digit run after
/// the first `timestamp=`, if there is one.
pub open spec fn spec_rule_timestamp(r: Seq<char>) -> Option<nat> {
    let p = spec_find(r, timestamp_key(), 0);
    if p < 0 {
        None
    } else {
        let rest = r.skip(p + 10);
        let k = leading_digits(rest);
        if k == 0 {
            None
        } else {
            Some(dec_value(rest.take(k)))
        }
    }
}

/// A rule is stale: it carries a timestamp comment whose age exceeds the
/// validity window. Rules without a parseable timestamp are never stale.
pub open spec fn is_stale(r: Seq<char>, now: nat, window: nat) -> bool {
    match spec_rule_timestamp(r) {
        Some(t) => t + window < now,
        None => false,
    }
}

/// Reads the issuance timestamp out of a listed rule. Returns the value only
/// when it fits a `u64`; a larger encoded value cannot be stale for any
/// reachable clock, so callers treat it like a fresh rule.
pub fn rule_timestamp(r: &str) -> (t: Option<u64>)
    ensures
        match t {
            Some(v) => spec_rule_timestamp(r@) == Some(v as nat),
            None => spec_rule_timestamp(r@) is None || (spec_rule_timestamp(r@) matches Some(w)
                && w > u64::MAX),
        },
{
    proof {
        reveal_strlit("timestamp=");
        assert("timestamp="@ =~= timestamp_key());
    }
    let n = r.unicode_len();
    let p = match find_pat(r, "timestamp=", 0) {
        Some(p) => p,
        None => {
            return None;
        },
    };
    let start = p + 10;
    let mut e: usize = start;
    while e < n && is_digit_char(r.get_char(e))
        invariant
            n == r@.len(),
            start <= e <= n,
            forall|j: int| start <= j < e ==> is_digit(#[trigger] r@[j]),
        decreases n - e,
    {
        e += 1;
    }
    proof {
        let rest = r@.skip(start as int);
        lemma_leading_digits(rest);
        assert(forall|j: int| 0 <= j < e - start ==> rest[j] == #[trigger] r@[j + start]);
        if leading_digits(rest) < e - start {
            assert(is_digit(rest[leading_digits(rest)]));
        }
        if leading_digits(rest) > e - start {
            assert(e < n);
            assert(!is_digit(rest[e - start]));
        }
        assert(leading_digits(rest) == e - start);
    }
    if e == start {
        return None;
    }
    let digits = r.substring_char(start, e);
    proof {
        assert(digits@ =~= r@.skip(start as int).take(e - start));
    }
    parse_u64(digits)
}

/// Decides staleness of one listed rule against the clock and the window.
pub fn rule_is_stale(r: &str, now: u64, window: u64) -> (b: bool)
    ensures
        b == is_stale(r@, now as nat, window as nat),
{
    match rule_timestamp(r) {
        Some(t) => {
            if now > window {
                t < now - window
            } else {
                false
            }
        },
        None => false,
    }
}

/// The rule body appended on a grant: match on the client's MAC, carry the
/// issuance timestamp as a comment, accept.
pub open spec fn spec_grant_rule(mac: Seq<char>, now: nat) -> Seq<char> {
    "-m mac --mac-source "@ + mac + " -m comment --comment timestamp="@ + dec_digits(now)
        + " -j ACCEPT"@
}

/// Builds the accept-rule body installed for a granted MAC address.
pub fn grant_rule(mac: &str, now: u64) -> (r: String)
    ensures
        r@ == spec_grant_rule(mac@, now as nat),
{
    let mut out = String::from_str("-m mac --mac-source ");
    out.append(mac);
    out.append(" -m comment --comment timestamp=");
    let ts = u64_to_dec(now);
    out.append(ts.as_str());
    out.append(" -j ACCEPT");
    proof {
        assert(out@ =~= spec_grant_rule(mac@, now as nat));
    }
    out
}

/// A rule granted at some time carries exactly that issuance timestamp for
/// the sweep to read back, whatever the MAC address and the clock — so a
/// grant becomes stale exactly when its own timestamp ages past the window.
/// A MAC address never holds `=`, which keeps the comment key unambiguous.
pub proof fn lemma_grant_rule_round_trip(mac: Seq<char>, now: nat)
    requires
        forall|i: int| 0 <= i < mac.len() ==> mac[i] != '=',
    ensures
        spec_rule_timestamp(spec_grant_rule(mac, now)) == Some(now),
{
    reveal_strlit("-m mac --mac-source ");
    reveal_strlit(" -m comment --comment timestamp=");
    reveal_strlit(" -j ACCEPT");
    let a = "-m mac --mac-source "@;
    let b = " -m comment --comment timestamp="@;
    let c = " -j ACCEPT"@;
    let d = dec_digits(now);
    let r = spec_grant_rule(mac, now);
    let bl = mac.len() as int;
    crate::text::lemma_dec_digits_digits(now);
    assert(a.len() == 20);
    assert(b.len() == 32);
    assert(c.len() == 10);
    assert(r.len() == 62 + bl + d.len());
    assert forall|i: int| 0 <= i < 20 implies r[i] == #[trigger] a[i] by {}
    assert forall|i: int| 0 <= i < bl implies r[20 + i] == #[trigger] mac[i] by {}
    assert forall|i: int| 0 <= i < 32 implies r[20 + bl + i] == #[trigger] b[i] by {}
    assert forall|i: int| 0 <= i < d.len() implies r[52 + bl + i] == #[trigger] d[i] by {}
    assert forall|i: int| 0 <= i < 10 implies r[52 + bl + d.len() + i] == #[trigger] c[i] by {}
    let p0 = 42 + bl;
    assert(match_at(r, timestamp_key(), p0)) by {
        assert forall|t: int|
            0 <= t < 10 implies #[trigger] r.subrange(p0, p0 + 10)[t] == timestamp_key()[t] by {
            assert(r.subrange(p0, p0 + 10)[t] == r[p0 + t]);
            assert(r[20 + bl + (22 + t)] == b[22 + t]);
        }
        assert(r.subrange(p0, p0 + 10) =~= timestamp_key());
    }
    assert forall|q: int| 0 <= q < p0 implies !match_at(r, timestamp_key(), q) by {
        if match_at(r, timestamp_key(), q) {
            assert(r.subrange(q, q + 10)[9] == r[q + 9]);
            assert(timestamp_key()[9] == '=');
            assert(r[q + 9] == '=');
            let e2 = q + 9;
            if e2 < 20 {
                assert(r[e2] == a[e2]);
                assert(a[e2] != '=');
            } else if e2 < 20 + bl {
                assert(r[20 + (e2 - 20)] == mac[e2 - 20]);
                assert(mac[e2 - 20] != '=');
            } else {
                assert(e2 < 51 + bl);
                assert(r[20 + bl + (e2 - 20 - bl)] == b[e2 - 20 - bl]);
                assert(0 <= e2 - 20 - bl < 31);
                assert(b[e2 - 20 - bl] != '=');
            }
        }
    }
    lemma_spec_find(r, timestamp_key(), 0);
    let k = spec_find(r, timestamp_key(), 0);
    if k == -1 {
        assert(match_at(r, timestamp_key(), p0));
        assert(false);
    }
    if 0 <= k < p0 {
        assert(!match_at(r, timestamp_key(), k));
        assert(false);
    }
    if k > p0 {
        assert(!match_at(r, timestamp_key(), p0));
        assert(false);
    }
    assert(k == p0);
    let rest = r.skip(p0 + 10);
    assert(rest =~= d + c) by {
        assert forall|i: int| 0 <= i < rest.len() implies rest[i] == #[trigger] (d + c)[i] by {
            assert(rest[i] == r[p0 + 10 + i]);
            if i < d.len() {
                assert(r[52 + bl + i] == d[i]);
            } else {
                assert(r[52 + bl + d.len() + (i - d.len())] == c[i - d.len()]);
            }
        }
    }
    lemma_leading_digits(rest);
    assert(c[0] == ' ');
    assert(rest[d.len() as int] == (d + c)[d.len() as int]);
    assert(rest[d.len() as int] == ' ');
    let ld = leading_digits(rest);
    if ld < d.len() {
        assert(rest[ld] == d[ld]);
        assert(is_digit(d[ld]));
        assert(!is_digit(rest[ld]));
        assert(false);
    }
    if ld > d.len() {
        assert(is_digit(rest[d.len() as int]));
        assert(false);
    }
    assert(ld == d.len());
    assert(rest.take(ld) =~= d);
    crate::text::lemma_dec_digits_value(now);
}

/// The granted rule carries the client's MAC address verbatim as its match
/// criterion, right after the source-match words.
pub proof fn lemma_grant_rule_mentions_mac(mac: Seq<char>, now: nat)
    ensures
        ({
            let r = spec_grant_rule(mac, now);
            let p = "-m mac --mac-source "@.len() as int;
            r.subrange(p, p + mac.len()) == mac
        }),
{
    reveal_strlit("-m mac --mac-source ");
    let r = spec_grant_rule(mac, now);
    let p = "-m mac --mac-source "@.len() as int;
    assert(r.subrange(p, p + mac.len()) =~= mac);
}

/// A grant becomes stale exactly when its issuance time has aged past the
/// validity window.
pub proof fn lemma_grant_stale_after_window(mac: Seq<char>, t: nat, now: nat, window: nat)
    requires
        forall|i: int| 0 <= i < mac.len() ==> mac[i] != '=',
    ensures
        is_stale(spec_grant_rule(mac, t), now, window) == (t + window < now),
{
    lemma_grant_rule_round_trip(mac, t);
}

/// The rules of the input, in order, that are stale.
pub open spec fn spec_sweep(rules: Seq<Seq<char>>, now: nat, window: nat) -> Seq<Seq<char>>
    decreases rules.len(),
{
    if rules.len() == 0 {
        Seq::empty()
    } else if is_stale(rules[0], now, window) {
        seq![rules[0]] + spec_sweep(rules.skip(1), now, window)
    } else {
        spec_sweep(rules.skip(1), now, window)
    }
}

/// Selects, from the listed rules, exactly those whose timestamp comment has
/// aged past the validity window; rules without a parseable timestamp are
/// left untouched.
pub fn sweep_select(rules: &Vec<String>, now: u64, window: u64) -> (out: Vec<String>)
    ensures
        out.deep_view() == spec_sweep(rules.deep_view(), now as nat, window as nat),
{
    let ghost rv = rules.deep_view();
    let mut out: Vec<String> = Vec::new();
    let mut i: usize = 0;
    proof {
        assert(rv.skip(0) =~= rv);
        assert(out.deep_view() + spec_sweep(rv.skip(0), now as nat, window as nat) =~= spec_sweep(
            rv,
            now as nat,
            window as nat,
        ));
    }
    while i < rules.len()
        invariant
            0 <= i <= rules.len(),
            rv == rules.deep_view(),
            rv.len() == rules.len(),
            out.deep_view() + spec_sweep(rv.skip(i as int), now as nat, window as nat)
                == spec_sweep(rv, now as nat, window as nat),
        decreases rules.len() - i,
    {
        let ghost out0 = out.deep_view();
        proof {
            assert(rv.skip(i as int)[0] == rv[i as int]);
            assert(rv.skip(i as int).skip(1) =~= rv.skip(i + 1));
            assert(rv[i as int] == rules[i as int]@);
        }
        if rule_is_stale(rules[i].as_str(), now, window) {
            out.push(rules[i].clone());
            proof {
                assert(out.deep_view() =~= out0.push(rv[i as int]));
                assert(out0.push(rv[i as int]) + spec_sweep(
                    rv.skip(i + 1),
                    now as nat,
                    window as nat,
                ) =~= out0 + (seq![rv[i as int]] + spec_sweep(
                    rv.skip(i + 1),
                    now as nat,
                    window as nat,
                )));
            }
        }
        i += 1;
    }
    proof {
        assert(rv.skip(rules@.len() as int) =~= Seq::<Seq<char>>::empty());
        assert(out.deep_view() + Seq::<Seq<char>>::empty() =~= out.deep_view());
    }
    out
}

/// A rule is selected by the sweep exactly when it is stale: every element
/// of the selection is a stale element of the input, and every stale element
/// of the input is in the selection.
pub proof fn lemma_sweep_exact(rules: Seq<Seq<char>>, now: nat, window: nat)
    ensures
        forall|k: int|
            0 <= k < spec_sweep(rules, now, window).len() ==> is_stale(
                #[trigger] spec_sweep(rules, now, window)[k],
                now,
                window,
            ) && rules.contains(spec_sweep(rules, now, window)[k]),
        forall|j: int|
            0 <= j < rules.len() && is_stale(#[trigger] rules[j], now, window) ==> spec_sweep(
                rules,
                now,
                window,
            ).contains(rules[j]),
    decreases rules.len(),
{
    if rules.len() > 0 {
        lemma_sweep_exact(rules.skip(1), now, window);
        let sw = spec_sweep(rules, now, window);
        let swt = spec_sweep(rules.skip(1), now, window);
        assert(forall|k: int| 0 <= k < swt.len() ==> rules.skip(1).contains(#[trigger] swt[k])
            ==> rules.contains(swt[k])) by {
            assert(forall|m: int| 0 <= m < rules.skip(1).len() ==> rules.skip(1)[m]
                == #[trigger] rules[m + 1]);
        }
        assert(forall|m: int| 0 <= m < rules.skip(1).len() ==> #[trigger] rules.skip(1)[m]
            == rules[m + 1]);
        if is_stale(rules[0], now, window) {
            assert(sw[0] == rules[0]);
            assert(forall|k: int| 1 <= k < sw.len() ==> sw[k] == #[trigger] swt[k - 1]);
        }
        assert(forall|j: int|
            0 <= j < rules.len() && is_stale(#[trigger] rules[j], now, window) ==> sw.contains(
                rules[j],
            )) by {
            assert forall|j: int|
                0 <= j < rules.len() && is_stale(#[trigger] rules[j], now, window) implies sw
                .contains(rules[j]) by {
                if j == 0 {
                    assert(sw[0] == rules[0]);
                } else {
                    assert(rules.skip(1)[j - 1] == rules[j]);
                    assert(swt.contains(rules[j]));
                    let w = choose|w: int| 0 <= w < swt.len() && swt[w] == rules[j];
                    if is_stale(rules[0], now, window) {
                        assert(sw[w + 1] == swt[w]);
                    } else {
                        assert(sw == swt);
                    }
                }
            }
        }
    }
}

/// The listing line begins with the `-A <chain> ` prefix of the managed
/// chain.
pub open spec fn listed_in_chain(rule: Seq<char>, chain: Seq<char>) -> bool {
    &&& rule.len() >= "-A "@.len() + chain.len() + 1
    &&& rule.subrange(0, "-A "@.len() + chain.len() + 1 as int) == "-A "@ + chain + seq![' ']
}

/// Strips the `-A <chain> ` prefix a listing puts before a rule body, so the
/// body can be handed back to a delete operation. Every line of the managed
/// chain's listing carries that prefix and yields its body; only a line of
/// another shape yields nothing.
pub fn rule_body_of_listing(rule: &str, chain: &str) -> (r: Option<String>)
    ensures
        match r {
            Some(b) => rule@ == "-A "@ + chain@ + seq![' '] + b@,
            None => !listed_in_chain(rule@, chain@),
        },
{
    let mut prefix = String::from_str("-A ");
    prefix.append(chain);
    prefix.append(" ");
    let plen = prefix.as_str().unicode_len();
    let n = rule.unicode_len();
    proof {
        reveal_strlit(" ");
        assert(" "@ =~= seq![' ']);
        assert(prefix@ =~= "-A "@ + chain@ + seq![' ']);
    }
    if starts_with(rule, prefix.as_str()) {
        let b = rule.substring_char(plen, n);
        proof {
            assert(rule@ =~= "-A "@ + chain@ + seq![' '] + b@);
        }
        Some(String::from_str(b))
    } else {
        None
    }
}

} // verus!
