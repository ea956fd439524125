//! Decoding of the DHCP lease oracle's reply: the JSON text the lease
//! command prints is turned into plain lease records. The JSON value itself
//! is opaque here; the hostname resolution over the records is verified in
//! full for every decoding outcome.

use vstd::prelude::*;
use crate::neighbor::Lease;

verus! {

#[verifier::external_type_specification]
#[verifier::external_body]
pub struct ExValue(serde_json::Value);

/// Relies on serde_json's `from_str`: parses the oracle's reply text into a
/// JSON value, or nothing when the text is not JSON.
#[verifier::external_body]
fn parse_value(s: &str) -> (r: Option<serde_json::Value>)
{
    serde_json::from_str(s).ok()
}

/// Relies on serde_json's `Value::get`: the member of an object under the
/// given key, or nothing for absent keys and non-objects.
#[verifier::external_body]
fn value_get<'a>(v: &'a serde_json::Value, key: &str) -> (r: Option<&'a serde_json::Value>)
{
    v.get(key)
}

/// Relies on serde_json's `Value::as_array`: the elements of an array
/// value, or nothing for a non-array.
#[verifier::external_body]
fn value_as_array(v: &serde_json::Value) -> (r: Option<&Vec<serde_json::Value>>)
{
    v.as_array()
}

/// Relies on serde_json's `Value::as_str`: the text of a string value, or
/// nothing for a non-string.
#[verifier::external_body]
fn value_as_str(v: &serde_json::Value) -> (r: Option<&str>)
{
    v.as_str()
}

/// Relies on serde_json's `Value::as_i64`: the value of an integer, or
/// nothing for anything else.
#[verifier::external_body]
fn value_as_i64(v: &serde_json::Value) -> (r: Option<i64>)
{
    v.as_i64()
}

/// Reads one lease record: an object with `mac`, `ip` and `hostname`
/// strings. Records of another shape are skipped defensively.
fn lease_of_value(v: &serde_json::Value) -> (r: Option<Lease>)
{
    let mac = match value_get(v, "mac") {
        Some(m) => match value_as_str(m) {
            Some(s) => String::from_str(s),
            None => {
                return None;
            },
        },
        None => {
            return None;
        },
    };
    let ip = match value_get(v, "ip") {
        Some(m) => match value_as_str(m) {
            Some(s) => String::from_str(s),
            None => {
                return None;
            },
        },
        None => {
            return None;
        },
    };
    let hostname = match value_get(v, "hostname") {
        Some(m) => match value_as_str(m) {
            Some(s) => String::from_str(s),
            None => {
                return None;
            },
        },
        None => {
            return None;
        },
    };
    let valid = match value_get(v, "valid") {
        Some(m) => match value_as_i64(m) {
            Some(n) => n,
            None => 0,
        },
        None => 0,
    };
    Some(Lease { mac, ip, hostname, valid })
}

/// Decodes the lease oracle's reply for one bridge: the records under
/// `device.<bridge>.leases`. A reply of any other shape yields no records;
/// downstream, an empty record list simply resolves no hostname.
///
/// The decode is deliberately unspecified: the JSON value is opaque behind
/// the serde_json boundary, so no contract relates the records to the reply
/// text. Everything that consumes the records — the hostname resolution —
/// is verified for every value this can return.
pub fn leases_from_reply(reply: &str, bridge: &str) -> (out: Vec<Lease>)
{
    let root = match parse_value(reply) {
        Some(v) => v,
        None => {
            return Vec::new();
        },
    };
    let device = match value_get(&root, "device") {
        Some(v) => v,
        None => {
            return Vec::new();
        },
    };
    let section = match value_get(device, bridge) {
        Some(v) => v,
        None => {
            return Vec::new();
        },
    };
    let leases_value = match value_get(section, "leases") {
        Some(v) => v,
        None => {
            return Vec::new();
        },
    };
    let arr = match value_as_array(leases_value) {
        Some(a) => a,
        None => {
            return Vec::new();
        },
    };
    let mut out: Vec<Lease> = Vec::new();
    let mut i: usize = 0;
    while i < arr.len()
        decreases arr.len() - i,
    {
        match lease_of_value(&arr[i]) {
            Some(l) => {
                out.push(l);
            },
            None => {},
        }
        i += 1;
    }
    out
}

} // verus!
