//! Character-sequence utilities shared by the parsers: decimal numbers,
//! substring search, and prefix tests, each with an exact contract.

use vstd::prelude::*;

verus! {

/// A character is a decimal digit.
pub open spec fn is_digit(c: char) -> bool {
    '0' <= c && c <= '9'
}

/// Numeric value of a digit character.
pub open spec fn digit_val(c: char) -> nat
    recommends
        is_digit(c),
{
    (c as int - '0' as int) as nat
}

/// Every character of the sequence is a decimal digit.
pub open spec fn all_digits(s: Seq<char>) -> bool {
    forall|i: int| 0 <= i < s.len() ==> is_digit(#[trigger] s[i])
}

/// Value of a digit sequence read as a decimal number, most significant first.
pub open spec fn dec_value(s: Seq<char>) -> nat
    decreases s.len(),
{
    if s.len() == 0 {
        0
    } else {
        dec_value(s.drop_last()) * 10 + digit_val(s.last())
    }
}

/// The digit character for a value below ten.
pub open spec fn digit_char(d: nat) -> char {
    if d == 0 {
        '0'
    } else if d == 1 {
        '1'
    } else if d == 2 {
        '2'
    } else if d == 3 {
        '3'
    } else if d == 4 {
        '4'
    } else if d == 5 {
        '5'
    } else if d == 6 {
        '6'
    } else if d == 7 {
        '7'
    } else if d == 8 {
        '8'
    } else {
        '9'
    }
}

/// Canonical decimal rendering of a number: no leading zero except for zero itself.
pub open spec fn dec_digits(n: nat) -> Seq<char>
    decreases n,
{
    if n < 10 {
        seq![digit_char(n)]
    } else {
        dec_digits(n / 10).push(digit_char(n % 10))
    }
}

/// Number of leading decimal digits of the sequence.
pub open spec fn leading_digits(s: Seq<char>) -> int
    decreases s.len(),
{
    if s.len() > 0 && is_digit(s[0]) {
        1 + leading_digits(s.skip(1))
    } else {
        0
    }
}

/// The leading digit run is all digits, ends the run, and is bounded by the
/// sequence.
pub proof fn lemma_leading_digits(s: Seq<char>)
    ensures
        0 <= leading_digits(s) <= s.len(),
        forall|j: int| 0 <= j < leading_digits(s) ==> is_digit(#[trigger] s[j]),
        leading_digits(s) < s.len() ==> !is_digit(s[leading_digits(s)]),
    decreases s.len(),
{
    if s.len() > 0 && is_digit(s[0]) {
        lemma_leading_digits(s.skip(1));
        assert forall|j: int| 1 <= j < leading_digits(s) implies is_digit(#[trigger] s[j]) by {
            assert(s.skip(1)[j - 1] == s[j]);
            assert(is_digit(s.skip(1)[j - 1]));
        }
        if leading_digits(s) < s.len() {
            assert(s.skip(1)[leading_digits(s) - 1] == s[leading_digits(s)]);
        }
    }
}

/// Decides whether a character is a decimal digit.
pub fn is_digit_char(c: char) -> (r: bool)
    ensures
        r == is_digit(c),
{
    '0' <= c && c <= '9'
}

/// The lines of a text, split at each line feed; a trailing line feed adds
/// no empty line.
pub open spec fn spec_split_lines(s: Seq<char>) -> Seq<Seq<char>>
    decreases s.len(),
{
    if s.len() == 0 {
        Seq::empty()
    } else {
        let e = spec_find(s, seq!['\n'], 0);
        if e < 0 {
            seq![s]
        } else if e + 1 > s.len() {
            // unreachable: a found line feed lies within the text
            seq![s]
        } else {
            seq![s.take(e)] + spec_split_lines(s.skip(e + 1))
        }
    }
}

/// Splits a text into its lines.
pub fn split_lines(s: &str) -> (out: Vec<String>)
    ensures
        out.deep_view() == spec_split_lines(s@),
    decreases s@.len(),
{
    proof {
        reveal_strlit("\n");
        assert("\n"@ =~= seq!['\n']);
    }
    let n = s.unicode_len();
    if n == 0 {
        let out: Vec<String> = Vec::new();
        proof {
            assert(out.deep_view() =~= Seq::<Seq<char>>::empty());
        }
        return out;
    }
    match find_pat(s, "\n", 0) {
        Some(e) => {
            let line = s.substring_char(0, e);
            let rest = s.substring_char(e + 1, n);
            proof {
                assert(line@ =~= s@.take(e as int));
                assert(rest@ =~= s@.skip(e + 1));
            }
            let mut out = split_lines(rest);
            out.insert(0, String::from_str(line));
            proof {
                assert(out.deep_view() =~= seq![s@.take(e as int)] + spec_split_lines(
                    s@.skip(e + 1),
                ));
            }
            out
        },
        None => {
            let mut out: Vec<String> = Vec::new();
            out.push(String::from_str(s));
            proof {
                assert(out.deep_view() =~= seq![s@]);
            }
            out
        },
    }
}

/// The line ending used by HTTP.
pub open spec fn crlf_seq() -> Seq<char> {
    seq!['\r', '\n']
}

/// The pattern occurs in `s` at position `i`.
pub open spec fn match_at(s: Seq<char>, pat: Seq<char>, i: int) -> bool {
    &&& 0 <= i
    &&& i + pat.len() <= s.len()
    &&& s.subrange(i, i + pat.len() as int) == pat
}

/// A one-character string slice holding the digit for `d`.
pub fn digit_str(d: u64) -> (r: &'static str)
    requires
        d < 10,
    ensures
        r@ =~= seq![digit_char(d as nat)],
{
    proof {
        reveal_strlit("0");
        reveal_strlit("1");
        reveal_strlit("2");
        reveal_strlit("3");
        reveal_strlit("4");
        reveal_strlit("5");
        reveal_strlit("6");
        reveal_strlit("7");
        reveal_strlit("8");
        reveal_strlit("9");
    }
    if d == 0 {
        "0"
    } else if d == 1 {
        "1"
    } else if d == 2 {
        "2"
    } else if d == 3 {
        "3"
    } else if d == 4 {
        "4"
    } else if d == 5 {
        "5"
    } else if d == 6 {
        "6"
    } else if d == 7 {
        "7"
    } else if d == 8 {
        "8"
    } else {
        "9"
    }
}

/// The canonical rendering is nonempty and all digits.
pub proof fn lemma_dec_digits_digits(n: nat)
    ensures
        dec_digits(n).len() >= 1,
        all_digits(dec_digits(n)),
    decreases n,
{
    if n < 10 {
        assert(is_digit(digit_char(n)));
    } else {
        lemma_dec_digits_digits(n / 10);
        let d = dec_digits(n / 10);
        assert(is_digit(digit_char(n % 10)));
        assert forall|i: int|
            0 <= i < dec_digits(n).len() implies is_digit(#[trigger] dec_digits(n)[i]) by {
            if i < d.len() {
                assert(dec_digits(n)[i] == d[i]);
                assert(is_digit(d[i]));
            } else {
                assert(dec_digits(n)[i] == digit_char(n % 10));
            }
        }
    }
}

/// Reading the canonical rendering back yields the number.
pub proof fn lemma_dec_digits_value(n: nat)
    ensures
        dec_value(dec_digits(n)) == n,
    decreases n,
{
    if n < 10 {
        let s = dec_digits(n);
        assert(s.drop_last() =~= Seq::<char>::empty());
        assert(dec_value(Seq::<char>::empty()) == 0);
        assert(digit_val(digit_char(n)) == n);
    } else {
        lemma_dec_digits_value(n / 10);
        let d = dec_digits(n / 10);
        let s = dec_digits(n);
        assert(s == d.push(digit_char(n % 10)));
        assert(s.drop_last() =~= d);
        assert(s.last() == digit_char(n % 10));
        assert(digit_val(digit_char(n % 10)) == n % 10);
        assert(dec_value(s) == dec_value(d) * 10 + n % 10);
    }
}

/// Two characters are equal up to ASCII case.
pub open spec fn same_char_ci(x: char, y: char) -> bool {
    ||| x == y
    ||| ('A' <= x && x <= 'Z' && y as int == x as int + 32)
    ||| ('A' <= y && y <= 'Z' && x as int == y as int + 32)
}

/// Two character sequences are equal up to ASCII case.
pub open spec fn seq_eq_ci(a: Seq<char>, b: Seq<char>) -> bool {
    a.len() == b.len() && (forall|i: int| 0 <= i < a.len() ==> same_char_ci(a[i], #[trigger] b[i]))
}

/// Exact string equality.
pub fn str_eq(a: &str, b: &str) -> (r: bool)
    ensures
        r == (a@ == b@),
{
    let alen = a.unicode_len();
    let blen = b.unicode_len();
    if alen != blen {
        return false;
    }
    let mut i: usize = 0;
    while i < alen
        invariant
            alen == a@.len(),
            blen == b@.len(),
            alen == blen,
            0 <= i <= alen,
            forall|j: int| 0 <= j < i ==> a@[j] == b@[j],
        decreases alen - i,
    {
        if a.get_char(i) != b.get_char(i) {
            return false;
        }
        i += 1;
    }
    proof {
        assert(a@ =~= b@);
    }
    true
}

/// String equality up to ASCII case.
pub fn str_eq_ci(a: &str, b: &str) -> (r: bool)
    ensures
        r == seq_eq_ci(a@, b@),
{
    let alen = a.unicode_len();
    let blen = b.unicode_len();
    if alen != blen {
        return false;
    }
    let mut i: usize = 0;
    while i < alen
        invariant
            alen == a@.len(),
            blen == b@.len(),
            alen == blen,
            0 <= i <= alen,
            forall|j: int| 0 <= j < i ==> same_char_ci(a@[j], #[trigger] b@[j]),
        decreases alen - i,
    {
        let x = a.get_char(i);
        let y = b.get_char(i);
        let xl: u32 = if 'A' <= x && x <= 'Z' {
            x as u32 + 32
        } else {
            x as u32
        };
        let yl: u32 = if 'A' <= y && y <= 'Z' {
            y as u32 + 32
        } else {
            y as u32
        };
        if xl != yl {
            return false;
        }
        i += 1;
    }
    true
}

/// `dec_value` of a longer prefix is at least that of a shorter one.
pub proof fn lemma_dec_value_take_le(s: Seq<char>, i: int, j: int)
    requires
        0 <= i <= j <= s.len(),
    ensures
        dec_value(s.take(i)) <= dec_value(s.take(j)),
    decreases j - i,
{
    if i < j {
        lemma_dec_value_take_le(s, i, j - 1);
        assert(s.take(j).drop_last() =~= s.take(j - 1));
        assert(dec_value(s.take(j)) == dec_value(s.take(j - 1)) * 10 + digit_val(s.take(j).last()));
    }
}

/// Parses a whole string as an unsigned decimal number. Returns `None` when
/// the string is empty, holds a non-digit, or the value does not fit.
pub fn parse_u64(s: &str) -> (r: Option<u64>)
    ensures
        match r {
            Some(v) => s@.len() > 0 && all_digits(s@) && dec_value(s@) == v,
            None => s@.len() == 0 || !all_digits(s@) || dec_value(s@) > u64::MAX,
        },
{
    let n = s.unicode_len();
    if n == 0 {
        return None;
    }
    let mut i: usize = 0;
    let mut val: u64 = 0;
    while i < n
        invariant
            n == s@.len(),
            0 <= i <= n,
            all_digits(s@.take(i as int)),
            val == dec_value(s@.take(i as int)),
        decreases n - i,
    {
        let c = s.get_char(i);
        if c < '0' || c > '9' {
            assert(!is_digit(s@[i as int]));
            return None;
        }
        let d: u64 = (c as u32 - 48) as u64;
        proof {
            assert(s@.take(i + 1).drop_last() =~= s@.take(i as int));
            assert(s@.take(i + 1).last() == s@[i as int]);
        }
        let step = match val.checked_mul(10) {
            Some(m) => m.checked_add(d),
            None => None,
        };
        match step {
            Some(next) => {
                val = next;
            },
            None => {
                proof {
                    assert(dec_value(s@.take(i + 1)) > u64::MAX);
                    lemma_dec_value_take_le(s@, i + 1, n as int);
                    assert(s@.take(n as int) =~= s@);
                }
                return None;
            },
        }
        i += 1;
    }
    proof {
        assert(s@.take(n as int) =~= s@);
    }
    Some(val)
}

/// First position at or after `from` where `c` occurs, if any.
pub fn find_char(s: &str, c: char, from: usize) -> (r: Option<usize>)
    requires
        from <= s@.len(),
    ensures
        match r {
            Some(k) => from <= k < s@.len() && s@[k as int] == c && (forall|j: int|
                from <= j < k ==> s@[j] != c),
            None => forall|j: int| from <= j < s@.len() ==> s@[j] != c,
        },
{
    let n = s.unicode_len();
    let mut i: usize = from;
    while i < n
        invariant
            n == s@.len(),
            from <= i <= n,
            forall|j: int| from <= j < i ==> s@[j] != c,
        decreases n - i,
    {
        if s.get_char(i) == c {
            return Some(i);
        }
        i += 1;
    }
    None
}

/// Position of the first occurrence of the pattern at or after `from`, or
/// `-1` when there is none.
pub open spec fn spec_find(s: Seq<char>, pat: Seq<char>, from: int) -> int
    decreases s.len() - from,
    when from <= s.len()
{
    if from < 0 {
        -1
    } else if from + pat.len() > s.len() {
        -1
    } else if pat.len() == 0 {
        from
    } else if match_at(s, pat, from) {
        from
    } else {
        spec_find(s, pat, from + 1)
    }
}

/// `spec_find` returns exactly the first match position, or `-1` when no
/// position at or after `from` matches.
pub proof fn lemma_spec_find(s: Seq<char>, pat: Seq<char>, from: int)
    requires
        0 <= from <= s.len(),
    ensures
        spec_find(s, pat, from) == -1 || spec_find(s, pat, from) >= from,
        spec_find(s, pat, from) == -1 ==> (forall|j: int| from <= j ==> !match_at(s, pat, j)),
        spec_find(s, pat, from) >= 0 ==> {
            let k = spec_find(s, pat, from);
            &&& from <= k
            &&& match_at(s, pat, k)
            &&& forall|j: int| from <= j < k ==> !match_at(s, pat, j)
        },
    decreases s.len() - from,
{
    if from + pat.len() > s.len() {
        assert(forall|j: int| from <= j ==> !match_at(s, pat, j));
    } else if pat.len() == 0 {
        assert(s.subrange(from, from) =~= pat);
        assert(match_at(s, pat, from));
    } else if match_at(s, pat, from) {
    } else {
        lemma_spec_find(s, pat, from + 1);
    }
}

/// The pattern occurs in `s` exactly at position `i`.
pub fn match_here(s: &str, pat: &str, i: usize) -> (r: bool)
    requires
        i + pat@.len() <= s@.len(),
    ensures
        r == match_at(s@, pat@, i as int),
{
    let n = s.unicode_len();
    let m = pat.unicode_len();
    let mut k: usize = 0;
    while k < m
        invariant
            n == s@.len(),
            m == pat@.len(),
            i + m <= n,
            0 <= k <= m,
            forall|t: int| 0 <= t < k ==> s@[i + t] == #[trigger] pat@[t],
        decreases m - k,
    {
        if s.get_char(i + k) != pat.get_char(k) {
            proof {
                if match_at(s@, pat@, i as int) {
                    assert(s@.subrange(i as int, i + m as int)[k as int] == s@[i + k]);
                }
            }
            return false;
        }
        k += 1;
    }
    proof {
        assert(s@.subrange(i as int, i + m as int) =~= pat@);
    }
    true
}

/// First position at or after `from` where the pattern occurs, if any.
pub fn find_sub(s: &str, pat: &str, from: usize) -> (r: Option<usize>)
    requires
        from <= s@.len(),
    ensures
        match r {
            Some(k) => from <= k && match_at(s@, pat@, k as int) && (forall|j: int|
                from <= j < k ==> !match_at(s@, pat@, j)),
            None => forall|j: int| from <= j ==> !match_at(s@, pat@, j),
        },
{
    let n = s.unicode_len();
    let m = pat.unicode_len();
    if m > n {
        proof {
            assert(forall|j: int| j + pat@.len() > s@.len() ==> !match_at(s@, pat@, j));
        }
        return None;
    }
    if m == 0 {
        proof {
            assert(s@.subrange(from as int, from as int) =~= pat@);
        }
        return Some(from);
    }
    let mut i: usize = from;
    while i <= n - m
        invariant
            n == s@.len(),
            m == pat@.len(),
            1 <= m <= n,
            from <= i,
            i <= n + 1,
            forall|j: int| from <= j < i ==> !match_at(s@, pat@, j),
        decreases n - i,
    {
        if match_here(s, pat, i) {
            return Some(i);
        }
        i += 1;
    }
    proof {
        assert(forall|j: int| j + pat@.len() > s@.len() ==> !match_at(s@, pat@, j));
    }
    None
}

/// `find_sub`, with its result tied to `spec_find`.
pub fn find_pat(s: &str, pat: &str, from: usize) -> (r: Option<usize>)
    requires
        from <= s@.len(),
    ensures
        match r {
            Some(k) => {
                &&& spec_find(s@, pat@, from as int) == k as int
                &&& from <= k
                &&& match_at(s@, pat@, k as int)
                &&& forall|j: int| from <= j < k ==> !match_at(s@, pat@, j)
            },
            None => {
                &&& spec_find(s@, pat@, from as int) == -1
                &&& forall|j: int| from <= j ==> !match_at(s@, pat@, j)
            },
        },
{
    let r = find_sub(s, pat, from);
    proof {
        lemma_spec_find(s@, pat@, from as int);
        let k = spec_find(s@, pat@, from as int);
        match r {
            Some(x) => {
                assert(match_at(s@, pat@, x as int));
                if 0 <= k < x {
                    assert(match_at(s@, pat@, k));
                }
            },
            None => {
                if k >= 0 {
                    assert(match_at(s@, pat@, k));
                }
            },
        }
    }
    r
}

/// The string begins with the given prefix.
pub fn starts_with(s: &str, prefix: &str) -> (r: bool)
    ensures
        r == (prefix@.len() <= s@.len() && s@.subrange(0, prefix@.len() as int) == prefix@),
{
    let n = s.unicode_len();
    let m = prefix.unicode_len();
    if m > n {
        return false;
    }
    let mut k: usize = 0;
    while k < m
        invariant
            n == s@.len(),
            m == prefix@.len(),
            m <= n,
            0 <= k <= m,
            forall|t: int| 0 <= t < k ==> s@[t] == prefix@[t],
        decreases m - k,
    {
        if s.get_char(k) != prefix.get_char(k) {
            proof {
                if s@.subrange(0, m as int) == prefix@ {
                    assert(s@.subrange(0, m as int)[k as int] == s@[k as int]);
                }
            }
            return false;
        }
        k += 1;
    }
    proof {
        assert(s@.subrange(0, m as int) =~= prefix@);
    }
    true
}

/// Renders a number in canonical decimal.
pub fn u64_to_dec(n: u64) -> (r: String)
    ensures
        r@ == dec_digits(n as nat),
    decreases n,
{
    if n < 10 {
        String::from_str(digit_str(n))
    } else {
        let mut s = u64_to_dec(n / 10);
        s.append(digit_str(n % 10));
        proof {
            assert(s@ =~= dec_digits(n as nat));
        }
        s
    }
}

} // verus!
