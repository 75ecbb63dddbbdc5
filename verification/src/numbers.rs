use vstd::prelude::*;
use crate::text::{chars_of, string_from_chars, append_chars};

verus! {

/// The ASCII digit for `d` (`0 <= d < 10`).
pub open spec fn digit_char(d: int) -> char {
    if d == 0 { '0' }
    else if d == 1 { '1' }
    else if d == 2 { '2' }
    else if d == 3 { '3' }
    else if d == 4 { '4' }
    else if d == 5 { '5' }
    else if d == 6 { '6' }
    else if d == 7 { '7' }
    else if d == 8 { '8' }
    else { '9' }
}

/// Decimal representation of a natural number, without leading zeros.
pub open spec fn decimal_digits(n: nat) -> Seq<char>
    decreases n,
{
    if n < 10 {
        seq![digit_char(n as int)]
    } else {
        decimal_digits(n / 10).push(digit_char((n % 10) as int))
    }
}

/// A decimal rendering has at least one digit, and exactly one below ten.
pub proof fn lemma_decimal_digits_len(n: nat)
    ensures
        decimal_digits(n).len() >= 1,
        decimal_digits(n).len() == 1 <==> n < 10,
    decreases n,
{
    if n >= 10 {
        lemma_decimal_digits_len(n / 10);
    }
}

/// Different numbers have different decimal renderings.
pub proof fn lemma_decimal_digits_injective(a: nat, b: nat)
    requires
        decimal_digits(a) == decimal_digits(b),
    ensures
        a == b,
    decreases a,
{
    lemma_decimal_digits_len(a);
    lemma_decimal_digits_len(b);
    if a >= 10 && b >= 10 {
        let da = decimal_digits(a);
        let db = decimal_digits(b);
        assert(da.last() == db.last());
        assert(da.drop_last() == decimal_digits(a / 10));
        assert(db.drop_last() == decimal_digits(b / 10));
        lemma_decimal_digits_injective(a / 10, b / 10);
        assert(digit_char((a % 10) as int) == digit_char((b % 10) as int));
        assert(a % 10 == b % 10);
        assert(a == 10 * (a / 10) + a % 10) by (nonlinear_arith);
        assert(b == 10 * (b / 10) + b % 10) by (nonlinear_arith);
    } else {
        assert(a < 10 && b < 10);
        assert(decimal_digits(a)[0] == digit_char(a as int));
        assert(decimal_digits(b)[0] == digit_char(b as int));
        assert(digit_char(a as int) == digit_char(b as int));
    }
}

/// Decimal text of an integer, with a leading `-` when negative (what std's
/// `Display` prints for integers).
pub open spec fn int_text(i: int) -> Seq<char> {
    if i < 0 {
        seq!['-'] + decimal_digits((-i) as nat)
    } else {
        decimal_digits(i as nat)
    }
}

/// Digits grouped in threes from the right, separated by `.`.
pub open spec fn group_thousands(d: Seq<char>) -> Seq<char>
    decreases d.len(),
{
    if d.len() <= 3 {
        d
    } else {
        group_thousands(d.take(d.len() - 3)) + seq!['.'] + d.skip(d.len() - 3)
    }
}

/// Rupiah rendering: `Rp `, a `-` for negative amounts, and the absolute value
/// with `.` between groups of three digits.
pub open spec fn idr_text(amount: int) -> Seq<char> {
    let abs: nat = if amount < 0 { (-amount) as nat } else { amount as nat };
    "Rp "@ + (if amount < 0 { seq!['-'] } else { Seq::empty() }) + group_thousands(decimal_digits(abs))
}

/// The ASCII digit character for a value below ten.
pub fn digit_to_char(d: u64) -> (c: char)
    requires
        d < 10,
    ensures
        c == digit_char(d as int),
{
    if d == 0 { '0' }
    else if d == 1 { '1' }
    else if d == 2 { '2' }
    else if d == 3 { '3' }
    else if d == 4 { '4' }
    else if d == 5 { '5' }
    else if d == 6 { '6' }
    else if d == 7 { '7' }
    else if d == 8 { '8' }
    else { '9' }
}

/// Decimal digits of an unsigned integer.
pub fn u64_digits(n: u64) -> (r: Vec<char>)
    ensures
        r@ == decimal_digits(n as nat),
{
    let mut out: Vec<char> = Vec::new();
    let mut m: u64 = n;
    loop
        invariant_except_break
            decimal_digits(n as nat) == decimal_digits(m as nat) + out@,
        ensures
            decimal_digits(n as nat) == out@,
        decreases m,
    {
        let c = digit_to_char(m % 10);
        out.insert(0, c);
        if m < 10 {
            break;
        }
        assert(decimal_digits(m as nat) == decimal_digits((m / 10) as nat).push(c));
        m = m / 10;
    }
    out
}

/// Decimal text of an `i64`, as std's `to_string` prints it.
pub fn i64_text(v: i64) -> (r: String)
    ensures
        r@ == int_text(v as int),
{
    let abs: u64 = if v < 0 {
        if v == i64::MIN { 9223372036854775808u64 } else { (-v) as u64 }
    } else {
        v as u64
    };
    let digits = u64_digits(abs);
    let mut out: Vec<char> = Vec::new();
    if v < 0 {
        out.push('-');
    }
    append_chars(&mut out, &digits);
    string_from_chars(&out)
}

/// Decimal text of a `usize`, as std's `to_string` prints it.
pub fn usize_text(v: usize) -> (r: String)
    ensures
        r@ == int_text(v as int),
{
    let digits = u64_digits(v as u64);
    string_from_chars(&digits)
}

/// Decimal text of an `i32`, as std's `to_string` prints it.
pub fn i32_text(v: i32) -> (r: String)
    ensures
        r@ == int_text(v as int),
{
    i64_text(v as i64)
}

/// Groups a digit string in threes from the right, separated by `.`.
pub fn group_digits(d: &Vec<char>) -> (r: Vec<char>)
    requires
        d.len() >= 1,
    ensures
        r@ == group_thousands(d@),
{
    let len = d.len();
    // length of the leading group: 1, 2 or 3
    let first: usize = len - 3 * ((len - 1) / 3);
    let mut out: Vec<char> = Vec::new();
    let mut i: usize = 0;
    while i < first
        invariant
            i <= first <= 3,
            first <= len == d.len(),
            out@ == d@.take(i as int),
        decreases first - i,
    {
        out.push(d[i]);
        i = i + 1;
        assert(d@.take(i as int) == d@.take((i - 1) as int).push(d@[i - 1]));
    }
    assert(group_thousands(d@.take(first as int)) == d@.take(first as int));
    let mut k: usize = first;
    while k < len
        invariant
            first <= k <= len == d.len(),
            1 <= first,
            (len - k) % 3 == 0,
            out@ == group_thousands(d@.take(k as int)),
        decreases len - k,
    {
        out.push('.');
        out.push(d[k]);
        out.push(d[k + 1]);
        out.push(d[k + 2]);
        proof {
            let t = d@.take(k + 3);
            assert(t.take(t.len() - 3) == d@.take(k as int));
            assert(t.skip(t.len() - 3) == seq![d@[k as int], d@[k + 1], d@[k + 2]]);
        }
        k = k + 3;
    }
    assert(d@.take(len as int) == d@);
    out
}

/// Renders an amount as Indonesian Rupiah, e.g. `Rp -1.000.000`.
pub fn format_idr(amount: i64) -> (r: String)
    ensures
        r@ == idr_text(amount as int),
{
    let abs: u64 = if amount < 0 {
        if amount == i64::MIN { 9223372036854775808u64 } else { (-amount) as u64 }
    } else {
        amount as u64
    };
    let digits = u64_digits(abs);
    proof { lemma_decimal_digits_len(abs as nat); }
    let grouped = group_digits(&digits);
    let mut out = chars_of("Rp ");
    if amount < 0 {
        out.push('-');
    }
    append_chars(&mut out, &grouped);
    proof {
        reveal_strlit("Rp ");
    }
    string_from_chars(&out)
}

} // verus!

verus! {

/// Is `c` an ASCII decimal digit?
pub open spec fn is_digit(c: char) -> bool {
    '0' <= c && c <= '9'
}

/// Value of a string of ASCII digits.
pub open spec fn digits_value(b: Seq<char>) -> int
    decreases b.len(),
{
    if b.len() == 0 {
        0
    } else {
        digits_value(b.drop_last()) * 10 + (b.last() as int - '0' as int)
    }
}

/// Every character of `b` is an ASCII digit.
pub open spec fn all_digits(b: Seq<char>) -> bool {
    forall|k: int| 0 <= k < b.len() ==> is_digit(#[trigger] b[k])
}

/// The part of `s` after an optional leading sign.
pub open spec fn unsigned_part(s: Seq<char>) -> Seq<char> {
    if s.len() > 0 && (s[0] == '-' || s[0] == '+') { s.skip(1) } else { s }
}

/// What std's `str::parse::<i64>` yields: an optional `+` or `-`, then one or
/// more ASCII digits, with the value within `i64`; anything else is an error.
pub open spec fn parse_i64_spec(s: Seq<char>) -> Option<int> {
    let body = unsigned_part(s);
    if body.len() == 0 || !all_digits(body) {
        None
    } else {
        let v = if s[0] == '-' { -digits_value(body) } else { digits_value(body) };
        if i64::MIN <= v <= i64::MAX { Some(v) } else { None }
    }
}

pub proof fn lemma_digits_value_prefix(b: Seq<char>, i: int)
    requires
        0 <= i <= b.len(),
        forall|k: int| 0 <= k < b.len() ==> is_digit(#[trigger] b[k]),
    ensures
        0 <= digits_value(b.take(i)) <= digits_value(b),
    decreases b.len() - i,
{
    if i < b.len() {
        lemma_digits_value_prefix(b, i + 1);
        assert(b.take(i + 1).drop_last() == b.take(i));
        assert(is_digit(b[i]));
    } else {
        assert(b.take(i) == b);
        lemma_digits_value_nonneg(b);
    }
}

pub proof fn lemma_digits_value_nonneg(b: Seq<char>)
    requires
        forall|k: int| 0 <= k < b.len() ==> is_digit(#[trigger] b[k]),
    ensures
        0 <= digits_value(b),
    decreases b.len(),
{
    if b.len() > 0 {
        assert(is_digit(b.last()));
        lemma_digits_value_nonneg(b.drop_last());
    }
}

/// Parses a decimal `i64` the way std's `str::parse::<i64>` does.
pub fn parse_i64(s: &Vec<char>) -> (r: Option<i64>)
    ensures
        r == (match parse_i64_spec(s@) {
            Some(v) => Some(v as i64),
            None => None::<i64>,
        }),
{
    let neg = s.len() > 0 && s[0] == '-';
    let start: usize = if s.len() > 0 && (s[0] == '-' || s[0] == '+') { 1 } else { 0 };
    let ghost body = unsigned_part(s@);
    assert(body == s@.skip(start as int));
    if start == s.len() {
        return None;
    }
    let mut acc: u64 = 0;
    let mut i: usize = start;
    while i < s.len()
        invariant
            start <= i <= s.len(),
            body == s@.skip(start as int),
            body == unsigned_part(s@),
            neg == (s@.len() > 0 && s@[0] == '-'),
            forall|k: int| start <= k < i ==> is_digit(#[trigger] s@[k]),
            acc as int == digits_value(body.take(i - start)),
            acc <= 9223372036854775808u64,
        decreases s.len() - i,
    {
        let c = s[i];
        if !(c >= '0' && c <= '9') {
            proof {
                assert(body[i - start] == c);
                assert(!is_digit(body[i - start]));
                assert(!all_digits(body));
            }
            return None;
        }
        let d: u64 = (c as u32 - '0' as u32) as u64;
        proof {
            assert(body.take(i - start + 1).drop_last() == body.take(i - start));
            assert(body.take(i - start + 1).last() == c);
        }
        if acc > 922337203685477580u64 || (acc == 922337203685477580u64 && d > 8) {
            // the value already exceeds every i64 magnitude
            proof {
                let nv = digits_value(body.take(i - start + 1));
                assert(nv > 9223372036854775808);
                if all_digits(body) {
                    lemma_digits_value_prefix(body, i - start + 1);
                    assert(digits_value(body) > 9223372036854775808);
                }
                assert(parse_i64_spec(s@) is None);
            }
            return None;
        }
        acc = acc * 10 + d;
        i = i + 1;
    }
    proof {
        assert(body.take(body.len() as int) == body);
        assert forall|k: int| 0 <= k < body.len() implies is_digit(#[trigger] body[k]) by {
            assert(body[k] == s@[k + start]);
        }
        assert(all_digits(body));
    }
    if neg {
        Some((-(acc as i128)) as i64)
    } else if acc <= 9223372036854775807u64 {
        Some(acc as i64)
    } else {
        None
    }
}

/// Parses a decimal `i64` from a string slice (std `str::parse::<i64>`).
pub fn parse_i64_str(s: &str) -> (r: Option<i64>)
    ensures
        r == (match parse_i64_spec(s@) {
            Some(v) => Some(v as i64),
            None => None::<i64>,
        }),
{
    let cs = chars_of(s);
    parse_i64(&cs)
}

} // verus!
