//! Decimal identifiers: snowflake ids travel as decimal `u64` strings and are stored
//! as the `i64` with the same bits.

use vstd::prelude::*;
use crate::error::{AppError, is_bad_request};
use crate::text::{chars_of, string_from_chars};

verus! {

/// ASCII decimal digit.
pub open spec fn is_digit_char(c: char) -> bool {
    '0' <= c <= '9'
}

/// Value of a sequence of decimal digit characters.
pub open spec fn decimal_value(s: Seq<char>) -> int
    decreases s.len(),
{
    if s.len() == 0 {
        0
    } else {
        decimal_value(s.drop_last()) * 10 + (s.last() as int - '0' as int)
    }
}

/// The digits of a number text: without its optional leading `+`.
pub open spec fn unsigned_digits(s: Seq<char>) -> Seq<char> {
    if s.len() > 0 && s[0] == '+' {
        s.drop_first()
    } else {
        s
    }
}

/// Reading of `s` as a `u64`: an optional `+`, then one or more digits whose value fits.
pub open spec fn parse_u64_spec(s: Seq<char>) -> Option<u64> {
    let d = unsigned_digits(s);
    if d.len() > 0 && (forall|i: int| 0 <= i < d.len() ==> is_digit_char(#[trigger] d[i]))
        && decimal_value(d) <= u64::MAX {
        Some(decimal_value(d) as u64)
    } else {
        None
    }
}

/// Reading of `s` as a `u16`: an optional `+`, then one or more digits whose value fits.
pub open spec fn parse_u16_spec(s: Seq<char>) -> Option<u16> {
    let d = unsigned_digits(s);
    if d.len() > 0 && (forall|i: int| 0 <= i < d.len() ==> is_digit_char(#[trigger] d[i]))
        && decimal_value(d) <= u16::MAX {
        Some(decimal_value(d) as u16)
    } else {
        None
    }
}

proof fn lemma_decimal_value_nonneg(s: Seq<char>)
    requires
        forall|i: int| 0 <= i < s.len() ==> is_digit_char(#[trigger] s[i]),
    ensures
        decimal_value(s) >= 0,
    decreases s.len(),
{
    if s.len() > 0 {
        assert forall|i: int| 0 <= i < s.drop_last().len() implies is_digit_char(
            #[trigger] s.drop_last()[i],
        ) by {
            assert(s.drop_last()[i] == s[i]);
        }
        lemma_decimal_value_nonneg(s.drop_last());
    }
}

/// Reads `s` as a decimal `u64` (see [`parse_u64_spec`]).
pub fn parse_u64(s: &str) -> (r: Option<u64>)
    ensures
        r == parse_u64_spec(s@),
{
    let c = chars_of(s);
    let n = c.len();
    let mut i: usize = 0;
    if n > 0 && c[0] == '+' {
        i = 1;
    }
    let ghost d = unsigned_digits(s@);
    assert(d =~= c@.subrange(i as int, n as int));
    if i >= n {
        return None;
    }
    let start = i;
    let mut val: u64 = 0;
    while i < n
        invariant
            c@ == s@,
            n == c@.len(),
            start <= i <= n,
            d == c@.subrange(start as int, n as int),
            d == unsigned_digits(s@),
            forall|k: int| start <= k < i ==> is_digit_char(#[trigger] c@[k]),
            val == decimal_value(c@.subrange(start as int, i as int)),
        decreases n - i,
    {
        let ch = c[i];
        let ghost prev = c@.subrange(start as int, i as int);
        assert(c@.subrange(start as int, i + 1).drop_last() == prev);
        if !('0' <= ch && ch <= '9') {
            assert(d[i - start] == ch);
            assert(!is_digit_char(d[i - start]));
            return None;
        }
        let digit = (ch as u32 - '0' as u32) as u64;
        if val > (u64::MAX - digit) / 10 {
            proof {
                assert forall|k: int| 0 <= k < c@.subrange(start as int, i + 1).len() implies is_digit_char(
                    #[trigger] c@.subrange(start as int, i + 1)[k],
                ) by {
                    assert(c@.subrange(start as int, i + 1)[k] == c@[start + k]);
                }
                let full = c@.subrange(start as int, i + 1);
                assert(d.subrange(0, i + 1 - start) =~= full);
                assert(decimal_value(full) == decimal_value(prev) * 10 + digit);
                assert(decimal_value(full) > u64::MAX);
                if forall|q: int| 0 <= q < d.len() ==> is_digit_char(#[trigger] d[q]) {
                    lemma_too_large_stays_large(d, full, (i + 1 - start) as int);
                }
            }
            return None;
        }
        val = val * 10 + digit;
        i = i + 1;
    }
    assert(c@.subrange(start as int, n as int) == d);
    Some(val)
}

/// Reads `s` as a decimal `u16` (see [`parse_u16_spec`]).
pub fn parse_u16(s: &str) -> (r: Option<u16>)
    ensures
        r == parse_u16_spec(s@),
{
    proof {
        let d = unsigned_digits(s@);
        if forall|i: int| 0 <= i < d.len() ==> is_digit_char(#[trigger] d[i]) {
            lemma_decimal_value_nonneg(d);
        }
    }
    match parse_u64(s) {
        Some(n) => if n <= 65535 {
            Some(n as u16)
        } else {
            None
        },
        None => None,
    }
}

/// Once a prefix of the digits exceeds `u64::MAX`, so does the whole number.
proof fn lemma_too_large_stays_large(d: Seq<char>, prefix: Seq<char>, k: int)
    requires
        0 < k <= d.len(),
        prefix == d.subrange(0, k),
        forall|i: int| 0 <= i < d.len() ==> is_digit_char(#[trigger] d[i]),
        decimal_value(prefix) > u64::MAX,
    ensures
        decimal_value(d) > u64::MAX,
    decreases d.len() - k,
{
    if k < d.len() {
        let next = d.subrange(0, k + 1);
        assert(next.drop_last() == prefix);
        lemma_too_large_stays_large(d, next, k + 1);
    } else {
        assert(prefix == d);
    }
}

/// Reading of an id path segment: the `i64` with the bits of the decimal `u64`.
pub open spec fn parse_i64_spec(s: Seq<char>, r: Result<i64, AppError>) -> bool {
    match parse_u64_spec(s) {
        Some(v) => r == Ok::<i64, AppError>(v as i64),
        None => r is Err && is_bad_request(r->Err_0, "identifiant invalide"@),
    }
}

/// Parses a snowflake id (decimal `u64` string) into the `i64` stored in the database.
pub fn parse_i64(s: &str) -> (r: Result<i64, AppError>)
    ensures
        parse_i64_spec(s@, r),
{
    match parse_u64(s) {
        Some(v) => Ok(v as i64),
        None => Err(AppError::bad_request("identifiant invalide")),
    }
}

/// A permission set written as a decimal string (`0` when unreadable).
pub fn parse_permissions(s: &str) -> (r: u64)
    ensures
        r == match parse_u64_spec(s@) {
            Some(v) => v,
            None => 0,
        },
{
    match parse_u64(s) {
        Some(v) => v,
        None => 0,
    }
}

/// Decimal digit character of `d` (`0 <= d <= 9`).
pub open spec fn digit_char(d: int) -> char {
    ('0' as int + d) as char
}

/// Decimal writing of `n`, without leading zeros.
pub open spec fn decimal_text(n: nat) -> Seq<char>
    decreases n,
{
    if n < 10 {
        seq![digit_char(n as int)]
    } else {
        decimal_text(n / 10).push(digit_char((n % 10) as int))
    }
}

/// Writes `n` in decimal.
pub fn decimal_string(n: u64) -> (r: String)
    ensures
        r@ == decimal_text(n as nat),
{
    let mut digits: Vec<char> = Vec::new();
    let mut m: u64 = n;
    loop
        invariant_except_break
            decimal_text(n as nat) == decimal_text(m as nat) + digits@.reverse(),
        ensures
            decimal_text(n as nat) == digits@.reverse(),
        decreases m,
    {
        let d = m % 10;
        let c = ((48u8) + (d as u8)) as char;
        assert(c == digit_char(d as int));
        if m < 10 {
            let ghost old_digits = digits@;
            digits.push(c);
            assert(decimal_text(m as nat) == seq![c]);
            assert(digits@.reverse() =~= seq![c] + old_digits.reverse());
            break;
        }
        assert(decimal_text(m as nat) == decimal_text((m / 10) as nat).push(c));
        let ghost old_digits = digits@;
        digits.push(c);
        assert(digits@.reverse() =~= seq![c] + old_digits.reverse());
        assert(decimal_text(m as nat) + old_digits.reverse() =~= decimal_text((m / 10) as nat)
            + digits@.reverse());
        m = m / 10;
    }
    let mut out: Vec<char> = Vec::new();
    let mut i: usize = digits.len();
    while i > 0
        invariant
            i <= digits@.len(),
            out@ == digits@.subrange(i as int, digits@.len() as int).reverse(),
        decreases i,
    {
        i = i - 1;
        let ghost before = out@;
        out.push(digits[i]);
        assert(digits@.subrange(i as int, digits@.len() as int).reverse() =~= before.push(
            digits@[i as int],
        ));
    }
    assert(digits@.subrange(0, digits@.len() as int) == digits@);
    assert(out@ == decimal_text(n as nat));
    string_from_chars(&out)
}

/// Decimal writing of the signed `n`: a `-` before the digits of a negative number.
pub open spec fn signed_decimal_text(n: int) -> Seq<char> {
    if n < 0 {
        seq!['-'] + decimal_text((-n) as nat)
    } else {
        decimal_text(n as nat)
    }
}

/// Writes the signed `n` in decimal.
pub fn decimal_string_i64(n: i64) -> (r: String)
    ensures
        r@ == signed_decimal_text(n as int),
{
    if n < 0 {
        let m: u64 = (0i128 - n as i128) as u64;
        let digits = decimal_string(m);
        let r = crate::text::concat("-", digits.as_str());
        proof {
            reveal_strlit("-");
        }
        r
    } else {
        decimal_string(n as u64)
    }
}

/// Reading of `s` as an `i64`: an optional sign, then one or more digits whose signed
/// value fits.
pub open spec fn parse_signed_spec(s: Seq<char>) -> Option<i64> {
    if s.len() > 0 && s[0] == '-' {
        let d = s.drop_first();
        if d.len() > 0 && (forall|i: int| 0 <= i < d.len() ==> is_digit_char(#[trigger] d[i]))
            && decimal_value(d) <= 0x8000_0000_0000_0000 {
            Some((-decimal_value(d)) as i64)
        } else {
            None
        }
    } else {
        let d = unsigned_digits(s);
        if d.len() > 0 && (forall|i: int| 0 <= i < d.len() ==> is_digit_char(#[trigger] d[i]))
            && decimal_value(d) <= i64::MAX {
            Some(decimal_value(d) as i64)
        } else {
            None
        }
    }
}

/// Reads `s` as a decimal `i64` (see [`parse_signed_spec`]).
pub fn parse_signed(s: &str) -> (r: Option<i64>)
    ensures
        r == parse_signed_spec(s@),
{
    let c = chars_of(s);
    if c.len() > 0 && c[0] == '-' {
        if c.len() == 1 || c[1] == '+' {
            proof {
                if c@.len() > 1 {
                    assert(s@.drop_first()[0] == c@[1]);
                    assert(!is_digit_char(s@.drop_first()[0]));
                }
            }
            return None;
        }
        let rest = crate::text::string_from_range(&c, 1, c.len());
        proof {
            assert(rest@ =~= s@.drop_first());
            let d = s@.drop_first();
            assert(unsigned_digits(d) == d);
            if forall|i: int| 0 <= i < d.len() ==> is_digit_char(#[trigger] d[i]) {
                lemma_decimal_value_nonneg(d);
            }
        }
        match parse_u64(rest.as_str()) {
            Some(v) => if v <= 0x8000_0000_0000_0000u64 {
                Some((0i128 - v as i128) as i64)
            } else {
                None
            },
            None => None,
        }
    } else {
        proof {
            let d = unsigned_digits(s@);
            if forall|i: int| 0 <= i < d.len() ==> is_digit_char(#[trigger] d[i]) {
                lemma_decimal_value_nonneg(d);
            }
        }
        match parse_u64(s) {
            Some(v) => if v <= 0x7FFF_FFFF_FFFF_FFFFu64 {
                Some(v as i64)
            } else {
                None
            },
            None => None,
        }
    }
}

} // verus!
