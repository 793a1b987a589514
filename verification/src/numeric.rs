//! Decimal rendering of the random tokens and identifiers, and decimal
//! parsing of a session identifier presented in a cookie.

use vstd::prelude::*;
use crate::strutil::push_char;

verus! {

/// The decimal digit character for `d` in `0..=9`.
pub open spec fn digit_char(d: int) -> char {
    ((48 + d) as u8) as char
}

/// The decimal rendering of a non-negative integer, without sign or
/// leading zeros (`0` renders as `"0"`).
pub open spec fn spec_decimal(n: int) -> Seq<char>
    recommends
        n >= 0,
    decreases n,
{
    if n < 10 {
        seq![digit_char(n)]
    } else {
        spec_decimal(n / 10).push(digit_char(n % 10))
    }
}

/// Render `n` in decimal.
pub fn u128_to_decimal(n: u128) -> (r: String)
    ensures
        r@ == spec_decimal(n as int),
{
    let mut digits: Vec<char> = Vec::new();
    let mut m: u128 = n;
    while m >= 10
        invariant
            spec_decimal(n as int) =~= spec_decimal(m as int) + digits@.reverse(),
        decreases m,
    {
        let d: u8 = (m % 10) as u8;
        let c: char = (48 + d) as char;
        proof {
            assert(c == digit_char((m as int) % 10));
            assert(spec_decimal(m as int) == spec_decimal((m as int) / 10).push(c));
            assert(digits@.push(c).reverse() =~= seq![c] + digits@.reverse());
            assert(spec_decimal((m as int) / 10) + digits@.push(c).reverse() =~= spec_decimal(
                m as int,
            ) + digits@.reverse());
            assert((m as int) / 10 == (m / 10) as int);
        }
        digits.push(c);
        m = m / 10;
    }
    let d: u8 = (m % 10) as u8;
    let c: char = (48 + d) as char;
    proof {
        assert(c == digit_char(m as int));
        assert(digits@.push(c).reverse() =~= seq![c] + digits@.reverse());
        assert(spec_decimal(n as int) =~= digits@.push(c).reverse());
    }
    digits.push(c);
    let k: usize = digits.len();
    let mut r = String::new();
    let mut i: usize = 0;
    while i < k
        invariant
            k == digits@.len(),
            i <= k,
            r@ =~= digits@.reverse().subrange(0, i as int),
        decreases k - i,
    {
        push_char(&mut r, digits[k - 1 - i]);
        proof {
            assert(r@ =~= digits@.reverse().subrange(0, i + 1 as int));
        }
        i = i + 1;
    }
    proof {
        assert(digits@.reverse().subrange(0, k as int) =~= digits@.reverse());
    }
    r
}

/// Render `n` in decimal.
pub fn u64_to_decimal(n: u64) -> (r: String)
    ensures
        r@ == spec_decimal(n as int),
{
    u128_to_decimal(n as u128)
}

/// `c` is a decimal digit.
pub open spec fn is_digit(c: char) -> bool {
    '0' <= c && c <= '9'
}

/// The numeric value of a digit character.
pub open spec fn digit_val(c: char) -> int {
    (c as u32) - 48
}

/// Every character of `s` is a decimal digit.
pub open spec fn all_digits(s: Seq<char>) -> bool {
    forall|i: int| 0 <= i < s.len() ==> is_digit(#[trigger] s[i])
}

/// The integer value of a digit string, most significant digit first.
pub open spec fn spec_digits_val(s: Seq<char>) -> int
    decreases s.len(),
{
    if s.len() == 0 {
        0
    } else {
        spec_digits_val(s.drop_last()) * 10 + digit_val(s.last())
    }
}

pub proof fn lemma_digits_val_nonneg(s: Seq<char>)
    requires
        all_digits(s),
    ensures
        spec_digits_val(s) >= 0,
    decreases s.len(),
{
    if s.len() > 0 {
        assert(all_digits(s.drop_last())) by {
            assert(forall|i: int|
                0 <= i < s.len() - 1 ==> #[trigger] s.drop_last()[i] == s[i]);
        }
        lemma_digits_val_nonneg(s.drop_last());
        assert(spec_digits_val(s.drop_last()) * 10 >= 0) by (nonlinear_arith)
            requires
                spec_digits_val(s.drop_last()) >= 0,
        ;
    }
}

/// The value of a digit string is at least the value of any of its
/// prefixes.
pub proof fn lemma_digits_val_prefix(s: Seq<char>, i: int)
    requires
        all_digits(s),
        0 <= i <= s.len(),
    ensures
        spec_digits_val(s) >= spec_digits_val(s.subrange(0, i)),
    decreases s.len() - i,
{
    if i == s.len() {
        assert(s.subrange(0, i) =~= s);
    } else {
        lemma_digits_val_prefix(s, i + 1);
        let p = s.subrange(0, i + 1);
        assert(p.drop_last() =~= s.subrange(0, i));
        assert(all_digits(s.subrange(0, i))) by {
            assert(forall|j: int|
                0 <= j < i ==> #[trigger] s.subrange(0, i)[j] == s[j]);
        }
        lemma_digits_val_nonneg(s.subrange(0, i));
        assert(spec_digits_val(p) >= spec_digits_val(s.subrange(0, i))) by (nonlinear_arith)
            requires
                spec_digits_val(p) == spec_digits_val(s.subrange(0, i)) * 10 + digit_val(p.last()),
                spec_digits_val(s.subrange(0, i)) >= 0,
                digit_val(p.last()) >= 0,
        ;
    }
}

/// The digit part of `s`: everything after one optional leading `+`.
pub open spec fn spec_u64_digits(s: Seq<char>) -> Seq<char> {
    if s.len() >= 1 && s[0] == '+' {
        s.drop_first()
    } else {
        s
    }
}

/// The value `s` parses to as an unsigned 64-bit decimal integer: one
/// optional `+` sign, then at least one digit, value within range.
pub open spec fn spec_parse_u64(s: Seq<char>) -> Option<u64> {
    let t = spec_u64_digits(s);
    if t.len() > 0 && all_digits(t) && spec_digits_val(t) <= u64::MAX as int {
        Some(spec_digits_val(t) as u64)
    } else {
        None
    }
}

/// Parse a decimal unsigned 64-bit integer.
pub fn parse_u64(s: &str) -> (r: Option<u64>)
    ensures
        r == spec_parse_u64(s@),
{
    let n: usize = s.unicode_len();
    let start: usize = if n >= 1 && s.get_char(0) == '+' {
        1
    } else {
        0
    };
    let t = s.substring_char(start, n);
    proof {
        assert(t@ =~= spec_u64_digits(s@));
    }
    let m: usize = t.unicode_len();
    if m == 0 {
        return None;
    }
    let mut acc: u64 = 0;
    let mut i: usize = 0;
    while i < m
        invariant
            m == t@.len(),
            t@ == spec_u64_digits(s@),
            i <= m,
            m > 0,
            all_digits(t@.subrange(0, i as int)),
            acc == spec_digits_val(t@.subrange(0, i as int)),
        decreases m - i,
    {
        let c = t.get_char(i);
        if !('0' <= c && c <= '9') {
            return None;
        }
        let d: u64 = ((c as u32) - 48) as u64;
        let wide: u128 = (acc as u128) * 10 + (d as u128);
        proof {
            let p = t@.subrange(0, i + 1 as int);
            assert(p.drop_last() =~= t@.subrange(0, i as int));
            assert(all_digits(p)) by {
                assert(forall|j: int| 0 <= j <= i ==> #[trigger] p[j] == t@[j]);
            }
            assert(spec_digits_val(p) == wide as int);
        }
        if wide > u64::MAX as u128 {
            proof {
                if all_digits(t@) {
                    lemma_digits_val_prefix(t@, i + 1);
                }
            }
            return None;
        }
        acc = wide as u64;
        i = i + 1;
    }
    proof {
        assert(t@.subrange(0, m as int) =~= t@);
    }
    Some(acc)
}

} // verus!
