//! Parsing of decimal amount strings.
//!
//! Amounts cross the request boundary as decimal strings and are parsed once,
//! here, into the canonical unsigned 128-bit integer. A parse accepts one
//! optional leading plus sign followed by at least one digit `'0'` through
//! `'9'` (code points 48 through 57) and nothing else, and rejects values
//! past `u128::MAX`.
use vstd::prelude::*;

verus! {

pub open spec fn is_digit(c: char) -> bool {
    48 <= c as int <= 57
}

pub open spec fn digit_val(c: char) -> int {
    c as int - 48
}

pub open spec fn all_digits(s: Seq<char>) -> bool {
    forall|i: int| 0 <= i < s.len() ==> is_digit(#[trigger] s[i])
}

/// The number the digit string denotes, most significant digit first.
pub open spec fn digits_val(s: Seq<char>) -> int
    decreases s.len(),
{
    if s.len() == 0 {
        0
    } else {
        digits_val(s.drop_last()) * 10 + digit_val(s.last())
    }
}

/// The digits of a decimal literal: everything after one optional leading
/// plus sign.
pub open spec fn digits_part(s: Seq<char>) -> Seq<char> {
    if s.len() > 0 && s[0] == '+' {
        s.drop_first()
    } else {
        s
    }
}

/// What parsing `s` as an unsigned 128-bit decimal yields: the value of its
/// digits where the digit part is nonempty, all digits, and in range;
/// nothing otherwise.
pub open spec fn parse_decimal(s: Seq<char>) -> Option<u128> {
    let d = digits_part(s);
    if d.len() > 0 && all_digits(d) && digits_val(d) <= u128::MAX {
        Some(digits_val(d) as u128)
    } else {
        None
    }
}

proof fn lemma_digits_val_nonneg(s: Seq<char>)
    requires
        all_digits(s),
    ensures
        digits_val(s) >= 0,
    decreases s.len(),
{
    if s.len() > 0 {
        assert(forall|i: int| 0 <= i < s.drop_last().len() ==> is_digit(#[trigger] s.drop_last()[i]));
        lemma_digits_val_nonneg(s.drop_last());
        assert(is_digit(s[s.len() - 1]));
    }
}

/// A digit string is worth at least any of its prefixes.
proof fn lemma_digits_val_prefix_le(s: Seq<char>, n: int)
    requires
        all_digits(s),
        0 <= n <= s.len(),
    ensures
        digits_val(s.take(n)) <= digits_val(s),
    decreases s.len() - n,
{
    if n == s.len() {
        assert(s.take(n) =~= s);
    } else {
        assert(s.take(n + 1).drop_last() =~= s.take(n));
        assert(s.take(n + 1).last() == s[n]);
        assert(forall|i: int| 0 <= i < n ==> is_digit(#[trigger] s.take(n)[i]));
        lemma_digits_val_nonneg(s.take(n));
        assert(is_digit(s[n]));
        assert(digits_val(s.take(n + 1)) == digits_val(s.take(n)) * 10 + digit_val(s[n]));
        lemma_digits_val_prefix_le(s, n + 1);
    }
}

/// Parse a decimal amount string into the canonical unsigned wide integer.
pub fn parse_u128(s: &str) -> (r: Option<u128>)
    ensures
        r == parse_decimal(s@),
{
    let n = s.unicode_len();
    let ghost d = digits_part(s@);
    let mut start: usize = 0;
    if n > 0 && s.get_char(0) == '+' {
        start = 1;
    }
    proof {
        assert(n == s@.len());
        assert(d.len() == n - start);
        assert(forall|j: int| 0 <= j < d.len() ==> #[trigger] d[j] == s@[j + start]);
    }
    if start >= n {
        return None;
    }
    let mut acc: u128 = 0;
    let mut i: usize = start;
    while i < n
        invariant
            start <= i <= n,
            n == s@.len(),
            d == digits_part(s@),
            d.len() == n - start,
            forall|j: int| 0 <= j < d.len() ==> #[trigger] d[j] == s@[j + start],
            all_digits(d.take(i - start)),
            acc == digits_val(d.take(i - start)),
        decreases n - i,
    {
        let c = s.get_char(i);
        let code = c as u32;
        if code < 48 || code > 57 {
            proof {
                assert(d[i - start] == s@[i as int]);
                assert(!is_digit(d[i - start]));
            }
            return None;
        }
        let digit = (code - 48) as u128;
        proof {
            assert(d.take(i - start + 1).drop_last() =~= d.take(i - start));
            assert(d.take(i - start + 1).last() == d[i - start]);
            assert(d[i - start] == s@[i as int]);
            assert(is_digit(d[i - start]));
            assert(digit == digit_val(d[i - start]));
            assert(digits_val(d.take(i - start + 1)) == acc * 10 + digit);
            assert(all_digits(d.take(i - start + 1)));
        }
        let overflowed: bool;
        let mut next: u128 = 0;
        match acc.checked_mul(10) {
            None => {
                overflowed = true;
            },
            Some(acc10) => {
                match acc10.checked_add(digit) {
                    None => {
                        overflowed = true;
                    },
                    Some(v) => {
                        overflowed = false;
                        next = v;
                    },
                }
            },
        }
        if overflowed {
            proof {
                assert(digits_val(d.take(i - start + 1)) > u128::MAX);
                if all_digits(d) {
                    lemma_digits_val_prefix_le(d, i - start + 1);
                    assert(digits_val(d) > u128::MAX);
                }
            }
            return None;
        }
        acc = next;
        i += 1;
    }
    proof {
        assert(d.take(n - start) =~= d);
    }
    Some(acc)
}

} // verus!
