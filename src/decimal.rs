//! Decimal numerals of row numbers.
use vstd::prelude::*;

verus! {

/// A decimal digit.
pub open spec fn is_digit(c: char) -> bool {
    '0' <= c && c <= '9'
}

/// A sequence made of decimal digits only (possibly empty).
pub open spec fn all_digits(s: Seq<char>) -> bool {
    forall|i: int| 0 <= i < s.len() ==> is_digit(#[trigger] s[i])
}

/// The number a digit sequence stands for, most significant digit first.
pub open spec fn decimal_value(s: Seq<char>) -> int
    decreases s.len(),
{
    if s.len() == 0 {
        0
    } else {
        decimal_value(s.drop_last()) * 10 + (s.last() as int - '0' as int)
    }
}

/// The shortest decimal numeral of `n`.
pub open spec fn decimal_of(n: nat) -> Seq<char>
    decreases n,
{
    if n < 10 {
        seq![(n + '0' as int) as char]
    } else {
        decimal_of(n / 10).push(((n % 10) + '0' as int) as char)
    }
}

/// Digit sequences stand for non-negative numbers.
pub proof fn lemma_decimal_nonneg(s: Seq<char>)
    requires
        all_digits(s),
    ensures
        decimal_value(s) >= 0,
    decreases s.len(),
{
    if s.len() > 0 {
        lemma_decimal_nonneg(s.drop_last());
    }
}

/// The number of a prefix never exceeds the number of the whole numeral.
pub proof fn lemma_decimal_prefix(s: Seq<char>, i: int)
    requires
        all_digits(s),
        0 <= i <= s.len(),
    ensures
        decimal_value(s.subrange(0, i)) <= decimal_value(s),
    decreases s.len() - i,
{
    if i < s.len() {
        let p = s.subrange(0, i + 1);
        assert(p.drop_last() =~= s.subrange(0, i));
        lemma_decimal_nonneg(s.subrange(0, i));
        lemma_decimal_prefix(s, i + 1);
    } else {
        assert(s.subrange(0, i) =~= s);
    }
}

/// Reads a run of decimal digits; `None` when its value exceeds `u32::MAX`.
pub fn parse_u32_digits(s: &str) -> (r: Option<u32>)
    requires
        all_digits(s@),
    ensures
        r matches Some(n) ==> n == decimal_value(s@),
        r is None <==> decimal_value(s@) > u32::MAX,
{
    let len = s.unicode_len();
    let mut result: u64 = 0;
    let mut i: usize = 0;
    while i < len
        invariant
            len == s@.len(),
            0 <= i <= len,
            all_digits(s@),
            result == decimal_value(s@.subrange(0, i as int)),
            result <= u32::MAX,
        decreases len - i,
    {
        let c = s.get_char(i);
        proof {
            let p = s@.subrange(0, i as int + 1);
            assert(p.drop_last() =~= s@.subrange(0, i as int));
            assert(p.last() == c);
        }
        result = result * 10 + ((c as u32) - 48) as u64;
        if result > 0xffff_ffffu64 {
            proof {
                lemma_decimal_prefix(s@, i as int + 1);
            }
            return None;
        }
        i = i + 1;
    }
    proof {
        assert(s@.subrange(0, len as int) =~= s@);
    }
    Some(result as u32)
}

/// Writes `n` in decimal without leading zeros.
pub fn u32_to_decimal(n: u32) -> (r: String)
    ensures
        r@ == decimal_of(n as nat),
    decreases n,
{
    let digit = ((n % 10) as u8 + 48u8) as char;
    if n < 10 {
        let mut s = String::new();
        s.push(digit);
        proof {
            assert(s@ =~= decimal_of(n as nat));
        }
        s
    } else {
        let mut s = u32_to_decimal(n / 10);
        s.push(digit);
        s
    }
}

/// The integer that text stands for: an optional `+` or `-` (the latter
/// only when `signed`), then one or more decimal digits.
pub open spec fn integer_text_value(s: Seq<char>, signed: bool) -> Option<int> {
    if s.len() > 0 && (s[0] == '+' || (signed && s[0] == '-')) {
        let d = s.drop_first();
        if d.len() > 0 && all_digits(d) {
            Some(
                if s[0] == '-' {
                    -decimal_value(d)
                } else {
                    decimal_value(d)
                },
            )
        } else {
            None
        }
    } else if s.len() > 0 && all_digits(s) {
        Some(decimal_value(s))
    } else {
        None
    }
}

/// Text stands for an integer from `lo` to `hi`.
pub open spec fn integer_text_in(s: Seq<char>, signed: bool, lo: int, hi: int) -> bool {
    integer_text_value(s, signed) matches Some(n) && lo <= n <= hi
}

/// Reads integer text (see `integer_text_value`) whose value lies from `lo`
/// to `hi`; `None` for any other text.
pub fn parse_integer(s: &str, signed: bool, lo: i128, hi: i128) -> (r: Option<i128>)
    requires
        -0x1_0000_0000_0000_0000 <= lo <= 0 <= hi <= 0x1_0000_0000_0000_0000,
    ensures
        r is Some <==> integer_text_in(s@, signed, lo as int, hi as int),
        r matches Some(n) ==> integer_text_value(s@, signed) == Some(n as int),
{
    let len = s.unicode_len();
    if len == 0 {
        return None;
    }
    let first = s.get_char(0);
    let negative = signed && first == '-';
    let k: usize = if first == '+' || negative {
        1
    } else {
        0
    };
    if k == len {
        return None;
    }
    let bound: i128 = if negative {
        -lo
    } else {
        hi
    };
    let ghost d = s@.subrange(k as int, len as int);
    assert(k == 1 ==> d =~= s@.drop_first());
    assert(k == 0 ==> d =~= s@);
    let mut acc: i128 = 0;
    let mut i: usize = k;
    while i < len
        invariant
            len == s@.len(),
            k <= i <= len,
            k < len,
            d == s@.subrange(k as int, len as int),
            k == 1 ==> d == s@.drop_first(),
            k == 0 ==> d == s@,
            (k == 1) == (s@[0] == '+' || (signed && s@[0] == '-')),
            k <= 1,
            negative == (signed && s@[0] == '-'),
            bound == (if negative { -lo } else { hi as int }),
            0 <= bound <= 0x1_0000_0000_0000_0000,
            all_digits(d.subrange(0, i - k)),
            acc == decimal_value(d.subrange(0, i - k)),
            0 <= acc <= bound,
        decreases len - i,
    {
        let c = s.get_char(i);
        if !('0' <= c && c <= '9') {
            proof {
                assert(d[i - k] == c);
                assert(!all_digits(d));
                if k == 0 {
                    assert(!all_digits(s@));
                }
            }
            return None;
        }
        proof {
            let p = d.subrange(0, i - k + 1);
            assert(p.drop_last() =~= d.subrange(0, i - k));
            assert(p.last() == c);
            assert(all_digits(p));
        }
        acc = acc * 10 + ((c as u32) - 48) as i128;
        if acc > bound {
            proof {
                if all_digits(d) {
                    lemma_decimal_prefix(d, i - k + 1);
                    assert(decimal_value(d) > bound);
                    if k == 0 {
                        assert(all_digits(s@));
                        assert(integer_text_value(s@, signed) == Some(decimal_value(d)));
                    }
                }
            }
            return None;
        }
        i = i + 1;
    }
    proof {
        assert(d.subrange(0, len - k) =~= d);
    }
    if negative {
        Some(-acc)
    } else {
        Some(acc)
    }
}

/// Whether `s` is exactly the text `lit`.
pub fn text_equals(s: &str, lit: &str) -> (r: bool)
    ensures
        r == (s@ == lit@),
{
    let len = s.unicode_len();
    if len != lit.unicode_len() {
        return false;
    }
    let mut i: usize = 0;
    while i < len
        invariant
            len == s@.len(),
            len == lit@.len(),
            0 <= i <= len,
            forall|j: int| 0 <= j < i ==> s@[j] == lit@[j],
        decreases len - i,
    {
        if s.get_char(i) != lit.get_char(i) {
            return false;
        }
        i = i + 1;
    }
    assert(s@ =~= lit@);
    true
}

} // verus!
