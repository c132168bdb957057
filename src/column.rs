//! Column codes: bijective base-26 numerals over `A..=Z`, most significant
//! letter first, where `A` is 1 and `Z` is 26.
use vstd::prelude::*;

verus! {

/// `String::push` appends one character to the string.
pub assume_specification[ String::push ](s: &mut String, ch: char)
    ensures
        final(s)@ == old(s)@.push(ch),
;

/// One letter of a column code.
pub open spec fn is_column_letter(c: char) -> bool {
    'A' <= c && c <= 'Z'
}

/// The digit a letter stands for: `A` is 1, `Z` is 26.
pub open spec fn letter_digit(c: char) -> int {
    c as int - 'A' as int + 1
}

/// The letter that stands for digit `d` (1..=26).
pub open spec fn digit_letter(d: int) -> char {
    (d - 1 + 'A' as int) as char
}

/// A sequence made of column letters only (possibly empty).
pub open spec fn all_column_letters(s: Seq<char>) -> bool {
    forall|i: int| 0 <= i < s.len() ==> is_column_letter(#[trigger] s[i])
}

/// A non-empty column code.
pub open spec fn is_column_code(s: Seq<char>) -> bool {
    s.len() > 0 && all_column_letters(s)
}

/// The number a column code stands for.
pub open spec fn rank_of(s: Seq<char>) -> int
    decreases s.len(),
{
    if s.len() == 0 {
        0
    } else {
        rank_of(s.drop_last()) * 26 + letter_digit(s.last())
    }
}

/// The column code of a number; empty for zero.
pub open spec fn letters_of(n: nat) -> Seq<char>
    decreases n,
{
    if n == 0 {
        Seq::empty()
    } else {
        letters_of(((n - 1) / 26) as nat).push(digit_letter((n - 1) % 26 + 1))
    }
}

/// A column code whose number fits in a `u32`.
pub open spec fn is_u32_column_code(s: Seq<char>) -> bool {
    is_column_code(s) && rank_of(s) <= u32::MAX
}

/// Column codes stand for non-negative numbers, and non-empty ones for
/// positive numbers.
pub proof fn lemma_rank_nonneg(s: Seq<char>)
    requires
        all_column_letters(s),
    ensures
        rank_of(s) >= 0,
        s.len() > 0 ==> rank_of(s) >= 1,
    decreases s.len(),
{
    if s.len() > 0 {
        lemma_rank_nonneg(s.drop_last());
    }
}

/// The number of a prefix never exceeds the number of the whole code.
pub proof fn lemma_rank_prefix(s: Seq<char>, i: int)
    requires
        all_column_letters(s),
        0 <= i <= s.len(),
    ensures
        rank_of(s.subrange(0, i)) <= rank_of(s),
    decreases s.len() - i,
{
    if i < s.len() {
        let p = s.subrange(0, i + 1);
        assert(p.drop_last() =~= s.subrange(0, i));
        lemma_rank_nonneg(s.subrange(0, i));
        lemma_rank_prefix(s, i + 1);
    } else {
        assert(s.subrange(0, i) =~= s);
    }
}

/// Decoding the code of a positive number gives the number back, and that
/// code is a valid column code.
pub proof fn lemma_rank_of_letters(n: nat)
    ensures
        rank_of(letters_of(n)) == n,
        n >= 1 ==> is_column_code(letters_of(n)),
        all_column_letters(letters_of(n)),
    decreases n,
{
    if n > 0 {
        let q = ((n - 1) / 26) as nat;
        let r = (n - 1) % 26;
        lemma_rank_of_letters(q);
        let s = letters_of(n);
        assert(s.drop_last() =~= letters_of(q));
        assert(letter_digit(digit_letter(r + 1)) == r + 1);
        assert(n - 1 == q * 26 + r) by (nonlinear_arith)
            requires
                q == (n - 1) / 26,
                r == (n - 1) % 26,
                n >= 1,
        ;
        assert forall|i: int| 0 <= i < s.len() implies is_column_letter(#[trigger] s[i]) by {
            if i < s.len() - 1 {
                assert(s[i] == letters_of(q)[i]);
            }
        }
    }
}

/// Encoding the number of a column code gives the code back.
pub proof fn lemma_letters_of_rank(s: Seq<char>)
    requires
        all_column_letters(s),
    ensures
        letters_of(rank_of(s) as nat) == s,
    decreases s.len(),
{
    if s.len() == 0 {
        assert(letters_of(0) =~= s);
    } else {
        let p = s.drop_last();
        let d = letter_digit(s.last());
        lemma_rank_nonneg(p);
        lemma_letters_of_rank(p);
        let n = rank_of(s);
        let rp = rank_of(p);
        assert(n - 1 == rp * 26 + (d - 1));
        assert((n - 1) / 26 == rp && (n - 1) % 26 == d - 1) by (nonlinear_arith)
            requires
                n - 1 == rp * 26 + (d - 1),
                0 <= d - 1 < 26,
                rp >= 0,
        ;
        assert(digit_letter(d) == s.last());
        assert(letters_of(n as nat) =~= p.push(s.last()));
        assert(p.push(s.last()) =~= s);
    }
}

/// Reads a column code as its number: `"A"` is 1, `"Z"` is 26, `"AA"` is 27.
pub fn string_to_dec_as_base26(string: &str) -> (r: u32)
    requires
        all_column_letters(string@),
        rank_of(string@) <= u32::MAX,
    ensures
        r == rank_of(string@),
{
    let len = string.unicode_len();
    let mut result: u32 = 0;
    let mut i: usize = 0;
    while i < len
        invariant
            len == string@.len(),
            0 <= i <= len,
            all_column_letters(string@),
            rank_of(string@) <= u32::MAX,
            result == rank_of(string@.subrange(0, i as int)),
        decreases len - i,
    {
        let c = string.get_char(i);
        proof {
            let p = string@.subrange(0, i as int + 1);
            assert(p.drop_last() =~= string@.subrange(0, i as int));
            assert(p.last() == c);
            lemma_rank_prefix(string@, i as int + 1);
        }
        let digit = (c as u32) - ('A' as u32) + 1;
        result = result * 26 + digit;
        i = i + 1;
    }
    proof {
        assert(string@.subrange(0, len as int) =~= string@);
    }
    result
}

/// Writes a number as its column code: 1 is `"A"`, 27 is `"AA"`; zero gives
/// the empty string.
pub fn dec_to_string_as_base26(dec_number: u32) -> (r: String)
    ensures
        r@ == letters_of(dec_number as nat),
    decreases dec_number,
{
    if dec_number == 0 {
        String::new()
    } else {
        let n = dec_number - 1;
        let mut result = dec_to_string_as_base26(n / 26);
        let letter = ((n % 26) as u8 + 65u8) as char;
        result.push(letter);
        result
    }
}

} // verus!
