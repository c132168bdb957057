//! Validated column letters of A1 notation.
use vstd::prelude::*;

use crate::column::{
    all_column_letters, dec_to_string_as_base26, is_u32_column_code, lemma_rank_nonneg,
    lemma_rank_of_letters, lemma_rank_prefix, letters_of, rank_of, string_to_dec_as_base26,
};

verus! {

/// Why text is not a column code.
#[derive(Debug, Clone, PartialEq, Eq)]
pub enum LettersError {
    /// The text holds a character that is not an ASCII letter.
    NonAlphanumeric(String),
    /// The text is empty.
    EmptyString,
    /// The column number of the text does not fit in a `u32`.
    OutOfRange(String),
}

/// An ASCII letter of either case.
pub open spec fn is_ascii_letter(c: char) -> bool {
    ('A' <= c && c <= 'Z') || ('a' <= c && c <= 'z')
}

/// The upper-case form of an ASCII letter; other characters are kept.
pub open spec fn ascii_upper(c: char) -> char {
    if 'a' <= c && c <= 'z' {
        (c as int - 32) as char
    } else {
        c
    }
}

/// Every character upper-cased.
pub open spec fn upper_seq(s: Seq<char>) -> Seq<char> {
    Seq::new(s.len(), |i: int| ascii_upper(s[i]))
}

/// A column of A1 notation, held as its 1-based number (`A` is 1, `AA` is
/// 27). Its view is that number; its text is `letters_of(view)`.
#[derive(Debug, Clone, Copy, PartialEq, Eq, Hash, Structural)]
pub struct Letters {
    rank: u32,
}

impl View for Letters {
    type V = nat;

    closed spec fn view(&self) -> nat {
        self.rank as nat
    }
}

impl Letters {
    #[verifier::type_invariant]
    spec fn inv(self) -> bool {
        self.rank >= 1
    }

    /// Letters from upper-case column text such as `"AB"`.
    pub fn new(value: String) -> (r: Letters)
        requires
            is_u32_column_code(value@),
        ensures
            r@ == rank_of(value@),
    {
        proof {
            lemma_rank_nonneg(value@);
        }
        let rank = string_to_dec_as_base26(value.as_str());
        Letters { rank }
    }

    /// The letters of column number `rank`.
    pub fn from_rank(rank: u32) -> (r: Letters)
        requires
            rank >= 1,
        ensures
            r@ == rank,
    {
        Letters { rank }
    }

    /// The column number, at least 1.
    pub fn rank(&self) -> (r: u32)
        ensures
            r == self@,
            r >= 1,
    {
        proof {
            use_type_invariant(self);
        }
        self.rank
    }

    /// The column text, such as `"AB"`.
    pub fn to_string(&self) -> (r: String)
        ensures
            r@ == letters_of(self@),
            is_u32_column_code(r@),
    {
        proof {
            use_type_invariant(self);
            lemma_rank_of_letters(self.rank as nat);
        }
        dec_to_string_as_base26(self.rank)
    }

    /// Parses column text, upper-casing ASCII letters: `"ab"` gives `AB`.
    pub fn parse(value: &str) -> (r: Result<Letters, LettersError>)
        ensures
            value@.len() == 0 <==> r == Err::<Letters, LettersError>(LettersError::EmptyString),
            r matches Err(LettersError::NonAlphanumeric(t)) ==> t@ == value@,
            r matches Err(LettersError::OutOfRange(t)) ==> t@ == value@,
            (r is Err && r != Err::<Letters, LettersError>(LettersError::EmptyString))
                <==> (r matches Err(LettersError::NonAlphanumeric(_)) || r matches Err(
                LettersError::OutOfRange(_)
            )),
            r matches Err(LettersError::NonAlphanumeric(_)) <==> (value@.len() > 0 && exists|i: int|
                0 <= i < value@.len() && !is_ascii_letter(#[trigger] value@[i])),
            r matches Ok(l) ==> l@ == rank_of(upper_seq(value@)),
            r is Ok <==> (value@.len() > 0 && (forall|i: int|
                0 <= i < value@.len() ==> is_ascii_letter(#[trigger] value@[i])) && rank_of(
                upper_seq(value@),
            ) <= u32::MAX),
    {
        let len = value.unicode_len();
        if len == 0 {
            return Err(LettersError::EmptyString);
        }
        let mut i: usize = 0;
        while i < len
            invariant
                len == value@.len(),
                0 <= i <= len,
                forall|j: int| 0 <= j < i ==> is_ascii_letter(#[trigger] value@[j]),
            decreases len - i,
        {
            let c = value.get_char(i);
            if !(('A' <= c && c <= 'Z') || ('a' <= c && c <= 'z')) {
                return Err(LettersError::NonAlphanumeric(value.to_owned()));
            }
            i = i + 1;
        }
        let ghost up = upper_seq(value@);
        assert(all_column_letters(up));
        let mut result: u64 = 0;
        let mut k: usize = 0;
        while k < len
            invariant
                len == value@.len(),
                up == upper_seq(value@),
                all_column_letters(up),
                forall|j: int| 0 <= j < len ==> is_ascii_letter(#[trigger] value@[j]),
                0 <= k <= len,
                result == rank_of(up.subrange(0, k as int)),
                result <= u32::MAX,
            decreases len - k,
        {
            let c = value.get_char(k);
            let u = if 'a' <= c && c <= 'z' {
                (c as u32) - 32
            } else {
                c as u32
            };
            proof {
                let p = up.subrange(0, k as int + 1);
                assert(p.drop_last() =~= up.subrange(0, k as int));
                assert(p.last() == up[k as int]);
                assert(u == up[k as int] as u32);
            }
            result = result * 26 + (u - 64) as u64;
            if result > 0xffff_ffffu64 {
                proof {
                    lemma_rank_prefix(up, k as int + 1);
                }
                return Err(LettersError::OutOfRange(value.to_owned()));
            }
            k = k + 1;
        }
        proof {
            assert(up.subrange(0, len as int) =~= up);
            lemma_rank_nonneg(up);
        }
        Ok(Letters { rank: result as u32 })
    }
}

impl core::ops::Add<u32> for Letters {
    type Output = Letters;

    /// The column `delta` places to the right: `Z + 1` is `AA`.
    fn add(self, delta: u32) -> (r: Letters) {
        proof {
            use_type_invariant(&self);
        }
        Letters { rank: self.rank + delta }
    }
}

impl vstd::std_specs::ops::AddSpecImpl<u32> for Letters {
    open spec fn obeys_add_spec() -> bool {
        true
    }

    open spec fn add_req(self, delta: u32) -> bool {
        self@ + delta <= u32::MAX
    }

    open spec fn add_spec(self, delta: u32) -> Letters {
        letters_with_rank(self@ + delta)
    }
}

impl core::ops::Sub<u32> for Letters {
    type Output = Letters;

    /// The column `delta` places to the left: `AA - 1` is `Z`.
    fn sub(self, delta: u32) -> (r: Letters) {
        Letters { rank: self.rank - delta }
    }
}

impl vstd::std_specs::ops::SubSpecImpl<u32> for Letters {
    open spec fn obeys_sub_spec() -> bool {
        true
    }

    open spec fn sub_req(self, delta: u32) -> bool {
        self@ > delta
    }

    open spec fn sub_spec(self, delta: u32) -> Letters {
        letters_with_rank(self@ - delta)
    }
}

impl<'a> core::ops::Sub<&'a Letters> for &'a Letters {
    type Output = i32;

    /// How many columns `self` lies to the right of `other` (negative when
    /// it lies to the left).
    fn sub(self, other: &'a Letters) -> (r: i32) {
        (self.rank as i64 - other.rank as i64) as i32
    }
}

impl<'a> vstd::std_specs::ops::SubSpecImpl<&'a Letters> for &'a Letters {
    open spec fn obeys_sub_spec() -> bool {
        true
    }

    open spec fn sub_req(self, other: &'a Letters) -> bool {
        i32::MIN <= self@ - other@ <= i32::MAX
    }

    open spec fn sub_spec(self, other: &'a Letters) -> i32 {
        (self@ - other@) as i32
    }
}

impl PartialOrd for Letters {
    /// Columns are ordered by their number: `Z < AA`.
    fn partial_cmp(&self, other: &Letters) -> (r: Option<core::cmp::Ordering>) {
        if self.rank < other.rank {
            Some(core::cmp::Ordering::Less)
        } else if self.rank > other.rank {
            Some(core::cmp::Ordering::Greater)
        } else {
            Some(core::cmp::Ordering::Equal)
        }
    }
}

impl vstd::std_specs::cmp::PartialOrdSpecImpl for Letters {
    open spec fn obeys_partial_cmp_spec() -> bool {
        true
    }

    open spec fn partial_cmp_spec(&self, other: &Letters) -> Option<core::cmp::Ordering> {
        Some(compare_int(self@ as int, other@ as int))
    }
}

/// The three-way comparison of two integers.
pub open spec fn compare_int(a: int, b: int) -> core::cmp::Ordering {
    if a < b {
        core::cmp::Ordering::Less
    } else if a > b {
        core::cmp::Ordering::Greater
    } else {
        core::cmp::Ordering::Equal
    }
}

/// The letters of column `rank`, for a rank of at least 1.
pub closed spec fn letters_with_rank(rank: int) -> Letters {
    Letters { rank: rank as u32 }
}

/// `letters_with_rank` gives the column asked for.
pub broadcast proof fn lemma_letters_with_rank(rank: int)
    requires
        1 <= rank <= u32::MAX,
    ensures
        (#[trigger] letters_with_rank(rank))@ == rank,
{
}

} // verus!
