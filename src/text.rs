//! Splitting text at a separator that occurs exactly once, and trimming
//! quotes.
use vstd::prelude::*;

verus! {

/// `sep` occurs in `s` at `p` and nowhere else.
pub open spec fn sole_at(s: Seq<char>, sep: char, p: int) -> bool {
    &&& 0 <= p < s.len()
    &&& s[p] == sep
    &&& forall|i: int| 0 <= i < s.len() && i != p ==> #[trigger] s[i] != sep
}

/// `sep` occurs in `s` exactly once.
pub open spec fn has_sole(s: Seq<char>, sep: char) -> bool {
    exists|p: int| sole_at(s, sep, p)
}

/// Where the one occurrence of `sep` stands.
pub open spec fn sole_position(s: Seq<char>, sep: char) -> int {
    choose|p: int| sole_at(s, sep, p)
}

/// What comes before the one occurrence of `sep`.
pub open spec fn before_sole(s: Seq<char>, sep: char) -> Seq<char> {
    s.subrange(0, sole_position(s, sep))
}

/// What comes after the one occurrence of `sep`.
pub open spec fn after_sole(s: Seq<char>, sep: char) -> Seq<char> {
    s.subrange(sole_position(s, sep) + 1, s.len() as int)
}

/// A separator occurs at most at one place.
pub proof fn lemma_sole_unique(s: Seq<char>, sep: char, p: int, q: int)
    requires
        sole_at(s, sep, p),
        sole_at(s, sep, q),
    ensures
        p == q,
{
    if p != q {
        assert(s[q] != sep);
    }
}

/// Finds the one occurrence of `sep` in `s`; `None` when `sep` occurs
/// there never or more than once.
pub fn find_sole(s: &str, sep: char) -> (r: Option<usize>)
    ensures
        r matches Some(p) ==> sole_at(s@, sep, p as int),
        r is None <==> !has_sole(s@, sep),
{
    let len = s.unicode_len();
    let mut first: Option<usize> = None;
    let mut i: usize = 0;
    while i < len
        invariant
            len == s@.len(),
            0 <= i <= len,
            first is None ==> forall|j: int| 0 <= j < i ==> #[trigger] s@[j] != sep,
            first matches Some(p) ==> p < i && s@[p as int] == sep && forall|j: int|
                0 <= j < i && j != p ==> #[trigger] s@[j] != sep,
        decreases len - i,
    {
        if s.get_char(i) == sep {
            match first {
                None => {
                    first = Some(i);
                },
                Some(p) => {
                    proof {
                        assert forall|q: int| !sole_at(s@, sep, q) by {
                            if sole_at(s@, sep, q) {
                                assert(q == p as int || s@[p as int] != sep);
                                assert(q == i as int || s@[i as int] != sep);
                            }
                        }
                    }
                    return None;
                },
            }
        }
        i = i + 1;
    }
    proof {
        if first is None {
            assert forall|q: int| !sole_at(s@, sep, q) by {
                if sole_at(s@, sep, q) {
                    assert(s@[q] != sep);
                }
            }
        }
    }
    first
}

/// `s` without its leading apostrophes.
pub open spec fn strip_leading_quotes(s: Seq<char>) -> Seq<char>
    decreases s.len(),
{
    if s.len() > 0 && s[0] == '\'' {
        strip_leading_quotes(s.drop_first())
    } else {
        s
    }
}

/// `s` without its trailing apostrophes.
pub open spec fn strip_trailing_quotes(s: Seq<char>) -> Seq<char>
    decreases s.len(),
{
    if s.len() > 0 && s.last() == '\'' {
        strip_trailing_quotes(s.drop_last())
    } else {
        s
    }
}

/// `s` without apostrophes at either end.
pub open spec fn trim_quotes(s: Seq<char>) -> Seq<char> {
    strip_trailing_quotes(strip_leading_quotes(s))
}

/// Removes the apostrophes at both ends of `s`: `'My Sheet'` gives
/// `My Sheet`.
pub fn trim_quotes_of(s: &str) -> (r: String)
    ensures
        r@ == trim_quotes(s@),
{
    let len = s.unicode_len();
    let mut a: usize = 0;
    assert(s@.subrange(0, len as int) =~= s@);
    while a < len && s.get_char(a) == '\''
        invariant
            len == s@.len(),
            0 <= a <= len,
            strip_leading_quotes(s@) == strip_leading_quotes(s@.subrange(a as int, len as int)),
        decreases len - a,
    {
        proof {
            assert(s@.subrange(a as int, len as int).drop_first() =~= s@.subrange(
                a as int + 1,
                len as int,
            ));
        }
        a = a + 1;
    }
    let ghost rest = s@.subrange(a as int, len as int);
    assert(strip_leading_quotes(rest) == rest);
    let mut b: usize = len;
    while b > a && s.get_char(b - 1) == '\''
        invariant
            len == s@.len(),
            0 <= a <= b <= len,
            rest == s@.subrange(a as int, len as int),
            strip_trailing_quotes(rest) == strip_trailing_quotes(
                s@.subrange(a as int, b as int),
            ),
        decreases b,
    {
        proof {
            assert(s@.subrange(a as int, b as int).drop_last() =~= s@.subrange(
                a as int,
                b as int - 1,
            ));
        }
        b = b - 1;
    }
    let inner = s.substring_char(a, b);
    inner.to_owned()
}

} // verus!
