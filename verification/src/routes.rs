//! Route-path parsing for the update endpoint.
//!
//! An update request addresses `/{id}`: one slash followed by decimal
//! digits and nothing else. Any other path does not route to a comment.

use vstd::prelude::*;

verus! {

/// True of a non-empty byte sequence of ASCII decimal digits.
pub open spec fn is_digits(s: Seq<u8>) -> bool {
    s.len() > 0 && forall|i: int| 0 <= i < s.len() ==> 48 <= #[trigger] s[i] <= 57
}

/// The number the digits spell in base ten.
pub open spec fn digits_value(s: Seq<u8>) -> int
    decreases s.len(),
{
    if s.len() == 0 {
        0
    } else {
        digits_value(s.drop_last()) * 10 + (s.last() - 48)
    }
}

/// The comment id a path addresses: a slash followed only by digits.
pub open spec fn path_id(p: Seq<u8>) -> Option<int> {
    if p.len() >= 2 && p[0] == 47 && is_digits(p.skip(1)) {
        Option::Some(digits_value(p.skip(1)))
    } else {
        Option::None
    }
}

/// Ten to the given power.
pub open spec fn pow10(n: nat) -> int
    decreases n,
{
    if n == 0 {
        1
    } else {
        10 * pow10((n - 1) as nat)
    }
}

proof fn lemma_pow10_mono(a: nat, b: nat)
    requires
        a <= b,
    ensures
        0 < pow10(a) <= pow10(b),
    decreases b,
{
    if b > 0 {
        if a == b {
            lemma_pow10_mono((a - 1) as nat, (b - 1) as nat);
        } else {
            lemma_pow10_mono(a, (b - 1) as nat);
        }
    }
}

/// Parses the id from an update path. Accepts a slash followed by up to
/// eighteen digits; a path that addresses no comment, or one whose digit
/// run is longer than eighteen bytes, parses to nothing.
pub fn parse_comment_path(path: &[u8]) -> (r: Option<i64>)
    ensures
        match r {
            Some(v) => path_id(path@) == Some(v as int) && 0 <= v,
            None => path_id(path@) is None || path@.len() > 19,
        },
{
    if path.len() < 2 || path.len() > 19 {
        return None;
    }
    if path[0] != 47 {
        return None;
    }
    let ghost digits = path@.skip(1);
    let mut acc: i64 = 0;
    let mut i: usize = 1;
    proof {
        assert(digits =~= path@.subrange(1, path@.len() as int));
        lemma_pow10_mono(0, 0);
    }
    while i < path.len()
        invariant
            1 <= i <= path@.len() <= 19,
            0 <= acc,
            forall|j: int| 1 <= j < i ==> 48 <= #[trigger] path@[j] <= 57,
            acc == digits_value(path@.subrange(1, i as int)),
            acc < pow10((i - 1) as nat),
        decreases path@.len() - i,
    {
        let b = path[i];
        if b < 48 || b > 57 {
            proof {
                assert(path@.skip(1)[i - 1] == path@[i as int]);
            }
            return None;
        }
        proof {
            assert(path@.subrange(1, i + 1 as int).drop_last() =~= path@.subrange(1, i as int));
            assert(path@.subrange(1, i + 1 as int).last() == path@[i as int]);
            lemma_pow10_mono(i as nat, 18);
            assert(pow10(18) == 1000000000000000000) by {
                reveal_with_fuel(pow10, 19);
            }
        }
        acc = acc * 10 + ((b - 48) as i64);
        i = i + 1;
    }
    proof {
        assert(path@.subrange(1, path@.len() as int) =~= path@.skip(1));
    }
    Some(acc)
}

} // verus!
