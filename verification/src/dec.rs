//! Decimal text for identifiers.
//!
//! Identifiers travel in textual form at the store's edges (command lines,
//! file names, scan output). This module pins down what a digit string
//! denotes and parses one into a `u64`.

use vstd::prelude::*;

verus! {

/// Is `c` one of the ten ASCII digits?
pub open spec fn is_digit(c: char) -> bool {
    48 <= c as u32 <= 57
}

/// The numeric value of one digit (zero for anything else).
pub open spec fn digit_val(c: char) -> nat {
    if is_digit(c) {
        (c as u32 - 48) as nat
    } else {
        0
    }
}

/// Is every character of `s` a digit?
pub open spec fn all_digits(s: Seq<char>) -> bool {
    forall|i: int| 0 <= i < s.len() ==> is_digit(#[trigger] s[i])
}

/// The number written by the digit string `s`, most significant digit first.
pub open spec fn dec_val(s: Seq<char>) -> nat
    decreases s.len(),
{
    if s.len() == 0 {
        0
    } else {
        dec_val(s.drop_last()) * 10 + digit_val(s.last())
    }
}

/// The number a digit string denotes is at least the number any of its
/// prefixes denotes.
pub proof fn lemma_dec_val_prefix(s: Seq<char>, i: int)
    requires
        0 <= i <= s.len(),
    ensures
        dec_val(s.take(i)) <= dec_val(s),
    decreases s.len() - i,
{
    if i < s.len() {
        assert(s.take(i + 1).drop_last() =~= s.take(i));
        assert(dec_val(s.take(i + 1)) == dec_val(s.take(i)) * 10 + digit_val(s.take(i + 1).last()));
        lemma_dec_val_prefix(s, i + 1);
    } else {
        assert(s.take(i) =~= s);
    }
}

/// Parses a whole string of decimal digits as a `u64`.
///
/// Returns `Some(v)` exactly when `s` is nonempty, consists wholly of digits,
/// and the number it writes fits in a `u64`.
pub fn parse_u64(s: &str) -> (r: Option<u64>)
    ensures
        match r {
            Some(v) => s@.len() > 0 && all_digits(s@) && dec_val(s@) == v,
            None => !(s@.len() > 0 && all_digits(s@) && dec_val(s@) <= u64::MAX),
        },
{
    let n = s.unicode_len();
    if n == 0 {
        return None;
    }
    let mut acc: u64 = 0;
    let mut i: usize = 0;
    while i < n
        invariant
            0 <= i <= n,
            n == s@.len(),
            all_digits(s@.take(i as int)),
            acc == dec_val(s@.take(i as int)),
        decreases n - i,
    {
        let c = s.get_char(i);
        let cv = c as u32;
        if cv < 48 || cv > 57 {
            assert(!all_digits(s@)) by {
                assert(!is_digit(s@[i as int]));
            }
            return None;
        }
        let d = (cv - 48) as u64;
        proof {
            assert(s@.take(i + 1).drop_last() =~= s@.take(i as int));
            assert(s@.take(i + 1).last() == s@[i as int]);
        }
        let wide = match acc.checked_mul(10) {
            Some(w) => w,
            None => {
                proof {
                    assert(dec_val(s@.take(i + 1)) > u64::MAX);
                    lemma_dec_val_prefix(s@, i + 1);
                }
                return None;
            },
        };
        acc = match wide.checked_add(d) {
            Some(w) => w,
            None => {
                proof {
                    assert(dec_val(s@.take(i + 1)) > u64::MAX);
                    lemma_dec_val_prefix(s@, i + 1);
                }
                return None;
            },
        };
        i = i + 1;
    }
    proof {
        assert(s@.take(n as int) =~= s@);
    }
    Some(acc)
}

} // verus!
