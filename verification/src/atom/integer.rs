//! Integer literal recognizer: an optional `+` or `-` sign, then one or more
//! decimal digits, with surrounding whitespace skipped. The literal must fit
//! a signed 64-bit integer; one that overflows is a mismatch, consuming
//! nothing.

use vstd::prelude::*;
use vstd::string::StrSliceExecFns;

use crate::atom::{atom_result_view, AtomModel, AtomType};
use crate::scan::{
    is_digit_char, run_end, skip_ws, skip_ws_from, CharClass, class_run_end, lemma_run_end,
};

verus! {

/// The numeric value of one decimal digit character.
pub open spec fn digit_val(c: char) -> int {
    c as u32 - '0' as u32
}

/// The numeric value of a string of decimal digits, most significant first.
pub open spec fn digits_val(d: Seq<char>) -> int
    decreases d.len(),
{
    if d.len() == 0 {
        0
    } else {
        digits_val(d.drop_last()) * 10 + digit_val(d.last())
    }
}

pub proof fn lemma_digits_val_nonneg(d: Seq<char>)
    requires
        forall|k: int| 0 <= k < d.len() ==> is_digit_char(#[trigger] d[k]),
    ensures
        digits_val(d) >= 0,
    decreases d.len(),
{
    if d.len() > 0 {
        lemma_digits_val_nonneg(d.drop_last());
    }
}

/// Appending digits never decreases the value.
pub proof fn lemma_digits_val_extend(s: Seq<char>, lo: int, a: int, b: int)
    requires
        0 <= lo <= a <= b <= s.len(),
        forall|k: int| lo <= k < b ==> is_digit_char(#[trigger] s[k]),
    ensures
        digits_val(s.subrange(lo, b)) >= digits_val(s.subrange(lo, a)),
    decreases b - a,
{
    if a < b {
        let d = s.subrange(lo, b);
        assert(d.drop_last() =~= s.subrange(lo, b - 1));
        assert(forall|k: int| 0 <= k < d.len() ==> is_digit_char(#[trigger] d[k]));
        lemma_digits_val_nonneg(d.drop_last());
        lemma_digits_val_extend(s, lo, a, b - 1);
    }
}

/// What the integer recognizer consumes and yields at position `i`.
pub open spec fn spec_integer(s: Seq<char>, i: int) -> Option<(AtomModel, int)> {
    let j = skip_ws(s, i);
    let neg = j < s.len() && s[j] == '-';
    let d0 = if j < s.len() && (s[j] == '+' || s[j] == '-') {
        j + 1
    } else {
        j
    };
    let d1 = run_end(s, d0, CharClass::Digit);
    if d1 > d0 {
        let v = if neg {
            -digits_val(s.subrange(d0, d1))
        } else {
            digits_val(s.subrange(d0, d1))
        };
        if -0x8000_0000_0000_0000 <= v && v <= 0x7fff_ffff_ffff_ffff {
            Some((AtomModel::Integer(v), skip_ws(s, d1)))
        } else {
            None
        }
    } else {
        None
    }
}

/// Compute the value of the digit run `s[lo..hi]`, or report that it exceeds
/// `u64::MAX`.
fn digits_to_u64(s: &str, lo: usize, hi: usize) -> (r: Option<u64>)
    requires
        lo <= hi,
        hi as int <= s@.len(),
        forall|k: int| lo <= k < hi ==> is_digit_char(#[trigger] s@[k]),
    ensures
        match r {
            Some(m) => m as int == digits_val(s@.subrange(lo as int, hi as int)),
            None => digits_val(s@.subrange(lo as int, hi as int)) > u64::MAX,
        },
{
    let mut acc: u64 = 0;
    let mut i = lo;
    proof {
        assert(s@.subrange(lo as int, lo as int) =~= Seq::<char>::empty());
    }
    loop
        invariant
            lo <= i <= hi,
            hi as int <= s@.len(),
            forall|k: int| lo <= k < hi ==> is_digit_char(#[trigger] s@[k]),
            acc as int == digits_val(s@.subrange(lo as int, i as int)),
        ensures
            i == hi,
            acc as int == digits_val(s@.subrange(lo as int, hi as int)),
        decreases hi - i,
    {
        if i == hi {
            break;
        }
        let c = s.get_char(i);
        assert(is_digit_char(c));
        let d = (c as u32 - '0' as u32) as u64;
        let ghost prev = s@.subrange(lo as int, i as int);
        let ghost cur = s@.subrange(lo as int, i as int + 1);
        proof {
            assert(cur.drop_last() =~= prev);
            assert(cur.last() == s@[i as int]);
        }
        let step = match acc.checked_mul(10) {
            Some(t) => t.checked_add(d),
            None => None,
        };
        match step {
            Some(next) => {
                acc = next;
                i = i + 1;
            },
            None => {
                proof {
                    lemma_digits_val_nonneg(prev);
                    assert(digits_val(cur) > u64::MAX);
                    lemma_digits_val_extend(s@, lo as int, i as int + 1, hi as int);
                }
                return None;
            },
        }
    }
    Some(acc)
}

/// Recognize an integer literal at `from`.
pub fn parse(s: &str, from: usize) -> (r: Option<(AtomType, usize)>)
    requires
        from as int <= s@.len(),
    ensures
        atom_result_view(r) == spec_integer(s@, from as int),
{
    let j = skip_ws_from(s, from);
    let n = s.unicode_len();
    let mut neg = false;
    let mut d0 = j;
    if j < n {
        let c = s.get_char(j);
        if c == '+' || c == '-' {
            neg = c == '-';
            d0 = j + 1;
        }
    }
    let d1 = class_run_end(s, d0, CharClass::Digit);
    if d1 == d0 {
        return None;
    }
    proof {
        lemma_run_end(s@, d0 as int, CharClass::Digit);
    }
    match digits_to_u64(s, d0, d1) {
        None => {
            proof {
                let m = digits_val(s@.subrange(d0 as int, d1 as int));
                assert(m > u64::MAX);
            }
            None
        },
        Some(m) => {
            if !neg && m <= 0x7fff_ffff_ffff_ffff {
                Some((AtomType::Integer(m as i64), skip_ws_from(s, d1)))
            } else if neg && m <= 0x7fff_ffff_ffff_ffff {
                Some((AtomType::Integer(-(m as i64)), skip_ws_from(s, d1)))
            } else if neg && m == 0x8000_0000_0000_0000 {
                Some((AtomType::Integer(i64::MIN), skip_ws_from(s, d1)))
            } else {
                None
            }
        },
    }
}

} // verus!
