//! Float literal recognizer: an optional `+` or `-` sign, one or more
//! integer-part digits, a literal `.`, then zero or more fractional digits,
//! with surrounding whitespace skipped. Missing fractional digits are read
//! as `0`. A bare integer without a `.` is a mismatch: the dispatcher falls
//! back to the integer recognizer.

use vstd::prelude::*;
use vstd::string::{StringExecFns, StrSliceExecFns};

use crate::atom::{atom_result_view, AtomModel, AtomType, FloatLit};
use crate::scan::{run_end, skip_ws, skip_ws_from, CharClass, class_run_end};

verus! {

/// What the float recognizer consumes and yields at position `i`.
pub open spec fn spec_float(s: Seq<char>, i: int) -> Option<(AtomModel, int)> {
    let j = skip_ws(s, i);
    let neg = j < s.len() && s[j] == '-';
    let d0 = if j < s.len() && (s[j] == '+' || s[j] == '-') {
        j + 1
    } else {
        j
    };
    let d1 = run_end(s, d0, CharClass::Digit);
    if d1 > d0 && d1 < s.len() && s[d1] == '.' {
        let f1 = run_end(s, d1 + 1, CharClass::Digit);
        let frac = if f1 > d1 + 1 {
            s.subrange(d1 + 1, f1)
        } else {
            seq!['0']
        };
        Some(
            (
                AtomModel::Float { negative: neg, whole: s.subrange(d0, d1), frac },
                skip_ws(s, f1),
            ),
        )
    } else {
        None
    }
}

/// Recognize a float literal at `from`.
pub fn parse(s: &str, from: usize) -> (r: Option<(AtomType, usize)>)
    requires
        from as int <= s@.len(),
    ensures
        atom_result_view(r) == spec_float(s@, from as int),
{
    let j = skip_ws_from(s, from);
    let n = s.unicode_len();
    let mut neg = false;
    let mut d0 = j;
    if j < n {
        let c = s.get_char(j);
        if c == '+' || c == '-' {
            neg = c == '-';
            d0 = j + 1;
        }
    }
    let d1 = class_run_end(s, d0, CharClass::Digit);
    if d1 > d0 && d1 < n && s.get_char(d1) == '.' {
        let f1 = class_run_end(s, d1 + 1, CharClass::Digit);
        let whole = String::from_str(s.substring_char(d0, d1));
        let frac = if f1 > d1 + 1 {
            String::from_str(s.substring_char(d1 + 1, f1))
        } else {
            let z = String::from_str("0");
            proof {
                reveal_strlit("0");
                assert(z@ =~= seq!['0']);
            }
            z
        };
        let p = skip_ws_from(s, f1);
        Some((AtomType::Float(FloatLit { negative: neg, whole, frac }), p))
    } else {
        None
    }
}

} // verus!
