//! Symbol recognizers, tried in priority order: a global-variable symbol
//! (`*name*`), an arithmetic operator (`+ * / -` followed by whitespace),
//! then a regular symbol (a letter followed by alphanumerics, `-`, `_`
//! or `*`). A token that starts with a digit is never a symbol.

use vstd::prelude::*;
use vstd::string::{StringExecFns, StrSliceExecFns};

use crate::atom::{atom_result_view, AtomModel, AtomType};
use crate::scan::{
    is_alpha_char, is_ws_char, run_end, skip_ws, skip_ws_from, CharClass, class_run_end,
};

verus! {

/// What the global-variable recognizer consumes and yields at position `i`:
/// a `*`, one or more alphanumeric, `-` or `_` characters, and a closing
/// `*`, all kept in the symbol text.
pub open spec fn spec_global_vars(s: Seq<char>, i: int) -> Option<(AtomModel, int)> {
    let j = skip_ws(s, i);
    if j < s.len() && s[j] == '*' {
        let m = run_end(s, j + 1, CharClass::GlobalChar);
        if m > j + 1 && m < s.len() && s[m] == '*' {
            Some((AtomModel::Symbol(s.subrange(j, m + 1)), skip_ws(s, m + 1)))
        } else {
            None
        }
    } else {
        None
    }
}

pub open spec fn is_arith_char(c: char) -> bool {
    c == '+' || c == '*' || c == '/' || c == '-'
}

/// What the arithmetic-operator recognizer consumes and yields at position
/// `i`: one of `+ * / -`, which must be followed by at least one whitespace
/// character. That requirement keeps a signed number's `+` or `-` prefix
/// from being read as an operator.
pub open spec fn spec_arithmetics(s: Seq<char>, i: int) -> Option<(AtomModel, int)> {
    let j = skip_ws(s, i);
    if j + 1 < s.len() && is_arith_char(s[j]) && is_ws_char(s[j + 1]) {
        Some((AtomModel::Symbol(s.subrange(j, j + 1)), skip_ws(s, j + 1)))
    } else {
        None
    }
}

/// What the regular-symbol recognizer consumes and yields at position `i`:
/// a leading ASCII letter, then the maximal run of alphanumeric, `-`, `_`
/// or `*` characters.
pub open spec fn spec_regular_symbols(s: Seq<char>, i: int) -> Option<(AtomModel, int)> {
    let j = skip_ws(s, i);
    if j < s.len() && is_alpha_char(s[j]) {
        let m = run_end(s, j + 1, CharClass::SymbolChar);
        Some((AtomModel::Symbol(s.subrange(j, m)), skip_ws(s, m)))
    } else {
        None
    }
}

/// The symbol recognizer: global-variable form, then arithmetic operator,
/// then regular symbol.
pub open spec fn spec_symbol(s: Seq<char>, i: int) -> Option<(AtomModel, int)> {
    match spec_global_vars(s, i) {
        Some(r) => Some(r),
        None => match spec_arithmetics(s, i) {
            Some(r) => Some(r),
            None => spec_regular_symbols(s, i),
        },
    }
}

/// Recognize a global-variable symbol such as `*my-var*` at `from`.
pub fn parse_global_vars(s: &str, from: usize) -> (r: Option<(AtomType, usize)>)
    requires
        from as int <= s@.len(),
    ensures
        atom_result_view(r) == spec_global_vars(s@, from as int),
{
    let j = skip_ws_from(s, from);
    let n = s.unicode_len();
    if j < n && s.get_char(j) == '*' {
        let m = class_run_end(s, j + 1, CharClass::GlobalChar);
        if m > j + 1 && m < n && s.get_char(m) == '*' {
            let text = String::from_str(s.substring_char(j, m + 1));
            let p = skip_ws_from(s, m + 1);
            Some((AtomType::Symbol(text), p))
        } else {
            None
        }
    } else {
        None
    }
}

/// Recognize an arithmetic-operator symbol (`+ * / -` plus whitespace) at
/// `from`.
pub fn parse_arithmetics(s: &str, from: usize) -> (r: Option<(AtomType, usize)>)
    requires
        from as int <= s@.len(),
    ensures
        atom_result_view(r) == spec_arithmetics(s@, from as int),
{
    let j = skip_ws_from(s, from);
    let n = s.unicode_len();
    if j < n && j + 1 < n {
        let c = s.get_char(j);
        let w = s.get_char(j + 1);
        if (c == '+' || c == '*' || c == '/' || c == '-')
            && (w == ' ' || w == '\t' || w == '\n' || w == '\r') {
            let text = String::from_str(s.substring_char(j, j + 1));
            let p = skip_ws_from(s, j + 1);
            Some((AtomType::Symbol(text), p))
        } else {
            None
        }
    } else {
        None
    }
}

/// Recognize a regular symbol (letter, then alphanumerics, `-`, `_`, `*`)
/// at `from`.
pub fn parse_regular_symbols(s: &str, from: usize) -> (r: Option<(AtomType, usize)>)
    requires
        from as int <= s@.len(),
    ensures
        atom_result_view(r) == spec_regular_symbols(s@, from as int),
{
    let j = skip_ws_from(s, from);
    let n = s.unicode_len();
    if j < n {
        let c = s.get_char(j);
        let alpha = ('a' as u32 <= c as u32 && c as u32 <= 'z' as u32)
            || ('A' as u32 <= c as u32 && c as u32 <= 'Z' as u32);
        if alpha {
            let m = class_run_end(s, j + 1, CharClass::SymbolChar);
            let text = String::from_str(s.substring_char(j, m));
            let p = skip_ws_from(s, m);
            Some((AtomType::Symbol(text), p))
        } else {
            None
        }
    } else {
        None
    }
}

/// Recognize any symbol form at `from`, in priority order.
pub fn parse(s: &str, from: usize) -> (r: Option<(AtomType, usize)>)
    requires
        from as int <= s@.len(),
    ensures
        atom_result_view(r) == spec_symbol(s@, from as int),
{
    match parse_global_vars(s, from) {
        Some(r) => Some(r),
        None => match parse_arithmetics(s, from) {
            Some(r) => Some(r),
            None => parse_regular_symbols(s, from),
        },
    }
}

} // verus!
