//! Character classification and maximal-run scanning.
//!
//! Every recognizer in this crate works the same way: skip whitespace, look
//! at a few characters, and consume a maximal run of characters from some
//! class. This module defines the character classes, the specification-level
//! `run_end` function giving the end of such a run, and a verified scanner.

use vstd::prelude::*;
use vstd::string::StrSliceExecFns;

verus! {

/// A class of characters that a recognizer consumes as a maximal run.
#[derive(Clone, Copy, PartialEq, Eq, Debug)]
pub enum CharClass {
    /// Whitespace: space, tab, newline, carriage return.
    Ws,
    /// ASCII decimal digits.
    Digit,
    /// Characters allowed between the `*`s of a global-variable symbol:
    /// ASCII alphanumerics, `-` and `_`.
    GlobalChar,
    /// Characters allowed after the leading letter of a regular symbol:
    /// ASCII alphanumerics, `-`, `_` and `*`.
    SymbolChar,
    /// Any character other than a line terminator (`\n` or `\r`).
    LineChar,
}

pub open spec fn is_ws_char(c: char) -> bool {
    c == ' ' || c == '\t' || c == '\n' || c == '\r'
}

pub open spec fn is_digit_char(c: char) -> bool {
    '0' as u32 <= c as u32 && c as u32 <= '9' as u32
}

pub open spec fn is_alpha_char(c: char) -> bool {
    ('a' as u32 <= c as u32 && c as u32 <= 'z' as u32)
    || ('A' as u32 <= c as u32 && c as u32 <= 'Z' as u32)
}

pub open spec fn is_global_char(c: char) -> bool {
    is_alpha_char(c) || is_digit_char(c) || c == '-' || c == '_'
}

pub open spec fn is_symbol_char(c: char) -> bool {
    is_global_char(c) || c == '*'
}

pub open spec fn is_line_char(c: char) -> bool {
    c != '\n' && c != '\r'
}

pub open spec fn in_class(c: char, cls: CharClass) -> bool {
    match cls {
        CharClass::Ws => is_ws_char(c),
        CharClass::Digit => is_digit_char(c),
        CharClass::GlobalChar => is_global_char(c),
        CharClass::SymbolChar => is_symbol_char(c),
        CharClass::LineChar => is_line_char(c),
    }
}

/// The index just past the maximal run of `cls` characters starting at `i`.
pub open spec fn run_end(s: Seq<char>, i: int, cls: CharClass) -> int
    decreases s.len() - i,
{
    if i < s.len() && in_class(s[i], cls) {
        run_end(s, i + 1, cls)
    } else {
        i
    }
}

/// The index of the first non-whitespace character at or after `i`.
pub open spec fn skip_ws(s: Seq<char>, i: int) -> int {
    run_end(s, i, CharClass::Ws)
}

/// `run_end` stays within bounds, covers only `cls` characters, and stops at
/// the first character outside the class.
pub proof fn lemma_run_end(s: Seq<char>, i: int, cls: CharClass)
    requires
        0 <= i <= s.len(),
    ensures
        i <= run_end(s, i, cls) <= s.len(),
        forall|k: int| i <= k < run_end(s, i, cls) ==> in_class(#[trigger] s[k], cls),
        run_end(s, i, cls) < s.len() ==> !in_class(s[run_end(s, i, cls)], cls),
    decreases s.len() - i,
{
    if i < s.len() && in_class(s[i], cls) {
        lemma_run_end(s, i + 1, cls);
    }
}

/// A run that starts on a character outside the class ends where it starts.
pub proof fn lemma_run_end_stop(s: Seq<char>, i: int, cls: CharClass)
    requires
        0 <= i <= s.len(),
        i < s.len() ==> !in_class(s[i], cls),
    ensures
        run_end(s, i, cls) == i,
{
}

/// A run over exactly the characters of the class in `s[i..e]` ends at `e`.
pub proof fn lemma_run_end_exact(s: Seq<char>, i: int, e: int, cls: CharClass)
    requires
        0 <= i <= e <= s.len(),
        forall|k: int| i <= k < e ==> in_class(#[trigger] s[k], cls),
        e < s.len() ==> !in_class(s[e], cls),
    ensures
        run_end(s, i, cls) == e,
    decreases e - i,
{
    if i < e {
        lemma_run_end_exact(s, i + 1, e, cls);
    }
}

pub fn char_in_class(c: char, cls: CharClass) -> (r: bool)
    ensures
        r == in_class(c, cls),
{
    match cls {
        CharClass::Ws => c == ' ' || c == '\t' || c == '\n' || c == '\r',
        CharClass::Digit => '0' as u32 <= c as u32 && c as u32 <= '9' as u32,
        CharClass::GlobalChar => {
            ('a' as u32 <= c as u32 && c as u32 <= 'z' as u32)
            || ('A' as u32 <= c as u32 && c as u32 <= 'Z' as u32)
            || ('0' as u32 <= c as u32 && c as u32 <= '9' as u32)
            || c == '-' || c == '_'
        },
        CharClass::SymbolChar => {
            ('a' as u32 <= c as u32 && c as u32 <= 'z' as u32)
            || ('A' as u32 <= c as u32 && c as u32 <= 'Z' as u32)
            || ('0' as u32 <= c as u32 && c as u32 <= '9' as u32)
            || c == '-' || c == '_' || c == '*'
        },
        CharClass::LineChar => c != '\n' && c != '\r',
    }
}

/// Scan the maximal run of `cls` characters starting at `from`.
pub fn class_run_end(s: &str, from: usize, cls: CharClass) -> (r: usize)
    requires
        from as int <= s@.len(),
    ensures
        r as int == run_end(s@, from as int, cls),
        from <= r,
        r as int <= s@.len(),
{
    let n = s.unicode_len();
    let mut i = from;
    loop
        invariant
            from <= i <= n,
            n as int == s@.len(),
            run_end(s@, from as int, cls) == run_end(s@, i as int, cls),
        ensures
            i as int == run_end(s@, from as int, cls),
        decreases s@.len() - i as int,
    {
        if i == n {
            break;
        }
        let c = s.get_char(i);
        if !char_in_class(c, cls) {
            break;
        }
        i = i + 1;
    }
    proof {
        lemma_run_end(s@, from as int, cls);
    }
    i
}

/// Skip whitespace starting at `from`.
pub fn skip_ws_from(s: &str, from: usize) -> (r: usize)
    requires
        from as int <= s@.len(),
    ensures
        r as int == skip_ws(s@, from as int),
        from <= r,
        r as int <= s@.len(),
{
    class_run_end(s, from, CharClass::Ws)
}

} // verus!
