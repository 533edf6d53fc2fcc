//! String literal recognizer: a `"`, then zero or more characters, then a
//! closing `"`. A `\"` pair never terminates the literal and is kept in the
//! contents verbatim; every other character, backslashes included, is kept
//! as itself. An unterminated literal is a mismatch, consuming nothing.

use vstd::prelude::*;
use vstd::string::{StringExecFns, StrSliceExecFns};

use crate::atom::{atom_result_view, AtomModel, AtomType};
use crate::scan::{skip_ws, skip_ws_from};

verus! {

/// The index of the quote that closes a string literal whose contents start
/// at `i`, if any. A `\"` pair is stepped over as a unit, so the quote it
/// holds does not close the literal.
pub open spec fn find_string_end(s: Seq<char>, i: int) -> Option<int>
    decreases s.len() - i,
{
    if i >= s.len() {
        None
    } else if s[i] == '"' {
        Some(i)
    } else if s[i] == '\\' && i + 1 < s.len() && s[i + 1] == '"' {
        find_string_end(s, i + 2)
    } else {
        find_string_end(s, i + 1)
    }
}

/// A found closing quote sits within bounds, at or after the content start.
pub proof fn lemma_find_string_end_bounds(s: Seq<char>, i: int)
    requires
        0 <= i,
        find_string_end(s, i) is Some,
    ensures
        find_string_end(s, i) matches Some(k) ==> i <= k < s.len(),
    decreases s.len() - i,
{
    if i < s.len() && s[i] != '"' {
        if s[i] == '\\' && i + 1 < s.len() && s[i + 1] == '"' {
            lemma_find_string_end_bounds(s, i + 2);
        } else {
            lemma_find_string_end_bounds(s, i + 1);
        }
    }
}

/// What the string recognizer consumes and yields at position `i`.
pub open spec fn spec_string(s: Seq<char>, i: int) -> Option<(AtomModel, int)> {
    let j = skip_ws(s, i);
    if j < s.len() && s[j] == '"' {
        match find_string_end(s, j + 1) {
            Some(k) => Some((AtomModel::String(s.subrange(j + 1, k)), skip_ws(s, k + 1))),
            None => None,
        }
    } else {
        None
    }
}

/// Scan for the quote that closes a string literal whose contents start at
/// `from`.
fn find_string_end_from(s: &str, from: usize) -> (r: Option<usize>)
    requires
        from as int <= s@.len(),
    ensures
        match r {
            Some(k) => find_string_end(s@, from as int) == Some(k as int),
            None => find_string_end(s@, from as int) is None,
        },
{
    let n = s.unicode_len();
    let mut i = from;
    loop
        invariant
            from <= i <= n,
            n as int == s@.len(),
            find_string_end(s@, from as int) == find_string_end(s@, i as int),
        ensures
            match find_string_end(s@, from as int) {
                Some(k) => i as int == k,
                None => i == n,
            },
        decreases s@.len() - i as int,
    {
        if i == n {
            break;
        }
        let c = s.get_char(i);
        if c == '"' {
            break;
        }
        if c == '\\' && i + 1 < n && s.get_char(i + 1) == '"' {
            i = i + 2;
        } else {
            i = i + 1;
        }
    }
    if i < n {
        Some(i)
    } else {
        None
    }
}

/// Recognize a string literal at `from`.
pub fn parse(s: &str, from: usize) -> (r: Option<(AtomType, usize)>)
    requires
        from as int <= s@.len(),
    ensures
        atom_result_view(r) == spec_string(s@, from as int),
{
    let j = skip_ws_from(s, from);
    let n = s.unicode_len();
    if j < n && s.get_char(j) == '"' {
        match find_string_end_from(s, j + 1) {
            Some(k) => {
                proof {
                    lemma_find_string_end_bounds(s@, j as int + 1);
                }
                let contents = String::from_str(s.substring_char(j + 1, k));
                let p = skip_ws_from(s, k + 1);
                Some((AtomType::String(contents), p))
            },
            None => None,
        }
    } else {
        None
    }
}

} // verus!
