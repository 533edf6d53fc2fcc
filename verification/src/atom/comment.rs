//! Comment recognizers. A comment is recognized and discarded: both forms
//! yield [`AtomType::Null`]. Single-line comments run from `;;` to the end
//! of the line; multi-line comments run from `#|` to the first `|#`, without
//! nesting.

use vstd::prelude::*;
use vstd::string::StrSliceExecFns;

use crate::atom::{atom_result_view, AtomModel, AtomType};
use crate::scan::{run_end, skip_ws, skip_ws_from, CharClass, class_run_end, lemma_run_end};

verus! {

/// What the single-line comment recognizer consumes: leading whitespace,
/// `;;`, everything up to the line terminator, and trailing whitespace.
pub open spec fn spec_single_line_comment(s: Seq<char>, i: int) -> Option<(AtomModel, int)> {
    let j = skip_ws(s, i);
    if j + 2 <= s.len() && s[j] == ';' && s[j + 1] == ';' {
        Some((AtomModel::Null, skip_ws(s, run_end(s, j + 2, CharClass::LineChar))))
    } else {
        None
    }
}

/// The index of the `|` of the first `|#` at or after `i`, if any.
pub open spec fn find_block_close(s: Seq<char>, i: int) -> Option<int>
    decreases s.len() - i,
{
    if i + 2 <= s.len() {
        if s[i] == '|' && s[i + 1] == '#' {
            Some(i)
        } else {
            find_block_close(s, i + 1)
        }
    } else {
        None
    }
}

/// What the multi-line comment recognizer consumes: leading whitespace,
/// `#|`, everything through the first `|#`, and trailing whitespace. An
/// unterminated `#|` is a mismatch.
pub open spec fn spec_multiline_comment(s: Seq<char>, i: int) -> Option<(AtomModel, int)> {
    let j = skip_ws(s, i);
    if j + 2 <= s.len() && s[j] == '#' && s[j + 1] == '|' {
        match find_block_close(s, j + 2) {
            Some(k) => Some((AtomModel::Null, skip_ws(s, k + 2))),
            None => None,
        }
    } else {
        None
    }
}

/// The comment recognizer: multi-line form first, then single-line form.
pub open spec fn spec_comment(s: Seq<char>, i: int) -> Option<(AtomModel, int)> {
    match spec_multiline_comment(s, i) {
        Some(r) => Some(r),
        None => spec_single_line_comment(s, i),
    }
}

/// A successful comment consumes at least the two lead characters.
pub proof fn lemma_comment_progress(s: Seq<char>, i: int)
    requires
        0 <= i <= s.len(),
        spec_comment(s, i) is Some,
    ensures
        spec_comment(s, i) matches Some((m, j)) ==> i < j <= s.len() && m == AtomModel::Null,
{
    lemma_run_end(s, i, CharClass::Ws);
    let j = skip_ws(s, i);
    if spec_multiline_comment(s, i) is Some {
        let k = find_block_close(s, j + 2)->0;
        lemma_find_block_close_bounds(s, j + 2);
        lemma_run_end(s, k + 2, CharClass::Ws);
    } else {
        lemma_run_end(s, j + 2, CharClass::LineChar);
        let e = run_end(s, j + 2, CharClass::LineChar);
        lemma_run_end(s, e, CharClass::Ws);
    }
}

/// A found block close sits within bounds, after the search start.
pub proof fn lemma_find_block_close_bounds(s: Seq<char>, i: int)
    requires
        0 <= i,
        find_block_close(s, i) is Some,
    ensures
        i <= find_block_close(s, i)->0,
        find_block_close(s, i)->0 + 2 <= s.len(),
    decreases s.len() - i,
{
    if i + 2 <= s.len() && !(s[i] == '|' && s[i + 1] == '#') {
        lemma_find_block_close_bounds(s, i + 1);
    }
}

/// Scan for the first `|#` at or after `from`.
fn find_block_close_from(s: &str, from: usize) -> (r: Option<usize>)
    requires
        from as int <= s@.len(),
    ensures
        match r {
            Some(k) => find_block_close(s@, from as int) == Some(k as int),
            None => find_block_close(s@, from as int) is None,
        },
{
    let n = s.unicode_len();
    let mut i = from;
    loop
        invariant
            from <= i <= n,
            n as int == s@.len(),
            find_block_close(s@, from as int) == find_block_close(s@, i as int),
        ensures
            match find_block_close(s@, from as int) {
                Some(k) => i as int == k && i + 2 <= n,
                None => i + 2 > n,
            },
        decreases s@.len() - i as int,
    {
        if i >= n || i + 1 >= n {
            break;
        }
        if s.get_char(i) == '|' && s.get_char(i + 1) == '#' {
            break;
        }
        i = i + 1;
    }
    if i < n && i + 1 < n {
        Some(i)
    } else {
        None
    }
}

/// Recognize a single-line comment (`;;` through end of line) at `from`.
pub fn parse_single_line_comment(s: &str, from: usize) -> (r: Option<(AtomType, usize)>)
    requires
        from as int <= s@.len(),
    ensures
        atom_result_view(r) == spec_single_line_comment(s@, from as int),
{
    let j = skip_ws_from(s, from);
    let n = s.unicode_len();
    if j < n && j + 1 < n && s.get_char(j) == ';' && s.get_char(j + 1) == ';' {
        let e = class_run_end(s, j + 2, CharClass::LineChar);
        let p = skip_ws_from(s, e);
        Some((AtomType::Null, p))
    } else {
        None
    }
}

/// Recognize a multi-line comment (`#|` through the first `|#`) at `from`.
pub fn parse_multiline_comment(s: &str, from: usize) -> (r: Option<(AtomType, usize)>)
    requires
        from as int <= s@.len(),
    ensures
        atom_result_view(r) == spec_multiline_comment(s@, from as int),
{
    let j = skip_ws_from(s, from);
    let n = s.unicode_len();
    if j < n && j + 1 < n && s.get_char(j) == '#' && s.get_char(j + 1) == '|' {
        match find_block_close_from(s, j + 2) {
            Some(k) => {
                proof {
                    lemma_find_block_close_bounds(s@, j as int + 2);
                }
                let p = skip_ws_from(s, k + 2);
                Some((AtomType::Null, p))
            },
            None => None,
        }
    } else {
        None
    }
}

/// Recognize either comment form at `from`, multi-line form first.
pub fn parse_comment(s: &str, from: usize) -> (r: Option<(AtomType, usize)>)
    requires
        from as int <= s@.len(),
    ensures
        atom_result_view(r) == spec_comment(s@, from as int),
{
    match parse_multiline_comment(s, from) {
        Some(r) => Some(r),
        None => parse_single_line_comment(s, from),
    }
}

/// How many comments in a row start at `i`, and the index after the last.
pub open spec fn spec_comments(s: Seq<char>, i: int) -> (nat, int)
    decreases s.len() - i,
{
    match spec_comment(s, i) {
        Some((m, j)) => if i < j <= s.len() {
            let (c, e) = spec_comments(s, j);
            ((c + 1) as nat, e)
        } else {
            (0, i)
        },
        None => (0, i),
    }
}

/// Recognize zero or more comments at `from`, yielding one [`AtomType::Null`]
/// for each.
pub fn parse0(s: &str, from: usize) -> (r: (Vec<AtomType>, usize))
    requires
        from as int <= s@.len(),
    ensures
        r.0@.len() == spec_comments(s@, from as int).0,
        forall|k: int| 0 <= k < r.0@.len() ==> r.0@[k]@ == AtomModel::Null,
        r.1 as int == spec_comments(s@, from as int).1,
        from <= r.1,
        r.1 as int <= s@.len(),
{
    let mut out: Vec<AtomType> = Vec::new();
    let mut i = from;
    loop
        invariant
            from <= i,
            i as int <= s@.len(),
            spec_comments(s@, from as int).0 == out@.len() + spec_comments(s@, i as int).0,
            spec_comments(s@, from as int).1 == spec_comments(s@, i as int).1,
            forall|k: int| 0 <= k < out@.len() ==> out@[k]@ == AtomModel::Null,
        ensures
            i as int == spec_comments(s@, from as int).1,
            spec_comments(s@, from as int).0 == out@.len(),
            forall|k: int| 0 <= k < out@.len() ==> out@[k]@ == AtomModel::Null,
        decreases s@.len() - i as int,
    {
        match parse_comment(s, i) {
            Some((a, j)) => {
                proof {
                    lemma_comment_progress(s@, i as int);
                }
                out.push(a);
                i = j;
            },
            None => {
                break;
            },
        }
    }
    (out, i)
}

} // verus!
