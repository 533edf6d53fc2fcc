//! A recursive-descent parser for a small Lisp-like S-expression language.
//!
//! The input text is parsed in one pass: atom recognizers (comment, float,
//! integer, string, symbol) each consume a maximal valid prefix, an ordered
//! dispatcher picks the first one that matches, and the expression parser
//! recurses through parenthesized lists. Every parser is specified by a pure
//! function over the input character sequence, and the executable code is
//! verified to return exactly what the specification says.
//!
//! The whole-program entry point is [`parse_program`]: it parses zero or more
//! top-level expressions, requires that nothing but whitespace remains, drops
//! comments from the tree, and collapses a single top-level expression to
//! itself instead of wrapping it in a one-element list.

pub mod atom;
pub mod laws;
pub mod scan;

use vstd::prelude::*;
use vstd::string::StrSliceExecFns;

use crate::atom::{spec_atom, AtomModel, AtomType};
use crate::scan::{skip_ws, skip_ws_from, lemma_run_end, CharClass};

verus! {

/// A parsed expression: an atom, or an ordered list of sub-expressions.
#[derive(Debug, PartialEq)]
pub enum LispValue {
    Atom(AtomType),
    List(Vec<LispValue>),
}

/// The mathematical model of an expression tree.
pub enum ValueModel {
    Atom(AtomModel),
    List(Seq<ValueModel>),
}

/// The models of a sequence of expressions, in order.
pub open spec fn vals_view(q: Seq<LispValue>) -> Seq<ValueModel>
    decreases q,
{
    Seq::new(
        q.len(),
        |i: int|
            if 0 <= i < q.len() {
                q[i]@
            } else {
                ValueModel::Atom(AtomModel::Null)
            },
    )
}

impl View for LispValue {
    type V = ValueModel;

    open spec fn view(&self) -> ValueModel
        decreases self,
    {
        match self {
            LispValue::Atom(a) => ValueModel::Atom(a@),
            LispValue::List(xs) => ValueModel::List(vals_view(xs@)),
        }
    }
}

pub proof fn lemma_vals_view_push(q: Seq<LispValue>, v: LispValue)
    ensures
        vals_view(q.push(v)) =~= vals_view(q).push(v@),
{
}

/// The model of an expression parser's result.
pub open spec fn value_result_view(r: Option<(LispValue, usize)>) -> Option<(ValueModel, int)> {
    match r {
        Some((v, j)) => Some((v@, j as int)),
        None => None,
    }
}

/// What parsing a single atom as an expression yields at position `i`.
pub open spec fn spec_single_atom(s: Seq<char>, i: int) -> Option<(ValueModel, int)> {
    match spec_atom(s, i) {
        Some((a, j)) => Some((ValueModel::Atom(a), j)),
        None => None,
    }
}

/// What the expression parser yields at position `i`: a single atom, or a
/// parenthesized list.
pub open spec fn spec_expression(s: Seq<char>, i: int) -> Option<(ValueModel, int)>
    decreases s.len() - i, 1int,
{
    match spec_single_atom(s, i) {
        Some(r) => Some(r),
        None => spec_nested_list(s, i),
    }
}

/// What the list parser yields at position `i`: `(`, zero or more
/// expressions, `)`, with comments dropped from the collected items. After
/// the repetition stops, the very next character must be `)`, or the whole
/// list is a mismatch.
pub open spec fn spec_nested_list(s: Seq<char>, i: int) -> Option<(ValueModel, int)>
    decreases s.len() - i, 0int,
{
    let j = skip_ws(s, i);
    if i <= j && j < s.len() && s[j] == '(' {
        let (items, k) = spec_expressions(s, j + 1);
        if k < s.len() && s[k] == ')' {
            Some((ValueModel::List(items), skip_ws(s, k + 1)))
        } else {
            None
        }
    } else {
        None
    }
}

/// The greedy zero-or-more expression repetition starting at `i`: the
/// collected item models with comments (`Null` atoms) dropped, and the index
/// where the repetition stops.
pub open spec fn spec_expressions(s: Seq<char>, i: int) -> (Seq<ValueModel>, int)
    decreases s.len() - i, 2int,
{
    match spec_expression(s, i) {
        Some((v, j)) => if i < j <= s.len() {
            let (rest, k) = spec_expressions(s, j);
            ((if v == ValueModel::Atom(AtomModel::Null) {
                rest
            } else {
                seq![v] + rest
            }), k)
        } else {
            (Seq::empty(), i)
        },
        None => (Seq::empty(), i),
    }
}

/// A successful expression consumes at least one character and stays in
/// bounds.
pub proof fn lemma_expression_progress(s: Seq<char>, i: int)
    requires
        0 <= i <= s.len(),
    ensures
        spec_expression(s, i) matches Some((v, j)) ==> i < j <= s.len(),
    decreases s.len() - i, 1int,
{
    if spec_single_atom(s, i) is Some {
        atom::lemma_atom_progress(s, i);
    } else {
        lemma_nested_list_progress(s, i);
    }
}

/// A successful list consumes at least its parentheses and stays in bounds.
pub proof fn lemma_nested_list_progress(s: Seq<char>, i: int)
    requires
        0 <= i <= s.len(),
    ensures
        spec_nested_list(s, i) matches Some((v, j)) ==> i < j <= s.len(),
    decreases s.len() - i, 0int,
{
    lemma_run_end(s, i, CharClass::Ws);
    let j = skip_ws(s, i);
    if i <= j && j < s.len() && s[j] == '(' {
        lemma_expressions_pos(s, j + 1);
        let (items, k) = spec_expressions(s, j + 1);
        if k < s.len() && s[k] == ')' {
            lemma_run_end(s, k + 1, CharClass::Ws);
        }
    }
}

/// The expression repetition never moves backwards and stays in bounds.
pub proof fn lemma_expressions_pos(s: Seq<char>, i: int)
    requires
        0 <= i <= s.len(),
    ensures
        i <= spec_expressions(s, i).1 <= s.len(),
    decreases s.len() - i, 2int,
{
    match spec_expression(s, i) {
        Some((v, j)) => {
            lemma_expression_progress(s, i);
            if i < j <= s.len() {
                lemma_expressions_pos(s, j);
            }
        },
        None => (),
    }
}

/// What the whole-program parser yields: the greedy top-level expression
/// repetition must consume everything but trailing whitespace; exactly one
/// top-level expression is returned unwrapped, any other count is wrapped in
/// a list in source order.
pub open spec fn spec_program(s: Seq<char>) -> Option<ValueModel> {
    let (items, j) = spec_expressions(s, 0);
    if skip_ws(s, j) == s.len() {
        Some(
            if items.len() == 1 {
                items[0]
            } else {
                ValueModel::List(items)
            },
        )
    } else {
        None
    }
}

/// Where a failed whole-program parse stops: the first character, whitespace
/// skipped, that no top-level expression could consume.
pub open spec fn spec_error_pos(s: Seq<char>) -> int {
    skip_ws(s, spec_expressions(s, 0).1)
}

/// A whole-program parse failure: the character index (whitespace skipped)
/// of the unconsumed remainder.
#[derive(Debug, PartialEq, Eq, Structural, Clone, Copy)]
pub struct ParseError {
    pub at: usize,
}

/// Parse one atom as an expression at `from`.
pub fn parse_single_atom(s: &str, from: usize) -> (r: Option<(LispValue, usize)>)
    requires
        from as int <= s@.len(),
    ensures
        value_result_view(r) == spec_single_atom(s@, from as int),
{
    match atom::parse(s, from) {
        Some((a, j)) => Some((LispValue::Atom(a), j)),
        None => None,
    }
}

/// Parse an expression at `from`: a single atom, or a parenthesized list.
pub fn parse_expression(s: &str, from: usize) -> (r: Option<(LispValue, usize)>)
    requires
        from as int <= s@.len(),
    ensures
        value_result_view(r) == spec_expression(s@, from as int),
        r matches Some((v, j)) ==> from < j && j as int <= s@.len(),
    decreases s@.len() - from as int, 1int,
{
    proof {
        lemma_expression_progress(s@, from as int);
    }
    match parse_single_atom(s, from) {
        Some(r) => Some(r),
        None => parse_nested_list(s, from),
    }
}

/// Parse a parenthesized list at `from`.
pub fn parse_nested_list(s: &str, from: usize) -> (r: Option<(LispValue, usize)>)
    requires
        from as int <= s@.len(),
    ensures
        value_result_view(r) == spec_nested_list(s@, from as int),
    decreases s@.len() - from as int, 0int,
{
    let j = skip_ws_from(s, from);
    let n = s.unicode_len();
    if j < n && s.get_char(j) == '(' {
        let (items, k) = parse_expressions(s, j + 1);
        if k < n && s.get_char(k) == ')' {
            let p = skip_ws_from(s, k + 1);
            Some((LispValue::List(items), p))
        } else {
            None
        }
    } else {
        None
    }
}

/// Parse the greedy zero-or-more expression repetition at `from`, dropping
/// comments from the collected items.
pub fn parse_expressions(s: &str, from: usize) -> (r: (Vec<LispValue>, usize))
    requires
        from as int <= s@.len(),
    ensures
        vals_view(r.0@) == spec_expressions(s@, from as int).0,
        r.1 as int == spec_expressions(s@, from as int).1,
        from <= r.1,
        r.1 as int <= s@.len(),
    decreases s@.len() - from as int, 2int,
{
    let mut out: Vec<LispValue> = Vec::new();
    let mut i = from;
    proof {
        assert(vals_view(out@) =~= Seq::<ValueModel>::empty());
        assert(spec_expressions(s@, from as int).0 =~= vals_view(out@) + spec_expressions(
            s@,
            from as int,
        ).0);
    }
    loop
        invariant
            from <= i,
            i as int <= s@.len(),
            spec_expressions(s@, from as int).0 == vals_view(out@) + spec_expressions(
                s@,
                i as int,
            ).0,
            spec_expressions(s@, from as int).1 == spec_expressions(s@, i as int).1,
        ensures
            i as int == spec_expressions(s@, from as int).1,
            vals_view(out@) == spec_expressions(s@, from as int).0,
        decreases s@.len() - i as int,
    {
        match parse_expression(s, i) {
            Some((v, j)) => {
                let ghost vm = v@;
                let ghost old_out = out@;
                let ghost rest = spec_expressions(s@, j as int).0;
                let is_comment = is_null_atom(&v);
                if !is_comment {
                    out.push(v);
                    proof {
                        lemma_vals_view_push(old_out, v);
                        assert(vals_view(old_out) + (seq![vm] + rest) =~= vals_view(old_out).push(
                            vm,
                        ) + rest);
                    }
                } else {
                    proof {
                        assert(spec_expressions(s@, i as int).0 == rest);
                    }
                }
                i = j;
            },
            None => {
                proof {
                    assert(spec_expressions(s@, i as int).0 =~= Seq::<ValueModel>::empty());
                    assert(vals_view(out@) + Seq::<ValueModel>::empty() =~= vals_view(out@));
                }
                break;
            },
        }
    }
    (out, i)
}

/// Is this expression the discard marker that a recognized comment leaves
/// behind?
pub fn is_null_atom(v: &LispValue) -> (b: bool)
    ensures
        b == (v@ == ValueModel::Atom(AtomModel::Null)),
{
    match v {
        LispValue::Atom(AtomType::Null) => true,
        LispValue::Atom(AtomType::Integer(_)) => false,
        LispValue::Atom(AtomType::Float(_)) => false,
        LispValue::Atom(AtomType::Symbol(_)) => false,
        LispValue::Atom(AtomType::String(_)) => false,
        LispValue::List(_) => false,
    }
}

/// Parse a whole program: zero or more top-level expressions followed by
/// nothing but whitespace. Exactly one top-level expression is returned
/// unwrapped; any other count is wrapped in a [`LispValue::List`] in source
/// order. On failure, the error reports where the unconsumed remainder
/// starts.
pub fn parse_program(input: &str) -> (r: Result<LispValue, ParseError>)
    ensures
        match spec_program(input@) {
            Some(m) => r matches Ok(v) && v@ == m,
            None => r matches Err(e) && e.at as int == spec_error_pos(input@),
        },
{
    let (mut items, j) = parse_expressions(input, 0);
    let n = input.unicode_len();
    let k = skip_ws_from(input, j);
    if k == n {
        if items.len() == 1 {
            let ghost items0 = items@;
            let v = items.pop().unwrap();
            proof {
                assert(v@ == vals_view(items0)[0]);
            }
            Ok(v)
        } else {
            Ok(LispValue::List(items))
        }
    } else {
        Err(ParseError { at: k })
    }
}

} // verus!
