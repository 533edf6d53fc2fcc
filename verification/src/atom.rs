//! Atoms: the leaf values of the parse tree, and the ordered dispatcher that
//! recognizes one atom at a given input position.

pub mod comment;
pub mod float;
pub mod integer;
pub mod string;
pub mod symbol;

use vstd::prelude::*;

verus! {

/// A floating-point literal, kept as its syntactic parts: an optional leading
/// `-`, the integer-part digits, and the fractional digits. Missing
/// fractional digits are recorded as the single digit `0`, so `42.` and
/// `42.0` build equal values. Two literals are equal exactly when their sign
/// and digit strings agree.
#[derive(Debug, PartialEq, Clone)]
pub struct FloatLit {
    pub negative: bool,
    pub whole: String,
    pub frac: String,
}

/// A single atom: the leaf of an expression tree.
#[derive(Debug, PartialEq, Clone)]
pub enum AtomType {
    /// A signed 64-bit integer literal.
    Integer(i64),
    /// A signed floating-point literal; see [`FloatLit`].
    Float(FloatLit),
    /// An identifier or operator token.
    Symbol(String),
    /// A double-quoted literal; the contents are kept verbatim, including
    /// any `\"` pairs.
    String(String),
    /// The result of recognizing and discarding a comment.
    Null,
}

/// The mathematical model of an atom: what an [`AtomType`] means.
pub enum AtomModel {
    Integer(int),
    Float { negative: bool, whole: Seq<char>, frac: Seq<char> },
    Symbol(Seq<char>),
    String(Seq<char>),
    Null,
}

impl View for FloatLit {
    type V = AtomModel;

    open spec fn view(&self) -> AtomModel {
        AtomModel::Float { negative: self.negative, whole: self.whole@, frac: self.frac@ }
    }
}

impl View for AtomType {
    type V = AtomModel;

    open spec fn view(&self) -> AtomModel {
        match self {
            AtomType::Integer(n) => AtomModel::Integer(*n as int),
            AtomType::Float(f) => f@,
            AtomType::Symbol(t) => AtomModel::Symbol(t@),
            AtomType::String(t) => AtomModel::String(t@),
            AtomType::Null => AtomModel::Null,
        }
    }
}

/// The model of a recognizer's result: the recognized atom and the index of
/// the first unconsumed character, or `None` when the recognizer does not
/// match (consuming nothing).
pub open spec fn atom_result_view(r: Option<(AtomType, usize)>) -> Option<(AtomModel, int)> {
    match r {
        Some((a, j)) => Some((a@, j as int)),
        None => None,
    }
}

/// The atom dispatcher: the first match among comment, float, integer,
/// string and symbol, in that order. Float must come before integer, or a
/// float's integer part would be consumed alone and the `.` left behind.
pub open spec fn spec_atom(s: Seq<char>, i: int) -> Option<(AtomModel, int)> {
    match comment::spec_comment(s, i) {
        Some(r) => Some(r),
        None => match float::spec_float(s, i) {
            Some(r) => Some(r),
            None => match integer::spec_integer(s, i) {
                Some(r) => Some(r),
                None => match string::spec_string(s, i) {
                    Some(r) => Some(r),
                    None => symbol::spec_symbol(s, i),
                },
            },
        },
    }
}

/// A successful atom consumes at least one character and stays in bounds.
pub proof fn lemma_atom_progress(s: Seq<char>, i: int)
    requires
        0 <= i <= s.len(),
    ensures
        spec_atom(s, i) matches Some((m, j)) ==> i < j <= s.len(),
{
    crate::scan::lemma_run_end(s, i, crate::scan::CharClass::Ws);
    let j0 = crate::scan::skip_ws(s, i);
    if comment::spec_comment(s, i) is Some {
        comment::lemma_comment_progress(s, i);
    } else if float::spec_float(s, i) is Some {
        let d0 = if j0 < s.len() && (s[j0] == '+' || s[j0] == '-') {
            j0 + 1
        } else {
            j0
        };
        crate::scan::lemma_run_end(s, d0, crate::scan::CharClass::Digit);
        let d1 = crate::scan::run_end(s, d0, crate::scan::CharClass::Digit);
        crate::scan::lemma_run_end(s, d1 + 1, crate::scan::CharClass::Digit);
        let f1 = crate::scan::run_end(s, d1 + 1, crate::scan::CharClass::Digit);
        crate::scan::lemma_run_end(s, f1, crate::scan::CharClass::Ws);
    } else if integer::spec_integer(s, i) is Some {
        let d0 = if j0 < s.len() && (s[j0] == '+' || s[j0] == '-') {
            j0 + 1
        } else {
            j0
        };
        crate::scan::lemma_run_end(s, d0, crate::scan::CharClass::Digit);
        let d1 = crate::scan::run_end(s, d0, crate::scan::CharClass::Digit);
        crate::scan::lemma_run_end(s, d1, crate::scan::CharClass::Ws);
    } else if string::spec_string(s, i) is Some {
        string::lemma_find_string_end_bounds(s, j0 + 1);
        match string::find_string_end(s, j0 + 1) {
            Some(e) => crate::scan::lemma_run_end(s, e + 1, crate::scan::CharClass::Ws),
            None => (),
        }
    } else if symbol::spec_symbol(s, i) is Some {
        if symbol::spec_global_vars(s, i) is Some {
            crate::scan::lemma_run_end(s, j0 + 1, crate::scan::CharClass::GlobalChar);
            let m = crate::scan::run_end(s, j0 + 1, crate::scan::CharClass::GlobalChar);
            crate::scan::lemma_run_end(s, m + 1, crate::scan::CharClass::Ws);
        } else if symbol::spec_arithmetics(s, i) is Some {
            crate::scan::lemma_run_end(s, j0 + 1, crate::scan::CharClass::Ws);
        } else {
            crate::scan::lemma_run_end(s, j0 + 1, crate::scan::CharClass::SymbolChar);
            let m = crate::scan::run_end(s, j0 + 1, crate::scan::CharClass::SymbolChar);
            crate::scan::lemma_run_end(s, m, crate::scan::CharClass::Ws);
        }
    }
}

/// Recognize one atom at `from`, trying the recognizers in dispatch order.
pub fn parse(s: &str, from: usize) -> (r: Option<(AtomType, usize)>)
    requires
        from as int <= s@.len(),
    ensures
        atom_result_view(r) == spec_atom(s@, from as int),
{
    match comment::parse_comment(s, from) {
        Some(r) => Some(r),
        None => match float::parse(s, from) {
            Some(r) => Some(r),
            None => match integer::parse(s, from) {
                Some(r) => Some(r),
                None => match string::parse(s, from) {
                    Some(r) => Some(r),
                    None => symbol::parse(s, from),
                },
            },
        },
    }
}

} // verus!
