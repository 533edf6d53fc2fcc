//! Laws that hold of the parser as a whole: how the dispatcher resolves the
//! float/integer ambiguity, what whole classes of literals parse to, that
//! comments never survive into a parse tree, and the asymmetric top-level
//! shaping rule.

use vstd::prelude::*;

use crate::atom::comment::spec_comment;
use crate::atom::float::spec_float;
use crate::atom::integer::{digits_val, spec_integer};
use crate::atom::string::{find_string_end, spec_string};
use crate::atom::{lemma_atom_progress, spec_atom, AtomModel};
use crate::scan::{
    is_digit_char, is_ws_char, lemma_run_end, lemma_run_end_exact, lemma_run_end_stop, run_end,
    skip_ws, CharClass,
};
use crate::{
    lemma_expression_progress, spec_error_pos, spec_expression, spec_expressions,
    spec_nested_list, spec_program, spec_single_atom, ValueModel,
};

verus! {

/// Nothing at all can be recognized where only whitespace remains.
pub proof fn lemma_expression_at_end(s: Seq<char>, i: int)
    requires
        0 <= i <= s.len(),
        skip_ws(s, i) == s.len(),
    ensures
        spec_expression(s, i) is None,
        spec_expressions(s, i) == (Seq::<ValueModel>::empty(), i),
{
}

/// A program that is one atom followed by nothing but whitespace parses to
/// exactly that atom, unwrapped.
pub proof fn lemma_single_token_program(s: Seq<char>, m: AtomModel, j: int)
    requires
        spec_atom(s, 0) == Some((m, j)),
        !(m == AtomModel::Null),
        0 <= j <= s.len(),
        skip_ws(s, j) == s.len(),
    ensures
        spec_program(s) == Some(ValueModel::Atom(m)),
{
    lemma_atom_progress(s, 0);
    lemma_expression_at_end(s, j);
    let v = ValueModel::Atom(m);
    assert(spec_expression(s, 0) == Some((v, j)));
    assert(spec_expressions(s, 0).0 =~= seq![v]);
    assert(spec_expressions(s, 0).1 == j);
}

/// Float recognition takes priority over integer recognition: wherever the
/// float recognizer matches, the dispatcher returns its result, so a float's
/// integer part is never consumed alone with the `.` left behind.
pub proof fn lemma_float_priority(s: Seq<char>, i: int)
    requires
        0 <= i <= s.len(),
        spec_float(s, i) is Some,
    ensures
        spec_atom(s, i) == spec_float(s, i),
{
    lemma_run_end(s, i, CharClass::Ws);
    let j = skip_ws(s, i);
    let d0 = if j < s.len() && (s[j] == '+' || s[j] == '-') {
        j + 1
    } else {
        j
    };
    lemma_run_end(s, d0, CharClass::Digit);
    assert(run_end(s, d0, CharClass::Digit) > d0);
    assert(is_digit_char(s[d0]) || s[j] == '+' || s[j] == '-');
    assert(spec_comment(s, i) is None);
}

/// The sign of an integer literal starts at index 0; its digits start after
/// the sign, if there is one.
pub open spec fn int_literal_digits_start(s: Seq<char>) -> int {
    if s.len() > 0 && (s[0] == '+' || s[0] == '-') {
        1
    } else {
        0
    }
}

/// Is `s`, as a whole, an integer literal: an optional sign, then one or
/// more decimal digits and nothing else?
pub open spec fn is_int_literal(s: Seq<char>) -> bool {
    &&& int_literal_digits_start(s) < s.len()
    &&& forall|k: int|
        int_literal_digits_start(s) <= k < s.len() ==> is_digit_char(#[trigger] s[k])
}

/// The mathematical value of an integer literal.
pub open spec fn int_literal_val(s: Seq<char>) -> int {
    let d = digits_val(s.subrange(int_literal_digits_start(s), s.len() as int));
    if s.len() > 0 && s[0] == '-' {
        -d
    } else {
        d
    }
}

/// Parsing any integer literal within the signed 64-bit range yields the
/// `Integer` atom with the literal's mathematical value, with nothing left
/// unconsumed.
pub proof fn lemma_parse_integer_literal(s: Seq<char>)
    requires
        is_int_literal(s),
        -0x8000_0000_0000_0000 <= int_literal_val(s) <= 0x7fff_ffff_ffff_ffff,
    ensures
        spec_program(s) == Some(ValueModel::Atom(AtomModel::Integer(int_literal_val(s)))),
{
    let d0 = int_literal_digits_start(s);
    lemma_run_end_stop(s, 0, CharClass::Ws);
    assert(skip_ws(s, 0) == 0);
    lemma_run_end_exact(s, d0, s.len() as int, CharClass::Digit);
    lemma_run_end_stop(s, s.len() as int, CharClass::Ws);
    assert(spec_comment(s, 0) is None);
    assert(spec_float(s, 0) is None);
    assert(spec_integer(s, 0) == Some(
        (AtomModel::Integer(int_literal_val(s)), s.len() as int),
    ));
    lemma_single_token_program(s, AtomModel::Integer(int_literal_val(s)), s.len() as int);
}

/// Parsing `a.` (digits, a trailing dot, no fractional digits) yields the
/// float `a.0`: the same value that parsing `a.0` yields.
pub proof fn lemma_parse_trailing_dot(a: Seq<char>)
    requires
        a.len() >= 1,
        forall|k: int| 0 <= k < a.len() ==> is_digit_char(#[trigger] a[k]),
    ensures
        spec_program(a + seq!['.']) == Some(
            ValueModel::Atom(
                AtomModel::Float { negative: false, whole: a, frac: seq!['0'] },
            ),
        ),
{
    let s = a + seq!['.'];
    lemma_run_end_stop(s, 0, CharClass::Ws);
    lemma_run_end_exact(s, 0, a.len() as int, CharClass::Digit);
    lemma_run_end_stop(s, s.len() as int, CharClass::Digit);
    lemma_run_end_stop(s, s.len() as int, CharClass::Ws);
    assert(spec_comment(s, 0) is None);
    assert(s.subrange(0, a.len() as int) =~= a);
    let m = AtomModel::Float { negative: false, whole: a, frac: seq!['0'] };
    assert(spec_float(s, 0) == Some((m, s.len() as int)));
    lemma_single_token_program(s, m, s.len() as int);
}

/// An integer literal outside the signed 64-bit range is not an atom at all:
/// the whole-program parse fails rather than truncating the value.
pub proof fn lemma_integer_literal_overflow_fails(s: Seq<char>)
    requires
        is_int_literal(s),
        !(-0x8000_0000_0000_0000 <= int_literal_val(s) <= 0x7fff_ffff_ffff_ffff),
    ensures
        spec_program(s) is None,
        spec_error_pos(s) == 0,
{
    let d0 = int_literal_digits_start(s);
    lemma_run_end_stop(s, 0, CharClass::Ws);
    lemma_run_end_exact(s, d0, s.len() as int, CharClass::Digit);
    assert(spec_comment(s, 0) is None);
    assert(spec_float(s, 0) is None);
    assert(spec_integer(s, 0) is None);
    assert(spec_atom(s, 0) is None);
    assert(spec_nested_list(s, 0) is None);
    assert(spec_expression(s, 0) is None);
    assert(spec_expressions(s, 0).1 == 0);
    assert(s[d0] != ' ' && s[d0] != '\t' && s[d0] != '\n' && s[d0] != '\r');
}

/// A `+` or `-` directly followed by a digit is consumed as a number's sign:
/// the dispatcher never reads it as an operator symbol there. An operator
/// symbol needs trailing whitespace, which is what disambiguates the two.
pub proof fn lemma_sign_before_digit_is_never_a_symbol(s: Seq<char>, i: int)
    requires
        0 <= i <= s.len(),
        ({
            let j = skip_ws(s, i);
            &&& j + 1 < s.len()
            &&& (s[j] == '+' || s[j] == '-')
            &&& is_digit_char(s[j + 1])
        }),
    ensures
        spec_atom(s, i) matches Some((m, k)) ==> (m is Integer || m is Float),
{
    lemma_run_end(s, i, CharClass::Ws);
    let j = skip_ws(s, i);
    assert(!is_ws_char(s[j + 1]));
    assert(spec_comment(s, i) is None);
}

/// The source text of a string literal with the given contents.
pub open spec fn string_literal(c: Seq<char>) -> Seq<char> {
    seq!['"'] + c + seq!['"']
}

proof fn lemma_find_string_end_literal(c: Seq<char>, k: int)
    requires
        forall|k: int| 0 <= k < c.len() ==> c[k] != '"',
        c.len() > 0 ==> c[c.len() - 1] != '\\',
        1 <= k <= 1 + c.len(),
    ensures
        find_string_end(string_literal(c), k) == Some(1 + c.len() as int),
    decreases 1 + c.len() - k,
{
    let s = string_literal(c);
    if k == 1 + c.len() {
        assert(s[k] == '"');
    } else {
        assert(s[k] == c[k - 1]);
        assert(s[k] != '"');
        if s[k] == '\\' && k + 1 < s.len() && s[k + 1] == '"' {
            assert(k + 1 == 1 + c.len());
            assert(c[c.len() - 1] == '\\');
        }
        lemma_find_string_end_literal(c, k + 1);
    }
}

/// Round trip: re-emitting a parsed string atom as literal syntax and
/// parsing it again gives the same atom. Stated from the emission side:
/// parsing the literal written for any contents without a quote (and without
/// a trailing backslash, which would hide the closing quote) yields exactly
/// those contents; in particular `""` parses to the empty string atom.
pub proof fn lemma_string_round_trip(c: Seq<char>)
    requires
        forall|k: int| 0 <= k < c.len() ==> c[k] != '"',
        c.len() > 0 ==> c[c.len() - 1] != '\\',
    ensures
        spec_program(string_literal(c)) == Some(ValueModel::Atom(AtomModel::String(c))),
{
    let s = string_literal(c);
    lemma_run_end_stop(s, 0, CharClass::Ws);
    lemma_run_end_stop(s, 0, CharClass::Digit);
    lemma_run_end_stop(s, s.len() as int, CharClass::Ws);
    assert(spec_comment(s, 0) is None);
    assert(spec_float(s, 0) is None);
    assert(spec_integer(s, 0) is None);
    lemma_find_string_end_literal(c, 1);
    assert(s.subrange(1, 1 + c.len() as int) =~= c);
    assert(spec_string(s, 0) == Some(
        (AtomModel::String(c), s.len() as int),
    ));
    lemma_single_token_program(s, AtomModel::String(c), s.len() as int);
}

/// Does this tree hold no comment marker anywhere?
pub open spec fn no_null(v: ValueModel) -> bool
    decreases v,
{
    match v {
        ValueModel::Atom(a) => !(a == AtomModel::Null),
        ValueModel::List(xs) => all_no_null(xs),
    }
}

pub open spec fn all_no_null(xs: Seq<ValueModel>) -> bool
    decreases xs,
{
    forall|k: int| 0 <= k < xs.len() ==> no_null(#[trigger] xs[k])
}

proof fn lemma_expression_no_null(s: Seq<char>, i: int)
    requires
        0 <= i <= s.len(),
    ensures
        spec_expression(s, i) matches Some((v, j)) ==> (v == ValueModel::Atom(AtomModel::Null)
            || no_null(v)),
    decreases s.len() - i, 1int,
{
    if spec_single_atom(s, i) is None {
        lemma_nested_list_no_null(s, i);
    }
}

proof fn lemma_nested_list_no_null(s: Seq<char>, i: int)
    requires
        0 <= i <= s.len(),
    ensures
        spec_nested_list(s, i) matches Some((v, j)) ==> no_null(v),
    decreases s.len() - i, 0int,
{
    lemma_run_end(s, i, CharClass::Ws);
    let j = skip_ws(s, i);
    if i <= j && j < s.len() && s[j] == '(' {
        lemma_expressions_no_null(s, j + 1);
    }
}

proof fn lemma_expressions_no_null(s: Seq<char>, i: int)
    requires
        0 <= i <= s.len(),
    ensures
        all_no_null(spec_expressions(s, i).0),
    decreases s.len() - i, 2int,
{
    match spec_expression(s, i) {
        Some((v, j)) => {
            lemma_expression_progress(s, i);
            lemma_expression_no_null(s, i);
            if i < j <= s.len() {
                lemma_expressions_no_null(s, j);
                let rest = spec_expressions(s, j).0;
                if !(v == ValueModel::Atom(AtomModel::Null)) {
                    assert forall|k: int|
                        0 <= k < (seq![v] + rest).len() implies no_null(
                        #[trigger] (seq![v] + rest)[k],
                    ) by {
                        if k > 0 {
                            assert((seq![v] + rest)[k] == rest[k - 1]);
                        }
                    }
                }
            }
        },
        None => {
        },
    }
}

/// Comments never appear in a parsed tree: whatever the input, a successful
/// whole-program parse contains no `Null` atom anywhere.
pub proof fn lemma_comments_never_in_tree(s: Seq<char>)
    ensures
        spec_program(s) matches Some(m) ==> no_null(m),
{
    lemma_expressions_no_null(s, 0);
}

/// The asymmetric top-level shaping rule: when the top-level repetition
/// consumes everything but whitespace, exactly one expression is returned
/// unwrapped, and any other count (zero included) is wrapped in a list in
/// source order.
pub proof fn lemma_top_level_shaping(s: Seq<char>)
    requires
        skip_ws(s, spec_expressions(s, 0).1) == s.len(),
    ensures
        spec_expressions(s, 0).0.len() == 1 ==> spec_program(s) == Some(
            spec_expressions(s, 0).0[0],
        ),
        spec_expressions(s, 0).0.len() != 1 ==> spec_program(s) == Some(
            ValueModel::List(spec_expressions(s, 0).0),
        ),
{
}

} // verus!
