use lisp::atom::{AtomType, FloatLit};
use lisp::{parse_program, parse_single_atom, LispValue, ParseError};

fn sym(text: &str) -> LispValue {
    LispValue::Atom(AtomType::Symbol(text.to_string()))
}

fn ival(value: i64) -> LispValue {
    LispValue::Atom(AtomType::Integer(value))
}

fn nested_example() -> LispValue {
    LispValue::List(vec![
        sym("first"),
        LispValue::List(vec![
            sym("list"),
            ival(1),
            LispValue::List(vec![sym("+"), ival(2), ival(3)]),
            ival(9),
        ]),
    ])
}

#[test]
fn test_singe_atom() {
    let input = r#""test""#;
    let (parsed, p) = parse_single_atom(input, 0).unwrap();
    assert_eq!(&input[p..], "");
    assert_eq!(parsed, LispValue::Atom(AtomType::String("test".to_string())));

    let input = "    symbol   ";
    let (parsed, p) = parse_single_atom(input, 0).unwrap();
    assert_eq!(&input[p..], "");
    assert_eq!(parsed, LispValue::Atom(AtomType::Symbol("symbol".to_string())));
}

#[test]
fn test_parse_program() {
    let parsed = parse_program("(first (list 1 (+ 2 3) 9))").unwrap();
    assert_eq!(parsed, nested_example());

    let parsed = parse_program("(first (list 1 (+ 2 3) 9))\n    (first (list 1 (+ 2 3) 9))")
        .unwrap();
    assert_eq!(parsed, LispValue::List(vec![nested_example(), nested_example()]));
}

#[test]
fn empty_list_parses_to_empty_list() {
    assert_eq!(parse_program("()").unwrap(), LispValue::List(vec![]));
}

#[test]
fn empty_input_parses_to_empty_list() {
    assert_eq!(parse_program("").unwrap(), LispValue::List(vec![]));
    assert_eq!(parse_program("   \n\t ").unwrap(), LispValue::List(vec![]));
}

#[test]
fn unbalanced_list_fails() {
    assert!(parse_program("(a b").is_err());
    assert!(parse_program("(a (b c)").is_err());
    assert_eq!(parse_program(")"), Err(ParseError { at: 0 }));
}

#[test]
fn single_expression_collapses() {
    assert_eq!(
        parse_program("symbol").unwrap(),
        LispValue::Atom(AtomType::Symbol("symbol".to_string())),
    );
}

#[test]
fn two_expressions_wrap_in_a_list() {
    assert_eq!(
        parse_program("a b").unwrap(),
        LispValue::List(vec![sym("a"), sym("b")]),
    );
}

#[test]
fn plus_before_digits_is_an_integer_sign() {
    assert_eq!(parse_program("+42").unwrap(), ival(42));
}

#[test]
fn plus_before_whitespace_is_a_symbol() {
    assert_eq!(
        parse_program("+ 42").unwrap(),
        LispValue::List(vec![sym("+"), ival(42)]),
    );
}

#[test]
fn operator_inside_list_needs_trailing_whitespace() {
    assert_eq!(
        parse_program("(a + )").unwrap(),
        LispValue::List(vec![sym("a"), sym("+")]),
    );
    assert!(parse_program("(a +)").is_err());
}

#[test]
fn comments_never_appear_in_the_tree() {
    let with_comment = parse_program("a ;; c\n b").unwrap();
    let without_comment = parse_program("a b").unwrap();
    assert_eq!(with_comment, without_comment);
    assert_eq!(with_comment, LispValue::List(vec![sym("a"), sym("b")]));
}

#[test]
fn comment_only_input_parses_to_empty_list() {
    assert_eq!(parse_program(";; only a comment").unwrap(), LispValue::List(vec![]));
    assert_eq!(parse_program("#| only a comment |#").unwrap(), LispValue::List(vec![]));
}

#[test]
fn comment_before_an_atom_is_skipped() {
    assert_eq!(parse_program("#| c |# 42").unwrap(), ival(42));
    assert_eq!(parse_program("(1 ;; note\n 2)").unwrap(), LispValue::List(vec![ival(1), ival(2)]));
}

#[test]
fn float_takes_priority_over_integer() {
    assert_eq!(
        parse_program("42.5").unwrap(),
        LispValue::Atom(AtomType::Float(FloatLit {
            negative: false,
            whole: "42".to_string(),
            frac: "5".to_string(),
        })),
    );
}

#[test]
fn trailing_dot_parses_like_zero_fraction() {
    let a = parse_program("42.").unwrap();
    let b = parse_program("42.0").unwrap();
    assert_eq!(a, b);
    assert_eq!(
        a,
        LispValue::Atom(AtomType::Float(FloatLit {
            negative: false,
            whole: "42".to_string(),
            frac: "0".to_string(),
        })),
    );
}

#[test]
fn integer_literal_values() {
    assert_eq!(parse_program("12345").unwrap(), ival(12345));
    assert_eq!(parse_program("-7").unwrap(), ival(-7));
    assert_eq!(parse_program("9223372036854775807").unwrap(), ival(i64::MAX));
    assert_eq!(parse_program("-9223372036854775808").unwrap(), ival(i64::MIN));
}

#[test]
fn integer_overflow_fails_the_program() {
    assert!(parse_program("9223372036854775808").is_err());
}

#[test]
fn string_round_trip() {
    assert_eq!(
        parse_program(r#""""#).unwrap(),
        LispValue::Atom(AtomType::String("".to_string())),
    );
    let parsed = parse_program(r#""abc d""#).unwrap();
    assert_eq!(parsed, LispValue::Atom(AtomType::String("abc d".to_string())));
    let reemitted = format!("\"{}\"", "abc d");
    assert_eq!(parse_program(&reemitted).unwrap(), parsed);
}

#[test]
fn non_ascii_string_contents_are_kept() {
    assert_eq!(
        parse_program("\"h\u{e9}llo\"").unwrap(),
        LispValue::Atom(AtomType::String("h\u{e9}llo".to_string())),
    );
}

#[test]
fn unterminated_string_fails_the_program() {
    assert!(parse_program(r#""abc"#).is_err());
}

#[test]
fn trailing_garbage_fails_with_its_position() {
    assert_eq!(parse_program("a )"), Err(ParseError { at: 2 }));
    assert_eq!(parse_program("(a) ("), Err(ParseError { at: 4 }));
}

#[test]
fn whitespace_inside_empty_list_is_rejected() {
    assert!(parse_program("( )").is_err());
    assert!(parse_program("(  )").is_err());
}

#[test]
fn global_variable_symbol_as_a_program() {
    assert_eq!(parse_program("*my-var*").unwrap(), sym("*my-var*"));
}

#[test]
fn adjacent_tokens_need_no_spaces() {
    assert_eq!(
        parse_program("(a(b))").unwrap(),
        LispValue::List(vec![sym("a"), LispValue::List(vec![sym("b")])]),
    );
}

#[test]
fn carriage_return_counts_as_whitespace() {
    assert_eq!(
        parse_program("a\r\nb").unwrap(),
        LispValue::List(vec![sym("a"), sym("b")]),
    );
    assert_eq!(parse_program(";; c\r\n42").unwrap(), ival(42));
}

#[test]
fn negative_float_program() {
    assert_eq!(
        parse_program("-42.").unwrap(),
        LispValue::Atom(AtomType::Float(FloatLit {
            negative: true,
            whole: "42".to_string(),
            frac: "0".to_string(),
        })),
    );
}

#[test]
fn dot_with_no_fraction_digits_ends_the_float() {
    assert_eq!(
        parse_program("42.abc").unwrap(),
        LispValue::List(vec![
            LispValue::Atom(AtomType::Float(FloatLit {
                negative: false,
                whole: "42".to_string(),
                frac: "0".to_string(),
            })),
            sym("abc"),
        ]),
    );
}

#[test]
fn deeply_nested_lists_preserve_structure() {
    assert_eq!(
        parse_program("((()))").unwrap(),
        LispValue::List(vec![LispValue::List(vec![LispValue::List(vec![])])]),
    );
}
