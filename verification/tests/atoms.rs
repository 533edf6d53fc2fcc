use lisp::atom::{self, AtomType, FloatLit};
use lisp::atom::comment::{parse_comment, parse_multiline_comment, parse_single_line_comment, parse0};

fn float_atom(negative: bool, whole: &str, frac: &str) -> AtomType {
    AtomType::Float(FloatLit {
        negative,
        whole: whole.to_string(),
        frac: frac.to_string(),
    })
}

fn check_integer(input: &str, rest: &str, value: i64) {
    let (a, p) = atom::integer::parse(input, 0).unwrap();
    assert_eq!(a, AtomType::Integer(value));
    assert_eq!(&input[p..], rest);
}

#[test]
fn integers_with_signs_and_spacing() {
    check_integer("42", "", 42);
    check_integer("-42", "", -42);
    check_integer(" 42", "", 42);
    check_integer(" -42", "", -42);
    check_integer("+42", "", 42);
    check_integer(
        "      +42                            something_else",
        "something_else",
        42,
    );
}

#[test]
fn integers_at_the_64_bit_bounds() {
    check_integer("9223372036854775807", "", i64::MAX);
    check_integer("-9223372036854775808", "", i64::MIN);
}

#[test]
fn integer_overflow_is_a_mismatch() {
    assert!(atom::integer::parse("9223372036854775808", 0).is_none());
    assert!(atom::integer::parse("-9223372036854775809", 0).is_none());
    assert!(atom::integer::parse("99999999999999999999999999", 0).is_none());
}

#[test]
fn integer_needs_at_least_one_digit() {
    assert!(atom::integer::parse("", 0).is_none());
    assert!(atom::integer::parse("+", 0).is_none());
    assert!(atom::integer::parse("abc", 0).is_none());
}

fn check_float(input: &str, rest: &str, expected: AtomType) {
    let (a, p) = atom::float::parse(input, 0).unwrap();
    assert_eq!(a, expected);
    assert_eq!(&input[p..], rest);
}

#[test]
fn floats_with_signs_and_spacing() {
    check_float("42.", "", float_atom(false, "42", "0"));
    check_float("-42.", "", float_atom(true, "42", "0"));
    check_float(" 42.", "", float_atom(false, "42", "0"));
    check_float(" -42.", "", float_atom(true, "42", "0"));
    check_float("+42.", "", float_atom(false, "42", "0"));
    check_float("+42.42", "", float_atom(false, "42", "42"));
    check_float("    +42.42       ", "", float_atom(false, "42", "42"));
    check_float(
        "    +42.42       something_else",
        "something_else",
        float_atom(false, "42", "42"),
    );
}

#[test]
fn trailing_dot_equals_explicit_zero_fraction() {
    let (a, _) = atom::float::parse("42.", 0).unwrap();
    let (b, _) = atom::float::parse("42.0", 0).unwrap();
    assert_eq!(a, b);
}

#[test]
fn float_needs_integer_part_and_dot() {
    assert!(atom::float::parse("42", 0).is_none());
    assert!(atom::float::parse(".5", 0).is_none());
    assert!(atom::float::parse("- 42.", 0).is_none());
}

fn check_string(input: &str, rest: &str, contents: &str) {
    let (a, p) = atom::string::parse(input, 0).unwrap();
    assert_eq!(a, AtomType::String(contents.to_string()));
    assert_eq!(&input[p..], rest);
}

#[test]
fn string_literals() {
    check_string(r#""asd""#, "", "asd");
    check_string(r#""""#, "", "");
    check_string(r#""$?!@#_:;;""#, "", "$?!@#_:;;");
}

#[test]
fn escaped_quote_is_kept_verbatim() {
    check_string(r#""\"" symbol"#, "symbol", r#"\""#);
    check_string(r#""\""            42"#, "42", r#"\""#);
}

#[test]
fn string_mismatches() {
    assert!(atom::string::parse(r#"(":")""#, 0).is_none());
    assert!(atom::string::parse(r#"("")""#, 0).is_none());
    assert!(atom::string::parse(r#""unterminated"#, 0).is_none());
}

fn check_comment<P: Fn(&str, usize) -> Option<(AtomType, usize)>>(
    parser: P,
    input: &str,
    rest: &str,
) {
    let (a, p) = parser(input, 0).unwrap();
    assert_eq!(a, AtomType::Null);
    assert_eq!(&input[p..], rest);
}

#[test]
fn single_line_comment_runs_to_end_of_line() {
    check_comment(
        parse_single_line_comment,
        ";; comment\n    something_else",
        "something_else",
    );
    check_comment(parse_single_line_comment, ";; comment", "");
}

#[test]
fn multiline_comment_runs_to_first_close() {
    check_comment(parse_multiline_comment, "#|\n    Comment\n    Commnet\n    |#", "");
    check_comment(
        parse_multiline_comment,
        "\n    \n    \n#|\n Comment\n Commnet\n |#\n \n \n \n ",
        "",
    );
    check_comment(parse_multiline_comment, "#| first |# after", "after");
}

#[test]
fn multiline_comment_does_not_nest() {
    check_comment(parse_multiline_comment, "#| outer #| inner |# rest", "rest");
}

#[test]
fn comment_tries_multiline_then_single_line() {
    check_comment(parse_comment, ";; comment", "");
    check_comment(parse_comment, "#| comment |#", "");
}

#[test]
fn comment_mismatches() {
    assert!(parse_comment("; single semicolon", 0).is_none());
    assert!(parse_comment("#| never closed", 0).is_none());
    assert!(parse_comment("plain", 0).is_none());
}

#[test]
fn many_comments_yield_one_null_each() {
    let input = "#| comment |#";
    let (atoms, p) = parse0(input, 0);
    assert_eq!(atoms, vec![AtomType::Null]);
    assert_eq!(&input[p..], "");

    let input = ";; comment |#";
    let (atoms, p) = parse0(input, 0);
    assert_eq!(atoms, vec![AtomType::Null]);
    assert_eq!(&input[p..], "");

    let input = ";; comment \n    #|\n    another comment |#\n    \n    \n    ";
    let (atoms, p) = parse0(input, 0);
    assert_eq!(atoms, vec![AtomType::Null, AtomType::Null]);
    assert_eq!(&input[p..], "");

    let (atoms, p) = parse0("42", 0);
    assert_eq!(atoms, vec![]);
    assert_eq!(p, 0);
}

fn sym(text: &str) -> AtomType {
    AtomType::Symbol(text.to_string())
}

fn check_symbol<P: Fn(&str, usize) -> Option<(AtomType, usize)>>(
    parser: P,
    input: &str,
    rest: &str,
    text: &str,
) {
    let (a, p) = parser(input, 0).unwrap();
    assert_eq!(a, sym(text));
    assert_eq!(&input[p..], rest);
}

#[test]
fn global_variable_symbols() {
    check_symbol(atom::symbol::parse_global_vars, " *global-var* another_input", "another_input", "*global-var*");
    check_symbol(atom::symbol::parse_global_vars, "*global_var* another_input", "another_input", "*global_var*");
}

#[test]
fn global_variable_mismatches() {
    assert!(atom::symbol::parse_global_vars(" ** another_input", 0).is_none());
    assert!(atom::symbol::parse_global_vars("**another_input", 0).is_none());
    assert!(atom::symbol::parse_global_vars("**", 0).is_none());
    assert!(atom::symbol::parse_global_vars("*unbalanced", 0).is_none());
}

#[test]
fn arithmetic_operator_symbols() {
    check_symbol(atom::symbol::parse_arithmetics, "/ 4 2", "4 2", "/");
    check_symbol(atom::symbol::parse_arithmetics, "* 4 2", "4 2", "*");
    check_symbol(atom::symbol::parse_arithmetics, "- 4 2", "4 2", "-");
    check_symbol(atom::symbol::parse_arithmetics, "+ 4 2", "4 2", "+");
    check_symbol(atom::symbol::parse_arithmetics, "   +      4 2", "4 2", "+");
}

#[test]
fn arithmetic_operator_needs_trailing_whitespace() {
    assert!(atom::symbol::parse_arithmetics("42", 0).is_none());
    assert!(atom::symbol::parse_arithmetics("+42", 0).is_none());
    assert!(atom::symbol::parse_arithmetics("+", 0).is_none());
}

#[test]
fn regular_symbols() {
    check_symbol(atom::symbol::parse_regular_symbols, "a", "", "a");
    check_symbol(atom::symbol::parse_regular_symbols, " a ", "", "a");
    check_symbol(atom::symbol::parse_regular_symbols, "a1", "", "a1");
    check_symbol(atom::symbol::parse_regular_symbols, "my-func +42", "+42", "my-func");
    check_symbol(atom::symbol::parse_regular_symbols, "addition_function 42 -21", "42 -21", "addition_function");
}

#[test]
fn regular_symbols_dont_parse_numbers() {
    let input = "42";
    assert!(atom::symbol::parse_regular_symbols(input, 0).is_none());
}

#[test]
fn regular_symbol_mismatches() {
    assert!(atom::symbol::parse_regular_symbols("(symbol)", 0).is_none());
    assert!(atom::symbol::parse_regular_symbols("(+)", 0).is_none());
}

#[test]
fn symbol_dispatch_order() {
    check_symbol(atom::symbol::parse, "a", "", "a");
    check_symbol(atom::symbol::parse, "+ 3 1", "3 1", "+");
    check_symbol(atom::symbol::parse, "- 4 1", "4 1", "-");
    check_symbol(atom::symbol::parse, "*global_var*", "", "*global_var*");
    check_symbol(atom::symbol::parse, "my_func 42 -21", "42 -21", "my_func");
}

#[test]
fn atom_dispatch_tries_float_before_integer() {
    let (a, p) = atom::parse("42.5", 0).unwrap();
    assert_eq!(a, float_atom(false, "42", "5"));
    assert_eq!(p, 4);
    let (a, _) = atom::parse("42", 0).unwrap();
    assert_eq!(a, AtomType::Integer(42));
}

#[test]
fn atom_dispatch_covers_every_kind() {
    let (a, _) = atom::parse(";; c", 0).unwrap();
    assert_eq!(a, AtomType::Null);
    let (a, _) = atom::parse(r#""s""#, 0).unwrap();
    assert_eq!(a, AtomType::String("s".to_string()));
    let (a, _) = atom::parse("name", 0).unwrap();
    assert_eq!(a, sym("name"));
    assert!(atom::parse("(", 0).is_none());
    assert!(atom::parse("", 0).is_none());
}
