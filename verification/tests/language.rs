// End-to-end tests of the language: source text through the lexer, parser
// and evaluator against a fresh global environment.

use vig::environment::{create_global_environment, Environment};
use vig::errors::{Error, ErrorKind};
use vig::interpreter::interpret;
use vig::values::{render, RuntimeValue};

fn run(src: &str) -> (Result<RuntimeValue, Error>, Vec<String>) {
    let mut env = create_global_environment();
    let mut out: Vec<String> = Vec::new();
    let r = interpret(src, &mut env, &mut out, 0);
    (r, out)
}

fn run_value(src: &str) -> RuntimeValue {
    let (r, _) = run(src);
    r.expect("expected successful evaluation")
}

fn shown(src: &str) -> String {
    render(&run_value(src))
}

fn error_kind(src: &str) -> ErrorKind {
    let (r, _) = run(src);
    r.err().expect("expected an error").kind
}

#[test]
fn division_of_integers() {
    assert_eq!(shown("10 / 2"), "5");
    assert_eq!(shown("7 / 2"), "3");
    assert_eq!(shown("0 - 7 / 2"), "-3");
}

#[test]
fn division_by_zero_is_null() {
    assert!(matches!(run_value("1 / 0"), RuntimeValue::Null));
}

#[test]
fn let_binding_is_assignable() {
    assert_eq!(shown("let x = 5; x = 6; x"), "6");
}

#[test]
fn const_binding_is_immutable() {
    assert_eq!(error_kind("const x = 5; x = 6;"), ErrorKind::Immutability);
}

#[test]
fn function_declaration_and_call() {
    assert_eq!(shown("func add(a, b) { ret a + b; } add(2, 3)"), "5");
}

#[test]
fn closures_capture_by_snapshot() {
    assert_eq!(shown("let x = 1; func f() { ret x; } x = 2; f()"), "1");
}

#[test]
fn closure_mutation_is_invisible_outside() {
    assert_eq!(shown("let x = 1; func f() { x = 99; ret 0; } f() x"), "1");
}

#[test]
fn for_loop_prints_each_element() {
    let (r, out) = run("for (i in Array::from(1, 2, 3)) { print!(i); }");
    assert!(r.is_ok());
    assert_eq!(out, vec!["1".to_string(), "2".to_string(), "3".to_string()]);
}

#[test]
fn for_loop_binding_is_undefined_afterwards() {
    let mut env = create_global_environment();
    let mut out: Vec<String> = Vec::new();
    let r = interpret(
        "for (i in Array::from(1, 2, 3)) { print!(i); }",
        &mut env,
        &mut out,
        0,
    );
    assert!(r.is_ok());
    let r2 = interpret("i", &mut env, &mut out, 0);
    assert_eq!(r2.err().expect("binding must be gone").kind, ErrorKind::NameResolution);
}

#[test]
fn for_loop_result_is_last_body_value() {
    assert_eq!(shown("for (i in Array::from(1, 2)) { i * 10 }"), "20");
}

#[test]
fn for_loop_over_empty_array_is_null() {
    assert!(matches!(run_value("for (i in Array::new(0)) { 1 }"), RuntimeValue::Null));
}

#[test]
fn for_loop_over_non_array_fails() {
    assert_eq!(error_kind("for (i in 5) { i }"), ErrorKind::NotIterable);
}

#[test]
fn object_literal_and_member_access() {
    assert_eq!(shown("let o = { a: 1, b: 2 }; o.a"), "1");
    assert_eq!(shown("let o = { a: 1, b: 2 }; o.b"), "2");
}

#[test]
fn missing_property_reads_null() {
    assert!(matches!(run_value("let o = { a: 1, b: 2 }; o.c"), RuntimeValue::Null));
}

#[test]
fn object_shorthand_property() {
    assert_eq!(shown("let a = 7; let o = { a, b: 2 }; o.a"), "7");
}

#[test]
fn string_concatenation() {
    match run_value("\"foo\" + \"bar\"") {
        RuntimeValue::Str { value } => assert_eq!(value, "foobar"),
        other => panic!("expected a string, got {}", render(&other)),
    }
}

#[test]
fn mismatched_variant_comparison_is_null_not_false() {
    let v = run_value("1 == \"1\"");
    assert!(
        matches!(v, RuntimeValue::Null),
        "cross-variant comparison must be null, got {}",
        render(&v)
    );
}

#[test]
fn redeclaration_in_same_scope_fails() {
    assert_eq!(error_kind("let x = 1; let x = 2;"), ErrorKind::DuplicateDecl);
}

#[test]
fn shadowing_in_nested_scope_is_legal() {
    assert_eq!(shown("let x = 1; func f() { let x = 2; ret x; } f()"), "2");
    assert_eq!(shown("let x = 1; func f() { let x = 2; ret x; } f() x"), "1");
}

#[test]
fn arithmetic_operators() {
    assert_eq!(shown("2 + 3"), "5");
    assert_eq!(shown("2 - 3"), "-1");
    assert_eq!(shown("2 * 3"), "6");
    assert_eq!(shown("7 % 2"), "1");
}

#[test]
fn arithmetic_overflow_is_null() {
    assert!(matches!(
        run_value("9223372036854775807 + 1"),
        RuntimeValue::Null
    ));
}

#[test]
fn comparison_operators() {
    assert_eq!(shown("1 < 2"), "true");
    assert_eq!(shown("2 < 1"), "false");
    assert_eq!(shown("2 > 1"), "true");
    assert_eq!(shown("1 == 1"), "true");
    assert_eq!(shown("1 != 2"), "true");
    assert_eq!(shown("\"a\" == \"a\""), "true");
    assert_eq!(shown("\"a\" != \"b\""), "true");
    assert_eq!(shown("true == true"), "true");
}

#[test]
fn unsupported_operator_pairing_is_null() {
    assert!(matches!(run_value("true + false"), RuntimeValue::Null));
    assert!(matches!(run_value("\"a\" - \"b\""), RuntimeValue::Null));
}

#[test]
fn if_statement_branches() {
    assert_eq!(shown("if true { 1 } else { 2 }"), "1");
    assert_eq!(shown("if false { 1 } else { 2 }"), "2");
    assert_eq!(shown("if 5 { 1 } else { 2 }"), "1");
    assert_eq!(shown("if null { 1 } else { 2 }"), "2");
    assert!(matches!(run_value("if false { 1 }"), RuntimeValue::Null));
}

#[test]
fn return_stops_the_function_body() {
    assert_eq!(shown("func f() { ret 1; 2 } f()"), "1");
}

#[test]
fn return_inside_conditional_exits_the_function() {
    assert_eq!(shown("func f(x) { if x { ret 1; } ret 2; } f(true)"), "1");
    assert_eq!(shown("func f(x) { if x { ret 1; } ret 2; } f(false)"), "2");
}

#[test]
fn fall_through_function_returns_null() {
    assert!(matches!(run_value("func f() { 5 } f()"), RuntimeValue::Null));
}

#[test]
fn return_at_top_level_fails() {
    assert_eq!(error_kind("ret 5;"), ErrorKind::ReturnOutsideFunction);
}

#[test]
fn array_literal_and_computed_index() {
    assert_eq!(shown("[1, 2, 3]"), "[1, 2, 3]");
    assert_eq!(shown("[10, 20][1]"), "20");
    assert!(matches!(run_value("[10, 20][5]"), RuntimeValue::Null));
}

#[test]
fn member_assignment_mutates_nested_state() {
    assert_eq!(shown("let o = { a: 1 }; o.a = 5; o.a"), "5");
    assert_eq!(shown("let o = { a: { b: 1 } }; o.a.b = 7; o.a.b"), "7");
    assert_eq!(shown("let xs = Array::from(1, 2); xs[0] = 9; xs[0]"), "9");
}

#[test]
fn assignment_to_undeclared_name_fails() {
    assert_eq!(error_kind("y = 1;"), ErrorKind::NameResolution);
}

#[test]
fn unresolved_reference_fails() {
    assert_eq!(error_kind("y"), ErrorKind::NameResolution);
}

#[test]
fn calling_a_non_function_fails() {
    assert_eq!(error_kind("5(1)"), ErrorKind::NotCallable);
}

#[test]
fn wrong_arity_fails() {
    assert_eq!(error_kind("func f(a) { ret a; } f()"), ErrorKind::Arity);
    assert_eq!(error_kind("func f(a) { ret a; } f(1, 2)"), ErrorKind::Arity);
}

#[test]
fn unbounded_recursion_hits_the_depth_guard() {
    assert_eq!(error_kind("func f(g) { ret g(g); } f(f)"), ErrorKind::DepthLimit);
}

#[test]
fn unterminated_string_is_a_lex_error() {
    assert_eq!(error_kind("\"abc"), ErrorKind::Lex);
}

#[test]
fn unexpected_token_is_a_parse_error() {
    assert_eq!(error_kind("let = 5;"), ErrorKind::Parse);
    assert_eq!(error_kind("(1 + 2"), ErrorKind::Parse);
    assert_eq!(error_kind("const x;"), ErrorKind::Parse);
}

#[test]
fn oversized_integer_literal_is_a_parse_error() {
    assert_eq!(error_kind("9999999999999999999999999"), ErrorKind::Parse);
}

#[test]
fn array_builtins() {
    assert_eq!(shown("Array::new(3)"), "[null, null, null]");
    assert_eq!(shown("Array::from(1, 2)"), "[1, 2]");
    assert_eq!(shown("Array::has(Array::from(1, 2), 2)"), "true");
    assert_eq!(shown("Array::has(Array::from(1, 2), 3)"), "false");
    assert_eq!(shown("Array::concat(Array::from(1), 2)"), "[1, 2]");
}

#[test]
fn array_has_on_non_array_fails() {
    assert_eq!(error_kind("Array::has(5, 1)"), ErrorKind::TypeMismatch);
}

#[test]
fn date_now_returns_the_sampled_clock() {
    let mut env = create_global_environment();
    let mut out: Vec<String> = Vec::new();
    let r = interpret("Date::now()", &mut env, &mut out, 1234).expect("now must succeed");
    match r {
        RuntimeValue::Number { value } => assert_eq!(value, 1234),
        other => panic!("expected a number, got {}", render(&other)),
    }
}

#[test]
fn print_renders_arguments_without_separator() {
    let (r, out) = run("print!(\"a\", 1, true, null)");
    let v = r.expect("print must succeed");
    assert!(matches!(v, RuntimeValue::Null));
    assert_eq!(out, vec!["a1truenull".to_string()]);
}

#[test]
fn print_renders_arrays_with_quoted_strings() {
    let (_, out) = run("print!(Array::from(1, \"x\"))");
    assert_eq!(out, vec!["[1, \"x\"]".to_string()]);
}

#[test]
fn unrecognized_characters_are_dropped() {
    assert_eq!(shown("1 @ + # 2"), "3");
}

#[test]
fn identifiers_may_contain_dashes_and_bangs() {
    assert_eq!(shown("let a-b = 5; a-b"), "5");
}

#[test]
fn dotted_and_coloned_member_access_agree() {
    assert_eq!(shown("let o = { a: 3 }; o.a + o::a"), "6");
}

#[test]
fn repl_style_incremental_session_keeps_declarations() {
    let mut env = create_global_environment();
    let mut out: Vec<String> = Vec::new();
    interpret("let x = 40;", &mut env, &mut out, 0).expect("declaration must succeed");
    let r = interpret("x + 2", &mut env, &mut out, 0).expect("x must still be bound");
    match r {
        RuntimeValue::Number { value } => assert_eq!(value, 42),
        other => panic!("expected a number, got {}", render(&other)),
    }
}

#[test]
fn last_top_level_statement_gives_the_value() {
    assert_eq!(shown("1 2 3"), "3");
    let mut env = create_global_environment();
    let mut out: Vec<String> = Vec::new();
    let r = interpret("", &mut env, &mut out, 0).expect("empty program runs");
    assert!(matches!(r, RuntimeValue::Null));
}

#[test]
fn builtins_are_immutable() {
    assert_eq!(error_kind("true = 5;"), ErrorKind::Immutability);
    assert_eq!(error_kind("let true = 1;"), ErrorKind::DuplicateDecl);
    assert_eq!(error_kind("print! = 5;"), ErrorKind::Immutability);
}

#[test]
fn negative_numbers_render_with_sign() {
    assert_eq!(shown("0 - 5"), "-5");
    assert_eq!(shown("0 - 5 * 3"), "-15");
}

#[test]
fn array_has_compares_arrays_elementwise() {
    assert_eq!(
        shown("Array::has(Array::from(Array::from(1, 2)), Array::from(1, 2))"),
        "true"
    );
    assert_eq!(
        shown("Array::has(Array::from(Array::from(1, 2)), Array::from(1, 3))"),
        "false"
    );
}

#[test]
fn fractional_literals_are_not_numbers() {
    // `1.5` lexes as a member access of `1`, whose property is no identifier.
    assert_eq!(error_kind("1.5"), ErrorKind::Parse);
}

#[test]
fn precedence_of_operators() {
    assert_eq!(shown("1 + 2 * 3"), "7");
    assert_eq!(shown("(1 + 2) * 3"), "9");
    assert_eq!(shown("10 - 2 - 3"), "5");
}
