// Unit tests of the components: the lexer's token stream, the parser's
// trees, the environment's scope rules, and the value utilities.

use vig::ast::{Expr, Program, Stmt};
use vig::environment::{create_global_environment, Environment};
use vig::errors::ErrorKind;
use vig::lexer::{tokenize, Token, TokenType};
use vig::parser::Parser;
use vig::text::{int_to_string, parse_digits, str_eq};
use vig::values::{equals, render, value_eq, Object, RuntimeValue};

fn lex(src: &str) -> Vec<Token> {
    tokenize(src).expect("lexing must succeed")
}

fn kinds(src: &str) -> Vec<TokenType> {
    lex(src).into_iter().map(|t| t.token_type).collect()
}

fn parse(src: &str) -> Program {
    let mut parser = Parser::new(lex(src));
    parser.produce_ast().expect("parsing must succeed")
}

#[test]
fn tokenize_kinds_and_texts() {
    let toks = lex("let x = 41 + 1;");
    let expected = [
        (TokenType::Let, "let"),
        (TokenType::Ident, "x"),
        (TokenType::Eq, "="),
        (TokenType::IntLit, "41"),
        (TokenType::BinOp, "+"),
        (TokenType::IntLit, "1"),
        (TokenType::Semi, ";"),
        (TokenType::EOF, ""),
    ];
    assert_eq!(toks.len(), expected.len());
    for (t, (k, s)) in toks.iter().zip(expected.iter()) {
        assert_eq!(t.token_type, *k);
        assert_eq!(t.value, *s);
    }
}

#[test]
fn tokenize_keywords_and_punctuation() {
    assert_eq!(
        kinds("const func ret mut if else for in"),
        vec![
            TokenType::Const,
            TokenType::Func,
            TokenType::Ret,
            TokenType::Mut,
            TokenType::If,
            TokenType::Else,
            TokenType::For,
            TokenType::In,
            TokenType::EOF,
        ]
    );
    assert_eq!(
        kinds("( ) { } [ ] , : ;"),
        vec![
            TokenType::OpenParen,
            TokenType::CloseParen,
            TokenType::OpenBrace,
            TokenType::CloseBrace,
            TokenType::OpenBracket,
            TokenType::CloseBracket,
            TokenType::Comma,
            TokenType::Colon,
            TokenType::Semi,
            TokenType::EOF,
        ]
    );
}

#[test]
fn tokenize_two_character_operators() {
    let toks = lex("a == b != c :: d . e");
    let ops: Vec<(TokenType, String)> =
        toks.into_iter().map(|t| (t.token_type, t.value)).collect();
    assert_eq!(ops[1], (TokenType::BinOp, "==".to_string()));
    assert_eq!(ops[3], (TokenType::BinOp, "!=".to_string()));
    assert_eq!(ops[5], (TokenType::MemAccess, "::".to_string()));
    assert_eq!(ops[7], (TokenType::MemAccess, ".".to_string()));
}

#[test]
fn tokenize_string_literal_content() {
    let toks = lex("\"hello world\"");
    assert_eq!(toks[0].token_type, TokenType::StringLit);
    assert_eq!(toks[0].value, "hello world");
}

#[test]
fn tokenize_unterminated_string_fails() {
    let e = tokenize("\"oops").err().expect("must fail");
    assert_eq!(e.kind, ErrorKind::Lex);
}

#[test]
fn parse_binary_expression_shape() {
    let prog = parse("1 + 2 * 3");
    assert_eq!(prog.body.len(), 1);
    match &prog.body[0] {
        Stmt::Expr(Expr::BinExp { left, op, right }) => {
            assert_eq!(op, "+");
            assert!(matches!(**left, Expr::IntLit { value: 1 }));
            match &**right {
                Expr::BinExp { op, .. } => assert_eq!(op, "*"),
                other => panic!("expected a product on the right, got {:?}", kind_of(other)),
            }
        },
        _ => panic!("expected a binary expression statement"),
    }
}

fn kind_of(e: &Expr) -> &'static str {
    match e {
        Expr::BinExp { .. } => "BinExp",
        Expr::IntLit { .. } => "IntLit",
        Expr::Array { .. } => "Array",
        Expr::Ident { .. } => "Ident",
        Expr::Assign { .. } => "Assign",
        Expr::ObjectLit { .. } => "ObjectLit",
        Expr::Member { .. } => "Member",
        Expr::Call { .. } => "Call",
        Expr::StringLit { .. } => "StringLit",
    }
}

#[test]
fn parse_variable_declarations() {
    let prog = parse("let x = 1; let mut y; const z = 3;");
    assert_eq!(prog.body.len(), 3);
    match &prog.body[0] {
        Stmt::VarDecl { mutable, name, value } => {
            assert!(*mutable);
            assert_eq!(name, "x");
            assert!(value.is_some());
        },
        _ => panic!("expected a declaration"),
    }
    match &prog.body[1] {
        Stmt::VarDecl { mutable, name, value } => {
            assert!(*mutable);
            assert_eq!(name, "y");
            assert!(value.is_none());
        },
        _ => panic!("expected a declaration"),
    }
    match &prog.body[2] {
        Stmt::VarDecl { mutable, name, .. } => {
            assert!(!*mutable);
            assert_eq!(name, "z");
        },
        _ => panic!("expected a declaration"),
    }
}

#[test]
fn parse_function_declaration() {
    let prog = parse("func add(a, b) { ret a + b; }");
    match &prog.body[0] {
        Stmt::FuncDecl { params, name, body } => {
            assert_eq!(name, "add");
            assert_eq!(params, &vec!["a".to_string(), "b".to_string()]);
            assert_eq!(body.len(), 1);
            assert!(matches!(body[0], Stmt::Return { .. }));
        },
        _ => panic!("expected a function declaration"),
    }
}

#[test]
fn parse_for_statement() {
    let prog = parse("for (i in xs) { i }");
    match &prog.body[0] {
        Stmt::For { ident, body, .. } => {
            assert_eq!(ident, "i");
            assert_eq!(body.len(), 1);
        },
        _ => panic!("expected a for statement"),
    }
}

#[test]
fn parser_helpers_peek_and_consume() {
    let mut p = Parser::new(lex("1 2"));
    assert!(p.not_eof());
    assert_eq!(p.at().value, "1");
    let t = p.consume();
    assert_eq!(t.value, "1");
    assert_eq!(p.at().value, "2");
    let r = p.consume_expected(TokenType::IntLit, "expected a number");
    assert_eq!(r.expect("kind matches").value, "2");
    assert!(!p.not_eof());
    let r2 = p.consume_expected(TokenType::Ident, "expected an identifier");
    assert_eq!(r2.err().expect("kind differs").kind, ErrorKind::Parse);
}

#[test]
fn environment_declare_lookup_assign() {
    let mut env = Environment::new(None);
    env.declare_var("x".to_string(), RuntimeValue::Number { value: 1 }, true)
        .expect("fresh declaration succeeds");
    match env.lookup_var("x".to_string()).expect("x is bound") {
        RuntimeValue::Number { value } => assert_eq!(value, 1),
        _ => panic!("expected a number"),
    }
    env.assign_var("x".to_string(), &RuntimeValue::Number { value: 2 })
        .expect("mutable assignment succeeds");
    match env.lookup_var("x".to_string()).expect("x is bound") {
        RuntimeValue::Number { value } => assert_eq!(value, 2),
        _ => panic!("expected a number"),
    }
    let dup = env.declare_var("x".to_string(), RuntimeValue::Null, true);
    assert_eq!(dup.err().expect("duplicate fails").kind, ErrorKind::DuplicateDecl);
}

#[test]
fn environment_resolves_outward_and_shadows() {
    let mut outer = Environment::new(None);
    outer
        .declare_var("x".to_string(), RuntimeValue::Number { value: 1 }, true)
        .expect("declare x");
    outer
        .declare_var("y".to_string(), RuntimeValue::Number { value: 9 }, true)
        .expect("declare y");
    let mut inner = Environment::new(Some(outer));
    inner
        .declare_var("x".to_string(), RuntimeValue::Number { value: 2 }, true)
        .expect("shadowing succeeds");
    match inner.lookup_var("x".to_string()).expect("x resolves") {
        RuntimeValue::Number { value } => assert_eq!(value, 2),
        _ => panic!("expected a number"),
    }
    match inner.lookup_var("y".to_string()).expect("y resolves through the parent") {
        RuntimeValue::Number { value } => assert_eq!(value, 9),
        _ => panic!("expected a number"),
    }
    assert!(inner.resolve("y").is_some());
    assert!(inner.resolve("z").is_none());
}

#[test]
fn environment_void_var_removes_the_binding() {
    let mut env = Environment::new(None);
    env.declare_var("x".to_string(), RuntimeValue::Number { value: 1 }, true)
        .expect("declare x");
    let r = env.void_var("x".to_string());
    assert!(matches!(r, RuntimeValue::Null));
    assert!(env.lookup_var("x".to_string()).is_err());
    // removing an absent name is not an error
    env.void_var("x".to_string());
}

#[test]
fn environment_constant_assignment_fails() {
    let mut env = Environment::new(None);
    env.declare_var("k".to_string(), RuntimeValue::Number { value: 1 }, false)
        .expect("declare k");
    let r = env.assign_var("k".to_string(), &RuntimeValue::Number { value: 2 });
    assert_eq!(r.err().expect("constant").kind, ErrorKind::Immutability);
}

#[test]
fn global_environment_has_the_builtins() {
    let env = create_global_environment();
    assert!(matches!(
        env.lookup_var("true".to_string()).expect("true is bound"),
        RuntimeValue::Bool { value: true }
    ));
    assert!(matches!(
        env.lookup_var("false".to_string()).expect("false is bound"),
        RuntimeValue::Bool { value: false }
    ));
    assert!(matches!(
        env.lookup_var("null".to_string()).expect("null is bound"),
        RuntimeValue::Null
    ));
    assert!(matches!(
        env.lookup_var("print!".to_string()).expect("print! is bound"),
        RuntimeValue::NativeFunction { .. }
    ));
    assert!(matches!(
        env.lookup_var("Date".to_string()).expect("Date is bound"),
        RuntimeValue::Object(..)
    ));
    assert!(matches!(
        env.lookup_var("Array".to_string()).expect("Array is bound"),
        RuntimeValue::Object(..)
    ));
}

#[test]
fn equals_is_same_variant_only() {
    let one = RuntimeValue::Number { value: 1 };
    let s1 = RuntimeValue::Str { value: "1".to_string() };
    assert!(equals(one.clone(), RuntimeValue::Number { value: 1 }, true));
    assert!(!equals(one.clone(), RuntimeValue::Number { value: 2 }, true));
    assert!(!equals(one.clone(), s1.clone(), true));
    assert!(equals(one, s1, false));
    assert!(equals(RuntimeValue::Null, RuntimeValue::Null, true));
}

#[test]
fn value_eq_compares_arrays_elementwise() {
    let a = RuntimeValue::Array {
        elements: vec![
            RuntimeValue::Number { value: 1 },
            RuntimeValue::Str { value: "x".to_string() },
        ],
    };
    let b = RuntimeValue::Array {
        elements: vec![
            RuntimeValue::Number { value: 1 },
            RuntimeValue::Str { value: "x".to_string() },
        ],
    };
    let c = RuntimeValue::Array { elements: vec![RuntimeValue::Number { value: 1 }] };
    assert!(value_eq(&a, &b));
    assert!(!value_eq(&a, &c));
    let o = RuntimeValue::Object(Object { properties: vec![] });
    assert!(!value_eq(&o, &o));
}

#[test]
fn render_display_forms() {
    assert_eq!(render(&RuntimeValue::Null), "null");
    assert_eq!(render(&RuntimeValue::Number { value: -42 }), "-42");
    assert_eq!(render(&RuntimeValue::Bool { value: true }), "true");
    assert_eq!(render(&RuntimeValue::Str { value: "hi".to_string() }), "hi");
    assert_eq!(
        render(&RuntimeValue::Array {
            elements: vec![
                RuntimeValue::Number { value: 1 },
                RuntimeValue::Str { value: "s".to_string() },
                RuntimeValue::Null,
            ]
        }),
        "[1, \"s\", null]"
    );
    assert_eq!(render(&RuntimeValue::Object(Object { properties: vec![] })), "<object>");
}

#[test]
fn text_utilities() {
    assert!(str_eq("abc", "abc"));
    assert!(!str_eq("abc", "abd"));
    assert!(!str_eq("abc", "ab"));
    assert_eq!(parse_digits("0"), Some(0));
    assert_eq!(parse_digits("9223372036854775807"), Some(i64::MAX));
    assert_eq!(parse_digits("9223372036854775808"), None);
    assert_eq!(int_to_string(0), "0");
    assert_eq!(int_to_string(1234567890), "1234567890");
    assert_eq!(int_to_string(i64::MIN), "-9223372036854775808");
    assert_eq!(int_to_string(i64::MAX), "9223372036854775807");
}
