//! The recursive-descent, precedence-climbing parser: tokens to AST.
//!
//! The grammar is specified by the `p_*` functions over token views: each
//! gives the node parsed from a position and the position after it, or
//! nothing on the first unexpected token — parsing is fatal, with no
//! recovery or partial tree. The `Parser` methods are proved to return
//! exactly what these functions give. Precedence, low to high: assignment,
//! object literal, additive (`+ - == != < >`), multiplicative (`* / %`),
//! call and member suffixes, primary.

use vstd::prelude::*;

use crate::ast::{expr_seq_v, Expr, ExprV, Program, Property, PropertyV, Stmt, StmtV};
use crate::errors::{Error, ErrorKind};
use crate::lexer::{tokens_v, Token, TokenType, TokenV};
use crate::text::{all_digits, digits_val, parse_digits, str_eq};

verus! {

/// The token at a position; past the end it is the end-of-input token.
pub open spec fn tok(t: Seq<TokenV>, i: int) -> TokenV {
    if 0 <= i < t.len() {
        t[i]
    } else {
        (TokenType::EOF, Seq::empty())
    }
}

pub open spec fn kind(t: Seq<TokenV>, i: int) -> TokenType {
    tok(t, i).0
}

pub open spec fn text(t: Seq<TokenV>, i: int) -> Seq<char> {
    tok(t, i).1
}

/// The termination measure of the grammar functions: tokens left from `i`.
pub open spec fn pm(t: Seq<TokenV>, i: int) -> nat {
    if i <= t.len() {
        (t.len() - i + 1) as nat
    } else {
        0
    }
}

/// The position a sub-parse hands back, forced past the start. The grammar
/// always advances, so this is the sub-parse's own position; the guard makes
/// the recursion well-founded by construction.
pub open spec fn adv(i: int, j: int) -> int {
    if j > i {
        j
    } else {
        i + 1
    }
}

/// The additive-level operators (lowest binary precedence, left-associative).
pub open spec fn is_addop(s: Seq<char>) -> bool {
    s == "+"@ || s == "-"@ || s == "=="@ || s == "!="@ || s == "<"@ || s == ">"@
}

/// The multiplicative-level operators.
pub open spec fn is_mulop(s: Seq<char>) -> bool {
    s == "*"@ || s == "/"@ || s == "%"@
}

/// primary := identifier | integer | string | `(` expr `)` | `[` elements `]`
pub open spec fn p_primary(t: Seq<TokenV>, i: int) -> Option<(ExprV, int)>
    decreases pm(t, i), 2nat,
{
    let k = kind(t, i);
    if k == TokenType::Ident {
        Option::Some((ExprV::Ident { symbol: text(t, i) }, i + 1))
    } else if k == TokenType::IntLit {
        if all_digits(text(t, i)) && digits_val(text(t, i)) <= i64::MAX {
            Option::Some((ExprV::IntLit { value: digits_val(text(t, i)) as i64 }, i + 1))
        } else {
            Option::None
        }
    } else if k == TokenType::StringLit {
        Option::Some((ExprV::StringLit { value: text(t, i) }, i + 1))
    } else if k == TokenType::OpenParen {
        match p_expr(t, i + 1) {
            Option::Some((e, j)) => if kind(t, j) == TokenType::CloseParen {
                Option::Some((e, j + 1))
            } else {
                Option::None
            },
            Option::None => Option::None,
        }
    } else if k == TokenType::OpenBracket {
        match p_array_elems(t, i + 1, Seq::empty()) {
            Option::Some((es, j)) => Option::Some((ExprV::Array { elements: es }, j)),
            Option::None => Option::None,
        }
    } else {
        Option::None
    }
}

/// The elements of an array literal after `[`, comma-separated, up to and
/// including the closing bracket.
pub open spec fn p_array_elems(t: Seq<TokenV>, i: int, acc: Seq<ExprV>) -> Option<
    (Seq<ExprV>, int),
>
    decreases pm(t, i), 9nat,
{
    if i > t.len() {
        Option::None
    } else if kind(t, i) == TokenType::CloseBracket {
        Option::Some((acc, i + 1))
    } else {
        match p_expr(t, i) {
            Option::None => Option::None,
            Option::Some((e, j)) => {
                if kind(t, j) == TokenType::CloseBracket {
                    Option::Some((acc.push(e), j + 1))
                } else if kind(t, j) == TokenType::Comma {
                    p_array_elems(t, adv(i, j + 1), acc.push(e))
                } else {
                    Option::None
                }
            },
        }
    }
}

/// Member suffixes after a primary: `.name`-style access or a computed
/// `[expr]` access, left-nested.
pub open spec fn p_member_rest(t: Seq<TokenV>, i: int, obj: ExprV) -> Option<(ExprV, int)>
    decreases pm(t, i), 1nat,
{
    if kind(t, i) == TokenType::MemAccess {
        match p_primary(t, i + 1) {
            Option::None => Option::None,
            Option::Some((prop, j)) => match prop {
                ExprV::Ident { .. } => p_member_rest(
                    t,
                    adv(i, j),
                    ExprV::Member {
                        object: Box::new(obj),
                        property: Box::new(prop),
                        computed: false,
                    },
                ),
                _ => Option::None,
            },
        }
    } else if kind(t, i) == TokenType::OpenBracket {
        match p_expr(t, i + 1) {
            Option::None => Option::None,
            Option::Some((prop, j)) => if kind(t, j) == TokenType::CloseBracket {
                p_member_rest(
                    t,
                    adv(i, j + 1),
                    ExprV::Member {
                        object: Box::new(obj),
                        property: Box::new(prop),
                        computed: true,
                    },
                )
            } else {
                Option::None
            },
        }
    } else {
        Option::Some((obj, i))
    }
}

/// member := primary (`.`name | `[`expr`]`)*
pub open spec fn p_member(t: Seq<TokenV>, i: int) -> Option<(ExprV, int)>
    decreases pm(t, i), 3nat,
{
    match p_primary(t, i) {
        Option::None => Option::None,
        Option::Some((pr, j)) => p_member_rest(t, adv(i, j), pr),
    }
}

/// The comma-separated argument list after `(`, up to and including the
/// closing parenthesis.
pub open spec fn p_args_rest(t: Seq<TokenV>, i: int, acc: Seq<ExprV>) -> Option<(Seq<ExprV>, int)>
    decreases pm(t, i), 9nat,
{
    if i > t.len() {
        Option::None
    } else if kind(t, i) == TokenType::CloseParen {
        Option::Some((acc, i + 1))
    } else {
        match p_expr(t, i) {
            Option::None => Option::None,
            Option::Some((e, j)) => {
                if kind(t, j) == TokenType::CloseParen {
                    Option::Some((acc.push(e), j + 1))
                } else if kind(t, j) == TokenType::Comma {
                    p_args_rest(t, adv(i, j + 1), acc.push(e))
                } else {
                    Option::None
                }
            },
        }
    }
}

/// args := `(` expr (`,` expr)* `)`
pub open spec fn p_args(t: Seq<TokenV>, i: int) -> Option<(Seq<ExprV>, int)>
    decreases pm(t, i), 1nat,
{
    if kind(t, i) == TokenType::OpenParen {
        p_args_rest(t, i + 1, Seq::empty())
    } else {
        Option::None
    }
}

/// Call suffixes: an argument list, then possibly further calls of the
/// result.
pub open spec fn p_call(t: Seq<TokenV>, i: int, callee: ExprV) -> Option<(ExprV, int)>
    decreases pm(t, i), 2nat,
{
    if i > t.len() {
        Option::None
    } else {
        match p_args(t, i) {
        Option::None => Option::None,
        Option::Some((args, j)) => {
            let node = ExprV::Call { callee: Box::new(callee), args };
            if kind(t, j) == TokenType::OpenParen {
                p_call(t, adv(i, j), node)
            } else {
                Option::Some((node, j))
            }
        },
        }
    }
}

/// call-or-member := member [args ...]
pub open spec fn p_call_member(t: Seq<TokenV>, i: int) -> Option<(ExprV, int)>
    decreases pm(t, i), 4nat,
{
    match p_member(t, i) {
        Option::None => Option::None,
        Option::Some((m, j)) => if kind(t, j) == TokenType::OpenParen {
            p_call(t, adv(i, j), m)
        } else {
            Option::Some((m, j))
        },
    }
}

pub open spec fn p_mult_rest(t: Seq<TokenV>, i: int, left: ExprV) -> Option<(ExprV, int)>
    decreases pm(t, i), 1nat,
{
    if kind(t, i) == TokenType::BinOp && is_mulop(text(t, i)) {
        match p_call_member(t, i + 1) {
            Option::None => Option::None,
            Option::Some((right, j)) => p_mult_rest(
                t,
                adv(i, j),
                ExprV::BinExp { left: Box::new(left), op: text(t, i), right: Box::new(right) },
            ),
        }
    } else {
        Option::Some((left, i))
    }
}

/// multiplicative := call-or-member ((`*`|`/`|`%`) call-or-member)*
pub open spec fn p_mult(t: Seq<TokenV>, i: int) -> Option<(ExprV, int)>
    decreases pm(t, i), 5nat,
{
    match p_call_member(t, i) {
        Option::None => Option::None,
        Option::Some((l, j)) => p_mult_rest(t, adv(i, j), l),
    }
}

pub open spec fn p_add_rest(t: Seq<TokenV>, i: int, left: ExprV) -> Option<(ExprV, int)>
    decreases pm(t, i), 1nat,
{
    if kind(t, i) == TokenType::BinOp && is_addop(text(t, i)) {
        match p_mult(t, i + 1) {
            Option::None => Option::None,
            Option::Some((right, j)) => p_add_rest(
                t,
                adv(i, j),
                ExprV::BinExp { left: Box::new(left), op: text(t, i), right: Box::new(right) },
            ),
        }
    } else {
        Option::Some((left, i))
    }
}

/// additive := multiplicative ((`+ - == != < >`) multiplicative)*
pub open spec fn p_additive(t: Seq<TokenV>, i: int) -> Option<(ExprV, int)>
    decreases pm(t, i), 6nat,
{
    match p_mult(t, i) {
        Option::None => Option::None,
        Option::Some((l, j)) => p_add_rest(t, adv(i, j), l),
    }
}

/// The entries of an object literal after `{`, up to and including the
/// closing brace. A key followed by `,` or `}` is shorthand.
pub open spec fn p_props(t: Seq<TokenV>, i: int, acc: Seq<PropertyV>) -> Option<
    (Seq<PropertyV>, int),
>
    decreases pm(t, i), 9nat,
{
    if kind(t, i) == TokenType::CloseBrace {
        Option::Some((acc, i + 1))
    } else if kind(t, i) == TokenType::Ident {
        let key = text(t, i);
        if kind(t, i + 1) == TokenType::Comma {
            p_props(t, i + 2, acc.push(PropertyV { key, value: Option::None }))
        } else if kind(t, i + 1) == TokenType::CloseBrace {
            Option::Some((acc.push(PropertyV { key, value: Option::None }), i + 2))
        } else if kind(t, i + 1) == TokenType::Colon {
            match p_expr(t, i + 2) {
                Option::None => Option::None,
                Option::Some((v, j)) => {
                    let acc2 = acc.push(PropertyV { key, value: Option::Some(Box::new(v)) });
                    if kind(t, j) == TokenType::CloseBrace {
                        Option::Some((acc2, j + 1))
                    } else if kind(t, j) == TokenType::Comma {
                        p_props(t, adv(i, j + 1), acc2)
                    } else {
                        Option::None
                    }
                },
            }
        } else {
            Option::None
        }
    } else {
        Option::None
    }
}

/// object-or-additive := `{` entries `}` | additive — the block/object
/// ambiguity is resolved purely by lookahead on the opening brace.
pub open spec fn p_object(t: Seq<TokenV>, i: int) -> Option<(ExprV, int)>
    decreases pm(t, i), 7nat,
{
    if kind(t, i) != TokenType::OpenBrace {
        p_additive(t, i)
    } else {
        match p_props(t, i + 1, Seq::empty()) {
            Option::None => Option::None,
            Option::Some((props, j)) => Option::Some((ExprV::ObjectLit { properties: props }, j)),
        }
    }
}

/// expr := assignment; assignment is right-associative and the target's
/// validity is checked at evaluation time.
pub open spec fn p_expr(t: Seq<TokenV>, i: int) -> Option<(ExprV, int)>
    decreases pm(t, i), 8nat,
{
    if i > t.len() {
        Option::None
    } else {
        match p_object(t, i) {
        Option::None => Option::None,
        Option::Some((left, j)) => if kind(t, j) == TokenType::Eq {
            match p_expr(t, adv(i, j + 1)) {
                Option::None => Option::None,
                Option::Some((v, k)) => Option::Some(
                    (ExprV::Assign { assignee: Box::new(left), value: Box::new(v) }, k),
                ),
            }
        } else {
            Option::Some((left, j))
        },
        }
    }
}

/// var-decl := `let` [`mut`] name [`=` expr] `;` | `const` name `=` expr `;`
pub open spec fn p_var_decl(t: Seq<TokenV>, i: int) -> Option<(StmtV, int)>
    decreases pm(t, i), 1nat,
{
    if kind(t, i) == TokenType::Let {
        let mutable = true;
        let b = if kind(t, i + 1) == TokenType::Mut {
            i + 2
        } else {
            i + 1
        };
        if kind(t, b) == TokenType::Ident {
            let name = text(t, b);
            if kind(t, b + 1) == TokenType::Semi {
                Option::Some((StmtV::VarDecl { mutable, name, value: Option::None }, b + 2))
            } else if kind(t, b + 1) == TokenType::Eq {
                match p_expr(t, b + 2) {
                    Option::None => Option::None,
                    Option::Some((e, j)) => if kind(t, j) == TokenType::Semi {
                        Option::Some(
                            (StmtV::VarDecl { mutable, name, value: Option::Some(e) }, j + 1),
                        )
                    } else {
                        Option::None
                    },
                }
            } else {
                Option::None
            }
        } else {
            Option::None
        }
    } else if kind(t, i) == TokenType::Const {
        if kind(t, i + 1) == TokenType::Ident && kind(t, i + 2) == TokenType::Eq {
            match p_expr(t, i + 3) {
                Option::None => Option::None,
                Option::Some((e, j)) => if kind(t, j) == TokenType::Semi {
                    Option::Some(
                        (
                            StmtV::VarDecl {
                                mutable: false,
                                name: text(t, i + 1),
                                value: Option::Some(e),
                            },
                            j + 1,
                        ),
                    )
                } else {
                    Option::None
                },
            }
        } else {
            Option::None
        }
    } else {
        Option::None
    }
}

/// The parameter names of a function declaration: every argument expression
/// must be a bare identifier.
pub open spec fn p_params(args: Seq<ExprV>, i: int, acc: Seq<Seq<char>>) -> Option<Seq<Seq<char>>>
    decreases args.len() - i,
{
    if i < 0 || i >= args.len() {
        Option::Some(acc)
    } else {
        match args[i] {
            ExprV::Ident { symbol } => p_params(args, i + 1, acc.push(symbol)),
            _ => Option::None,
        }
    }
}

/// block := `{` stmt* `}`
pub open spec fn p_block(t: Seq<TokenV>, i: int) -> Option<(Seq<StmtV>, int)>
    decreases pm(t, i), 1nat,
{
    if kind(t, i) == TokenType::OpenBrace {
        p_block_stmts(t, i + 1, Seq::empty())
    } else {
        Option::None
    }
}

pub open spec fn p_block_stmts(t: Seq<TokenV>, i: int, acc: Seq<StmtV>) -> Option<
    (Seq<StmtV>, int),
>
    decreases pm(t, i), 10nat,
{
    if kind(t, i) == TokenType::CloseBrace {
        Option::Some((acc, i + 1))
    } else if kind(t, i) == TokenType::EOF {
        Option::None
    } else {
        match p_stmt(t, i) {
            Option::None => Option::None,
            Option::Some((s, j)) => p_block_stmts(t, adv(i, j), acc.push(s)),
        }
    }
}

/// func-decl := `func` name args block
pub open spec fn p_func_decl(t: Seq<TokenV>, i: int) -> Option<(StmtV, int)>
    decreases pm(t, i), 1nat,
{
    if kind(t, i) == TokenType::Func && kind(t, i + 1) == TokenType::Ident {
        match p_args(t, i + 2) {
            Option::None => Option::None,
            Option::Some((args, j)) => match p_params(args, 0, Seq::empty()) {
                Option::None => Option::None,
                Option::Some(params) => match p_block(t, adv(i, j)) {
                    Option::None => Option::None,
                    Option::Some((body, k)) => Option::Some(
                        (StmtV::FuncDecl { params, name: text(t, i + 1), body }, k),
                    ),
                },
            },
        }
    } else {
        Option::None
    }
}

/// return := `ret` [expr] `;`
pub open spec fn p_return(t: Seq<TokenV>, i: int) -> Option<(StmtV, int)>
    decreases pm(t, i), 1nat,
{
    if kind(t, i) == TokenType::Ret {
        if kind(t, i + 1) == TokenType::Semi {
            Option::Some((StmtV::Return { value: Option::None }, i + 2))
        } else {
            match p_expr(t, i + 1) {
                Option::None => Option::None,
                Option::Some((e, j)) => if kind(t, j) == TokenType::Semi {
                    Option::Some((StmtV::Return { value: Option::Some(e) }, j + 1))
                } else {
                    Option::None
                },
            }
        }
    } else {
        Option::None
    }
}

/// if := `if` expr block [`else` block]
pub open spec fn p_if(t: Seq<TokenV>, i: int) -> Option<(StmtV, int)>
    decreases pm(t, i), 1nat,
{
    if kind(t, i) == TokenType::If {
        match p_expr(t, i + 1) {
            Option::None => Option::None,
            Option::Some((cond, j)) => match p_block(t, adv(i, j)) {
                Option::None => Option::None,
                Option::Some((then, k)) => if kind(t, k) == TokenType::Else {
                    match p_block(t, adv(i, k + 1)) {
                        Option::None => Option::None,
                        Option::Some((els, m)) => Option::Some(
                            (
                                StmtV::If {
                                    condition: cond,
                                    then_branch: then,
                                    else_branch: Option::Some(els),
                                },
                                m,
                            ),
                        ),
                    }
                } else {
                    Option::Some(
                        (
                            StmtV::If {
                                condition: cond,
                                then_branch: then,
                                else_branch: Option::None,
                            },
                            k,
                        ),
                    )
                },
            },
        }
    } else {
        Option::None
    }
}

/// for := `for` `(` name `in` expr `)` block
pub open spec fn p_for(t: Seq<TokenV>, i: int) -> Option<(StmtV, int)>
    decreases pm(t, i), 1nat,
{
    if kind(t, i) == TokenType::For && kind(t, i + 1) == TokenType::OpenParen && kind(t, i + 2)
        == TokenType::Ident && kind(t, i + 3) == TokenType::In {
        match p_expr(t, i + 4) {
            Option::None => Option::None,
            Option::Some((iter, j)) => if kind(t, j) == TokenType::CloseParen {
                match p_block(t, adv(i, j + 1)) {
                    Option::None => Option::None,
                    Option::Some((body, k)) => Option::Some(
                        (
                            StmtV::For {
                                ident: text(t, i + 2),
                                iterable: Box::new(iter),
                                body,
                            },
                            k,
                        ),
                    ),
                }
            } else {
                Option::None
            },
        }
    } else {
        Option::None
    }
}

/// stmt := var-decl | func-decl | return | if | for | expr
pub open spec fn p_stmt(t: Seq<TokenV>, i: int) -> Option<(StmtV, int)>
    decreases pm(t, i), 9nat,
{
    let k = kind(t, i);
    if k == TokenType::Let || k == TokenType::Const {
        p_var_decl(t, i)
    } else if k == TokenType::Func {
        p_func_decl(t, i)
    } else if k == TokenType::Ret {
        p_return(t, i)
    } else if k == TokenType::If {
        p_if(t, i)
    } else if k == TokenType::For {
        p_for(t, i)
    } else {
        match p_expr(t, i) {
            Option::None => Option::None,
            Option::Some((e, j)) => if kind(t, j) == TokenType::Semi {
                Option::Some((StmtV::Expr(e), j + 1))
            } else {
                Option::Some((StmtV::Expr(e), j))
            },
        }
    }
}

/// program := stmt* up to the end-of-input token.
pub open spec fn p_program(t: Seq<TokenV>, i: int, acc: Seq<StmtV>) -> Option<(Seq<StmtV>, int)>
    decreases pm(t, i), 10nat,
{
    if kind(t, i) == TokenType::EOF {
        Option::Some((acc, i))
    } else {
        match p_stmt(t, i) {
            Option::None => Option::None,
            Option::Some((s, j)) => p_program(t, adv(i, j), acc.push(s)),
        }
    }
}


// Progress: a successful parse consumes at least one token and never runs
// past the end, so the `adv` guard in the definitions above is never what
// decides a position. The executable parser's proofs rely on these bounds.

pub proof fn lemma_p_primary(t: Seq<TokenV>, i: int)
    ensures
        p_primary(t, i) is Some ==> i < p_primary(t, i)->Some_0.1 <= t.len(),
    decreases pm(t, i), 2nat,
{
    let k = kind(t, i);
    if k == TokenType::OpenParen {
        lemma_p_expr(t, i + 1);
    } else if k == TokenType::OpenBracket {
        lemma_p_array_elems(t, i + 1, Seq::empty());
    }
}

pub proof fn lemma_p_array_elems(t: Seq<TokenV>, i: int, acc: Seq<ExprV>)
    ensures
        p_array_elems(t, i, acc) is Some ==> i < p_array_elems(t, i, acc)->Some_0.1 <= t.len(),
    decreases pm(t, i), 9nat,
{
    if i <= t.len() && kind(t, i) != TokenType::CloseBracket {
        lemma_p_expr(t, i);
        match p_expr(t, i) {
            Option::Some((e, j)) => {
                if kind(t, j) == TokenType::Comma {
                    lemma_p_array_elems(t, adv(i, j + 1), acc.push(e));
                }
            },
            Option::None => {},
        }
    }
}

pub proof fn lemma_p_member_rest(t: Seq<TokenV>, i: int, obj: ExprV)
    requires
        i <= t.len(),
    ensures
        p_member_rest(t, i, obj) is Some ==> i <= p_member_rest(t, i, obj)->Some_0.1 <= t.len(),
    decreases pm(t, i), 1nat,
{
    if kind(t, i) == TokenType::MemAccess {
        lemma_p_primary(t, i + 1);
        match p_primary(t, i + 1) {
            Option::Some((prop, j)) => match prop {
                ExprV::Ident { .. } => {
                    lemma_p_member_rest(
                        t,
                        adv(i, j),
                        ExprV::Member {
                            object: Box::new(obj),
                            property: Box::new(prop),
                            computed: false,
                        },
                    );
                },
                _ => {},
            },
            Option::None => {},
        }
    } else if kind(t, i) == TokenType::OpenBracket {
        lemma_p_expr(t, i + 1);
        match p_expr(t, i + 1) {
            Option::Some((prop, j)) => {
                if kind(t, j) == TokenType::CloseBracket {
                    lemma_p_member_rest(
                        t,
                        adv(i, j + 1),
                        ExprV::Member {
                            object: Box::new(obj),
                            property: Box::new(prop),
                            computed: true,
                        },
                    );
                }
            },
            Option::None => {},
        }
    }
}

pub proof fn lemma_p_member(t: Seq<TokenV>, i: int)
    ensures
        p_member(t, i) is Some ==> i < p_member(t, i)->Some_0.1 <= t.len(),
    decreases pm(t, i), 3nat,
{
    lemma_p_primary(t, i);
    match p_primary(t, i) {
        Option::Some((pr, j)) => {
            lemma_p_member_rest(t, adv(i, j), pr);
        },
        Option::None => {},
    }
}

pub proof fn lemma_p_args_rest(t: Seq<TokenV>, i: int, acc: Seq<ExprV>)
    ensures
        p_args_rest(t, i, acc) is Some ==> i < p_args_rest(t, i, acc)->Some_0.1 <= t.len(),
    decreases pm(t, i), 9nat,
{
    if i <= t.len() && kind(t, i) != TokenType::CloseParen {
        lemma_p_expr(t, i);
        match p_expr(t, i) {
            Option::Some((e, j)) => {
                if kind(t, j) == TokenType::Comma {
                    lemma_p_args_rest(t, adv(i, j + 1), acc.push(e));
                }
            },
            Option::None => {},
        }
    }
}

pub proof fn lemma_p_args(t: Seq<TokenV>, i: int)
    ensures
        p_args(t, i) is Some ==> i < p_args(t, i)->Some_0.1 <= t.len(),
    decreases pm(t, i), 1nat,
{
    if kind(t, i) == TokenType::OpenParen {
        lemma_p_args_rest(t, i + 1, Seq::empty());
    }
}

pub proof fn lemma_p_call(t: Seq<TokenV>, i: int, callee: ExprV)
    ensures
        p_call(t, i, callee) is Some ==> i < p_call(t, i, callee)->Some_0.1 <= t.len(),
    decreases pm(t, i), 2nat,
{
    if i <= t.len() {
        lemma_p_args(t, i);
        match p_args(t, i) {
            Option::Some((args, j)) => {
                let node = ExprV::Call { callee: Box::new(callee), args };
                if kind(t, j) == TokenType::OpenParen {
                    lemma_p_call(t, adv(i, j), node);
                }
            },
            Option::None => {},
        }
    }
}

pub proof fn lemma_p_call_member(t: Seq<TokenV>, i: int)
    ensures
        p_call_member(t, i) is Some ==> i < p_call_member(t, i)->Some_0.1 <= t.len(),
    decreases pm(t, i), 4nat,
{
    lemma_p_member(t, i);
    match p_member(t, i) {
        Option::Some((m, j)) => {
            if kind(t, j) == TokenType::OpenParen {
                lemma_p_call(t, adv(i, j), m);
            }
        },
        Option::None => {},
    }
}

pub proof fn lemma_p_mult_rest(t: Seq<TokenV>, i: int, left: ExprV)
    requires
        i <= t.len(),
    ensures
        p_mult_rest(t, i, left) is Some ==> i <= p_mult_rest(t, i, left)->Some_0.1 <= t.len(),
    decreases pm(t, i), 1nat,
{
    if kind(t, i) == TokenType::BinOp && is_mulop(text(t, i)) {
        lemma_p_call_member(t, i + 1);
        match p_call_member(t, i + 1) {
            Option::Some((right, j)) => {
                lemma_p_mult_rest(
                    t,
                    adv(i, j),
                    ExprV::BinExp { left: Box::new(left), op: text(t, i), right: Box::new(right) },
                );
            },
            Option::None => {},
        }
    }
}

pub proof fn lemma_p_mult(t: Seq<TokenV>, i: int)
    ensures
        p_mult(t, i) is Some ==> i < p_mult(t, i)->Some_0.1 <= t.len(),
    decreases pm(t, i), 5nat,
{
    lemma_p_call_member(t, i);
    match p_call_member(t, i) {
        Option::Some((l, j)) => {
            lemma_p_mult_rest(t, adv(i, j), l);
        },
        Option::None => {},
    }
}

pub proof fn lemma_p_add_rest(t: Seq<TokenV>, i: int, left: ExprV)
    requires
        i <= t.len(),
    ensures
        p_add_rest(t, i, left) is Some ==> i <= p_add_rest(t, i, left)->Some_0.1 <= t.len(),
    decreases pm(t, i), 1nat,
{
    if kind(t, i) == TokenType::BinOp && is_addop(text(t, i)) {
        lemma_p_mult(t, i + 1);
        match p_mult(t, i + 1) {
            Option::Some((right, j)) => {
                lemma_p_add_rest(
                    t,
                    adv(i, j),
                    ExprV::BinExp { left: Box::new(left), op: text(t, i), right: Box::new(right) },
                );
            },
            Option::None => {},
        }
    }
}

pub proof fn lemma_p_additive(t: Seq<TokenV>, i: int)
    ensures
        p_additive(t, i) is Some ==> i < p_additive(t, i)->Some_0.1 <= t.len(),
    decreases pm(t, i), 6nat,
{
    lemma_p_mult(t, i);
    match p_mult(t, i) {
        Option::Some((l, j)) => {
            lemma_p_add_rest(t, adv(i, j), l);
        },
        Option::None => {},
    }
}

pub proof fn lemma_p_props(t: Seq<TokenV>, i: int, acc: Seq<PropertyV>)
    ensures
        p_props(t, i, acc) is Some ==> i < p_props(t, i, acc)->Some_0.1 <= t.len(),
    decreases pm(t, i), 9nat,
{
    if kind(t, i) == TokenType::Ident {
        let key = text(t, i);
        if kind(t, i + 1) == TokenType::Comma {
            lemma_p_props(t, i + 2, acc.push(PropertyV { key, value: Option::None }));
        } else if kind(t, i + 1) == TokenType::Colon {
            lemma_p_expr(t, i + 2);
            match p_expr(t, i + 2) {
                Option::Some((v, j)) => {
                    let acc2 = acc.push(PropertyV { key, value: Option::Some(Box::new(v)) });
                    if kind(t, j) == TokenType::Comma {
                        lemma_p_props(t, adv(i, j + 1), acc2);
                    }
                },
                Option::None => {},
            }
        }
    }
}

pub proof fn lemma_p_object(t: Seq<TokenV>, i: int)
    ensures
        p_object(t, i) is Some ==> i < p_object(t, i)->Some_0.1 <= t.len(),
    decreases pm(t, i), 7nat,
{
    if kind(t, i) != TokenType::OpenBrace {
        lemma_p_additive(t, i);
    } else {
        lemma_p_props(t, i + 1, Seq::empty());
    }
}

pub proof fn lemma_p_expr(t: Seq<TokenV>, i: int)
    ensures
        p_expr(t, i) is Some ==> i < p_expr(t, i)->Some_0.1 <= t.len(),
    decreases pm(t, i), 8nat,
{
    if i <= t.len() {
        lemma_p_object(t, i);
        match p_object(t, i) {
            Option::Some((left, j)) => {
                if kind(t, j) == TokenType::Eq {
                    lemma_p_expr(t, adv(i, j + 1));
                }
            },
            Option::None => {},
        }
    }
}

pub proof fn lemma_p_var_decl(t: Seq<TokenV>, i: int)
    ensures
        p_var_decl(t, i) is Some ==> i < p_var_decl(t, i)->Some_0.1 <= t.len(),
    decreases pm(t, i), 1nat,
{
    if kind(t, i) == TokenType::Let {
        let b = if kind(t, i + 1) == TokenType::Mut {
            i + 2
        } else {
            i + 1
        };
        if kind(t, b) == TokenType::Ident && kind(t, b + 1) == TokenType::Eq {
            lemma_p_expr(t, b + 2);
        }
    } else if kind(t, i) == TokenType::Const {
        if kind(t, i + 1) == TokenType::Ident && kind(t, i + 2) == TokenType::Eq {
            lemma_p_expr(t, i + 3);
        }
    }
}

pub proof fn lemma_p_block_stmts(t: Seq<TokenV>, i: int, acc: Seq<StmtV>)
    requires
        i <= t.len(),
    ensures
        p_block_stmts(t, i, acc) is Some ==> i < p_block_stmts(t, i, acc)->Some_0.1 <= t.len(),
    decreases pm(t, i), 10nat,
{
    if kind(t, i) != TokenType::CloseBrace && kind(t, i) != TokenType::EOF {
        lemma_p_stmt(t, i);
        match p_stmt(t, i) {
            Option::Some((st, j)) => {
                lemma_p_block_stmts(t, adv(i, j), acc.push(st));
            },
            Option::None => {},
        }
    }
}

pub proof fn lemma_p_block(t: Seq<TokenV>, i: int)
    ensures
        p_block(t, i) is Some ==> i < p_block(t, i)->Some_0.1 <= t.len(),
    decreases pm(t, i), 1nat,
{
    if kind(t, i) == TokenType::OpenBrace {
        lemma_p_block_stmts(t, i + 1, Seq::empty());
    }
}

pub proof fn lemma_p_func_decl(t: Seq<TokenV>, i: int)
    ensures
        p_func_decl(t, i) is Some ==> i < p_func_decl(t, i)->Some_0.1 <= t.len(),
    decreases pm(t, i), 1nat,
{
    if kind(t, i) == TokenType::Func && kind(t, i + 1) == TokenType::Ident {
        lemma_p_args(t, i + 2);
        match p_args(t, i + 2) {
            Option::Some((args, j)) => {
                lemma_p_block(t, adv(i, j));
            },
            Option::None => {},
        }
    }
}

pub proof fn lemma_p_return(t: Seq<TokenV>, i: int)
    ensures
        p_return(t, i) is Some ==> i < p_return(t, i)->Some_0.1 <= t.len(),
    decreases pm(t, i), 1nat,
{
    if kind(t, i) == TokenType::Ret && kind(t, i + 1) != TokenType::Semi {
        lemma_p_expr(t, i + 1);
    }
}

pub proof fn lemma_p_if(t: Seq<TokenV>, i: int)
    ensures
        p_if(t, i) is Some ==> i < p_if(t, i)->Some_0.1 <= t.len(),
    decreases pm(t, i), 1nat,
{
    if kind(t, i) == TokenType::If {
        lemma_p_expr(t, i + 1);
        match p_expr(t, i + 1) {
            Option::Some((cond, j)) => {
                lemma_p_block(t, adv(i, j));
                match p_block(t, adv(i, j)) {
                    Option::Some((then, k)) => {
                        if kind(t, k) == TokenType::Else {
                            lemma_p_block(t, adv(i, k + 1));
                        }
                    },
                    Option::None => {},
                }
            },
            Option::None => {},
        }
    }
}

pub proof fn lemma_p_for(t: Seq<TokenV>, i: int)
    ensures
        p_for(t, i) is Some ==> i < p_for(t, i)->Some_0.1 <= t.len(),
    decreases pm(t, i), 1nat,
{
    if kind(t, i) == TokenType::For && kind(t, i + 1) == TokenType::OpenParen && kind(t, i + 2)
        == TokenType::Ident && kind(t, i + 3) == TokenType::In {
        lemma_p_expr(t, i + 4);
        match p_expr(t, i + 4) {
            Option::Some((iter, j)) => {
                if kind(t, j) == TokenType::CloseParen {
                    lemma_p_block(t, adv(i, j + 1));
                }
            },
            Option::None => {},
        }
    }
}

pub proof fn lemma_p_stmt(t: Seq<TokenV>, i: int)
    ensures
        p_stmt(t, i) is Some ==> i < p_stmt(t, i)->Some_0.1 <= t.len(),
    decreases pm(t, i), 9nat,
{
    let k = kind(t, i);
    if k == TokenType::Let || k == TokenType::Const {
        lemma_p_var_decl(t, i);
    } else if k == TokenType::Func {
        lemma_p_func_decl(t, i);
    } else if k == TokenType::Ret {
        lemma_p_return(t, i);
    } else if k == TokenType::If {
        lemma_p_if(t, i);
    } else if k == TokenType::For {
        lemma_p_for(t, i);
    } else {
        lemma_p_expr(t, i);
    }
}

pub proof fn lemma_p_program(t: Seq<TokenV>, i: int, acc: Seq<StmtV>)
    requires
        i <= t.len(),
    ensures
        p_program(t, i, acc) is Some ==> i <= p_program(t, i, acc)->Some_0.1 <= t.len(),
    decreases pm(t, i), 10nat,
{
    if kind(t, i) != TokenType::EOF {
        lemma_p_stmt(t, i);
        match p_stmt(t, i) {
            Option::Some((st, j)) => {
                lemma_p_program(t, adv(i, j), acc.push(st));
            },
            Option::None => {},
        }
    }
}


/// The parser: a token vector and a cursor.
pub struct Parser {
    pub tokens: Vec<Token>,
    pub pos: usize,
}

impl Parser {
    /// The token views the parser walks over.
    pub open spec fn toks(&self) -> Seq<TokenV> {
        tokens_v(self.tokens@)
    }

    /// The cursor never runs past the end of the tokens.
    pub open spec fn wf(&self) -> bool {
        self.pos <= self.tokens@.len()
    }
}

/// How an expression-parsing method's result relates to its grammar
/// function: on success the node view and the cursor match; on failure the
/// error is a parse error. The tokens are never touched.
pub open spec fn parsed_expr(
    old_p: Parser,
    new_p: Parser,
    sr: Option<(ExprV, int)>,
    r: Result<Expr, Error>,
) -> bool {
    &&& new_p.tokens@ == old_p.tokens@
    &&& new_p.wf()
    &&& match sr {
        Option::Some((e, j)) => r is Ok && r->Ok_0@ == e && new_p.pos as int == j,
        Option::None => r is Err && r->Err_0.kind == ErrorKind::Parse,
    }
}

/// As `parsed_expr`, for statement-parsing methods.
pub open spec fn parsed_stmt(
    old_p: Parser,
    new_p: Parser,
    sr: Option<(StmtV, int)>,
    r: Result<Stmt, Error>,
) -> bool {
    &&& new_p.tokens@ == old_p.tokens@
    &&& new_p.wf()
    &&& match sr {
        Option::Some((st, j)) => r is Ok && r->Ok_0@ == st && new_p.pos as int == j,
        Option::None => r is Err && r->Err_0.kind == ErrorKind::Parse,
    }
}

impl Parser {
    /// A parser at the start of the given token stream.
    pub fn new(tokens: Vec<Token>) -> (r: Parser)
        ensures
            r.tokens@ == tokens@,
            r.pos == 0,
            r.wf(),
    {
        Parser { tokens, pos: 0 }
    }

    /// The current token; past the end it is the end-of-input token.
    pub fn at(&self) -> (t: Token)
        ensures
            t@ == tok(self.toks(), self.pos as int),
    {
        if self.pos < self.tokens.len() {
            self.tokens[self.pos].clone()
        } else {
            Token { token_type: TokenType::EOF, value: String::new() }
        }
    }

    /// Takes the current token and advances.
    pub fn consume(&mut self) -> (t: Token)
        requires
            old(self).pos < old(self).tokens@.len(),
        ensures
            final(self).tokens@ == old(self).tokens@,
            final(self).pos == old(self).pos + 1,
            t@ == tok(old(self).toks(), old(self).pos as int),
    {
        let n = self.tokens.len();
        let t = self.tokens[self.pos].clone();
        self.pos = self.pos + 1;
        t
    }

    /// Takes the current token if it is of the expected kind, else fails
    /// with a parse error naming what was expected.
    pub fn consume_expected(&mut self, expected: TokenType, msg: &str) -> (r: Result<Token, Error>)
        requires
            old(self).wf(),
            expected != TokenType::EOF,
        ensures
            final(self).tokens@ == old(self).tokens@,
            final(self).wf(),
            if kind(old(self).toks(), old(self).pos as int) == expected {
                r is Ok && r->Ok_0@ == tok(old(self).toks(), old(self).pos as int)
                    && final(self).pos == old(self).pos + 1
            } else {
                r is Err && r->Err_0.kind == ErrorKind::Parse && final(self).pos == old(self).pos
            },
    {
        let t = self.at();
        if t.token_type == expected {
            let t = self.consume();
            Result::Ok(t)
        } else {
            Result::Err(Error::new(ErrorKind::Parse, msg))
        }
    }

    /// Whether the cursor is before the end-of-input token.
    pub fn not_eof(&self) -> (b: bool)
        ensures
            b == (kind(self.toks(), self.pos as int) != TokenType::EOF),
    {
        let t = self.at();
        !(t.token_type == TokenType::EOF)
    }

    /// primary := identifier | integer | string | `(` expr `)` | `[` .. `]`
    #[verifier::loop_isolation(false)]
    #[verifier::rlimit(50)]
    pub fn parse_primary_expr(&mut self) -> (r: Result<Expr, Error>)
        requires
            old(self).wf(),
        ensures
            parsed_expr(*old(self), *final(self), p_primary(old(self).toks(), old(self).pos as int), r),
        decreases pm(old(self).toks(), old(self).pos as int), 2nat,
    {
        let ghost t = self.toks();
        let ghost i = self.pos as int;
        let tk = self.at();
        match tk.token_type {
            TokenType::Ident => {
                let tk = self.consume();
                Result::Ok(Expr::Ident { symbol: tk.value })
            },
            TokenType::IntLit => {
                let tk = self.consume();
                if crate::text::all_digits_exec(tk.value.as_str()) {
                    match parse_digits(tk.value.as_str()) {
                        Option::Some(v) => Result::Ok(Expr::IntLit { value: v }),
                        Option::None => Result::Err(
                            Error::new(ErrorKind::Parse, "integer literal does not fit"),
                        ),
                    }
                } else {
                    Result::Err(Error::new(ErrorKind::Parse, "malformed integer literal"))
                }
            },
            TokenType::StringLit => {
                let tk = self.consume();
                Result::Ok(Expr::StringLit { value: tk.value })
            },
            TokenType::OpenParen => {
                self.consume();
                let e = match self.parse_expr() {
                    Result::Ok(e) => e,
                    Result::Err(e) => {
                        return Result::Err(e);
                    },
                };
                match self.consume_expected(
                    TokenType::CloseParen,
                    "expected a closing parenthesis",
                ) {
                    Result::Ok(_) => Result::Ok(e),
                    Result::Err(e) => Result::Err(e),
                }
            },
            TokenType::OpenBracket => {
                self.consume();
                let mut elements: Vec<Expr> = Vec::new();
                proof {
                    crate::ast::lemma_expr_seq_v(elements@);
                    assert(expr_seq_v(elements@) =~= Seq::<ExprV>::empty());
                }
                loop
                    invariant
                        self.wf(),
                        self.tokens@ == old(self).tokens@,
                        i < self.pos as int,
                        p_array_elems(t, i + 1, Seq::empty()) == p_array_elems(
                            t,
                            self.pos as int,
                            expr_seq_v(elements@),
                        ),
                    decreases pm(t, self.pos as int),
                {
                    let ghost li = self.pos as int;
                    let ghost lacc = expr_seq_v(elements@);
                    let tk2 = self.at();
                    if tk2.token_type == TokenType::CloseBracket {
                        self.consume();
                        return Result::Ok(Expr::Array { elements });
                    }
                    let e = match self.parse_expr() {
                        Result::Ok(e) => e,
                        Result::Err(e) => {
                            return Result::Err(e);
                        },
                    };
                    proof {
                        lemma_p_expr(t, li);
                        crate::ast::lemma_expr_seq_v(elements@);
                        crate::ast::lemma_expr_seq_v(elements@.push(e));
                        assert(expr_seq_v(elements@.push(e)) =~= lacc.push(e@));
                    }
                    elements.push(e);
                    let tk3 = self.at();
                    if tk3.token_type == TokenType::CloseBracket {
                        self.consume();
                        return Result::Ok(Expr::Array { elements });
                    } else if tk3.token_type == TokenType::Comma {
                        self.consume();
                    } else {
                        return Result::Err(
                            Error::new(ErrorKind::Parse, "expected a comma or closing bracket"),
                        );
                    }
                }
            },
            _ => Result::Err(Error::new(ErrorKind::Parse, "unexpected token")),
        }
    }

    /// member := primary (`.`name | `[`expr`]`)*
    #[verifier::loop_isolation(false)]
    pub fn parse_member_expr(&mut self) -> (r: Result<Expr, Error>)
        requires
            old(self).wf(),
        ensures
            parsed_expr(*old(self), *final(self), p_member(old(self).toks(), old(self).pos as int), r),
        decreases pm(old(self).toks(), old(self).pos as int), 3nat,
    {
        let ghost t = self.toks();
        let ghost i = self.pos as int;
        let mut object = match self.parse_primary_expr() {
            Result::Ok(e) => e,
            Result::Err(e) => {
                return Result::Err(e);
            },
        };
        proof {
            lemma_p_primary(t, i);
        }
        loop
            invariant
                self.wf(),
                self.tokens@ == old(self).tokens@,
                i < self.pos as int,
                p_member(t, i) == p_member_rest(t, self.pos as int, object@),
            decreases pm(t, self.pos as int),
        {
            let ghost li = self.pos as int;
            let ghost lobj = object@;
            let tk = self.at();
            if tk.token_type == TokenType::MemAccess {
                self.consume();
                let prop = match self.parse_primary_expr() {
                    Result::Ok(e) => e,
                    Result::Err(e) => {
                        return Result::Err(e);
                    },
                };
                proof {
                    lemma_p_primary(t, li + 1);
                }
                match &prop {
                    Expr::Ident { .. } => {},
                    _ => {
                        return Result::Err(
                            Error::new(ErrorKind::Parse, "expected an identifier as property"),
                        );
                    },
                }
                object = Expr::Member {
                    object: Box::new(object),
                    property: Box::new(prop),
                    computed: false,
                };
            } else if tk.token_type == TokenType::OpenBracket {
                self.consume();
                let prop = match self.parse_expr() {
                    Result::Ok(e) => e,
                    Result::Err(e) => {
                        return Result::Err(e);
                    },
                };
                proof {
                    lemma_p_expr(t, li + 1);
                }
                match self.consume_expected(TokenType::CloseBracket, "expected a closing bracket") {
                    Result::Ok(_) => {},
                    Result::Err(e) => {
                        return Result::Err(e);
                    },
                }
                object = Expr::Member {
                    object: Box::new(object),
                    property: Box::new(prop),
                    computed: true,
                };
            } else {
                return Result::Ok(object);
            }
        }
    }

    /// args := `(` expr (`,` expr)* `)`
    #[verifier::loop_isolation(false)]
    pub fn parse_args(&mut self) -> (r: Result<Vec<Expr>, Error>)
        requires
            old(self).wf(),
        ensures
            final(self).tokens@ == old(self).tokens@,
            final(self).wf(),
            match p_args(old(self).toks(), old(self).pos as int) {
                Option::Some((args, j)) => r is Ok && expr_seq_v(r->Ok_0@) == args
                    && final(self).pos as int == j,
                Option::None => r is Err && r->Err_0.kind == ErrorKind::Parse,
            },
        decreases pm(old(self).toks(), old(self).pos as int), 1nat,
    {
        let ghost t = self.toks();
        let ghost i = self.pos as int;
        match self.consume_expected(TokenType::OpenParen, "expected an opening parenthesis") {
            Result::Ok(_) => {},
            Result::Err(e) => {
                return Result::Err(e);
            },
        }
        let mut args: Vec<Expr> = Vec::new();
        proof {
            crate::ast::lemma_expr_seq_v(args@);
            assert(expr_seq_v(args@) =~= Seq::<ExprV>::empty());
        }
        loop
            invariant
                self.wf(),
                self.tokens@ == old(self).tokens@,
                i < self.pos as int,
                p_args(t, i) == p_args_rest(t, self.pos as int, expr_seq_v(args@)),
            decreases pm(t, self.pos as int),
        {
            let ghost li = self.pos as int;
            let ghost lacc = expr_seq_v(args@);
            let tk = self.at();
            if tk.token_type == TokenType::CloseParen {
                self.consume();
                return Result::Ok(args);
            }
            let e = match self.parse_expr() {
                Result::Ok(e) => e,
                Result::Err(e) => {
                    return Result::Err(e);
                },
            };
            proof {
                lemma_p_expr(t, li);
                crate::ast::lemma_expr_seq_v(args@);
                crate::ast::lemma_expr_seq_v(args@.push(e));
                assert(expr_seq_v(args@.push(e)) =~= lacc.push(e@));
            }
            args.push(e);
            let tk2 = self.at();
            if tk2.token_type == TokenType::CloseParen {
                self.consume();
                return Result::Ok(args);
            } else if tk2.token_type == TokenType::Comma {
                self.consume();
            } else {
                return Result::Err(
                    Error::new(ErrorKind::Parse, "expected a comma or closing parenthesis"),
                );
            }
        }
    }

    /// Call suffixes: an argument list, then possibly further calls.
    pub fn parse_call_expr(&mut self, callee: Expr) -> (r: Result<Expr, Error>)
        requires
            old(self).wf(),
        ensures
            parsed_expr(
                *old(self),
                *final(self),
                p_call(old(self).toks(), old(self).pos as int, callee@),
                r,
            ),
        decreases pm(old(self).toks(), old(self).pos as int), 2nat,
    {
        let ghost t = self.toks();
        let ghost i = self.pos as int;
        let args = match self.parse_args() {
            Result::Ok(a) => a,
            Result::Err(e) => {
                return Result::Err(e);
            },
        };
        proof {
            lemma_p_args(t, i);
        }
        let node = Expr::Call { callee: Box::new(callee), args };
        let tk = self.at();
        if tk.token_type == TokenType::OpenParen {
            self.parse_call_expr(node)
        } else {
            Result::Ok(node)
        }
    }

    /// call-or-member := member [args ...]
    pub fn parse_call_member_expr(&mut self) -> (r: Result<Expr, Error>)
        requires
            old(self).wf(),
        ensures
            parsed_expr(
                *old(self),
                *final(self),
                p_call_member(old(self).toks(), old(self).pos as int),
                r,
            ),
        decreases pm(old(self).toks(), old(self).pos as int), 4nat,
    {
        let ghost t = self.toks();
        let ghost i = self.pos as int;
        let m = match self.parse_member_expr() {
            Result::Ok(e) => e,
            Result::Err(e) => {
                return Result::Err(e);
            },
        };
        proof {
            lemma_p_member(t, i);
        }
        let tk = self.at();
        if tk.token_type == TokenType::OpenParen {
            self.parse_call_expr(m)
        } else {
            Result::Ok(m)
        }
    }

    /// multiplicative := call-or-member ((`*`|`/`|`%`) call-or-member)*
    #[verifier::loop_isolation(false)]
    pub fn parse_multiplicitive_expr(&mut self) -> (r: Result<Expr, Error>)
        requires
            old(self).wf(),
        ensures
            parsed_expr(*old(self), *final(self), p_mult(old(self).toks(), old(self).pos as int), r),
        decreases pm(old(self).toks(), old(self).pos as int), 5nat,
    {
        let ghost t = self.toks();
        let ghost i = self.pos as int;
        let mut left = match self.parse_call_member_expr() {
            Result::Ok(e) => e,
            Result::Err(e) => {
                return Result::Err(e);
            },
        };
        proof {
            lemma_p_call_member(t, i);
        }
        loop
            invariant
                self.wf(),
                self.tokens@ == old(self).tokens@,
                i < self.pos as int,
                p_mult(t, i) == p_mult_rest(t, self.pos as int, left@),
            decreases pm(t, self.pos as int),
        {
            let ghost li = self.pos as int;
            let tk = self.at();
            if tk.token_type == TokenType::BinOp && (str_eq(tk.value.as_str(), "*") || str_eq(
                tk.value.as_str(),
                "/",
            ) || str_eq(tk.value.as_str(), "%")) {
                let op = self.consume();
                let right = match self.parse_call_member_expr() {
                    Result::Ok(e) => e,
                    Result::Err(e) => {
                        return Result::Err(e);
                    },
                };
                proof {
                    lemma_p_call_member(t, li + 1);
                }
                left = Expr::BinExp { left: Box::new(left), op: op.value, right: Box::new(right) };
            } else {
                return Result::Ok(left);
            }
        }
    }

    /// additive := multiplicative ((`+ - == != < >`) multiplicative)*
    #[verifier::loop_isolation(false)]
    pub fn parse_additive_expr(&mut self) -> (r: Result<Expr, Error>)
        requires
            old(self).wf(),
        ensures
            parsed_expr(
                *old(self),
                *final(self),
                p_additive(old(self).toks(), old(self).pos as int),
                r,
            ),
        decreases pm(old(self).toks(), old(self).pos as int), 6nat,
    {
        let ghost t = self.toks();
        let ghost i = self.pos as int;
        let mut left = match self.parse_multiplicitive_expr() {
            Result::Ok(e) => e,
            Result::Err(e) => {
                return Result::Err(e);
            },
        };
        proof {
            lemma_p_mult(t, i);
        }
        loop
            invariant
                self.wf(),
                self.tokens@ == old(self).tokens@,
                i < self.pos as int,
                p_additive(t, i) == p_add_rest(t, self.pos as int, left@),
            decreases pm(t, self.pos as int),
        {
            let ghost li = self.pos as int;
            let tk = self.at();
            if tk.token_type == TokenType::BinOp && (str_eq(tk.value.as_str(), "+") || str_eq(
                tk.value.as_str(),
                "-",
            ) || str_eq(tk.value.as_str(), "==") || str_eq(tk.value.as_str(), "!=") || str_eq(
                tk.value.as_str(),
                "<",
            ) || str_eq(tk.value.as_str(), ">")) {
                let op = self.consume();
                let right = match self.parse_multiplicitive_expr() {
                    Result::Ok(e) => e,
                    Result::Err(e) => {
                        return Result::Err(e);
                    },
                };
                proof {
                    lemma_p_mult(t, li + 1);
                }
                left = Expr::BinExp { left: Box::new(left), op: op.value, right: Box::new(right) };
            } else {
                return Result::Ok(left);
            }
        }
    }

    /// object-or-additive := `{` entries `}` | additive
    #[verifier::loop_isolation(false)]
    pub fn parse_object_expr(&mut self) -> (r: Result<Expr, Error>)
        requires
            old(self).wf(),
        ensures
            parsed_expr(*old(self), *final(self), p_object(old(self).toks(), old(self).pos as int), r),
        decreases pm(old(self).toks(), old(self).pos as int), 7nat,
    {
        let ghost t = self.toks();
        let ghost i = self.pos as int;
        let tk = self.at();
        if !(tk.token_type == TokenType::OpenBrace) {
            return self.parse_additive_expr();
        }
        self.consume();
        let mut properties: Vec<Property> = Vec::new();
        proof {
            crate::ast::lemma_prop_seq_v(properties@);
            assert(crate::ast::prop_seq_v(properties@) =~= Seq::<PropertyV>::empty());
        }
        loop
            invariant
                self.wf(),
                self.tokens@ == old(self).tokens@,
                i < self.pos as int,
                p_props(t, i + 1, Seq::empty()) == p_props(
                    t,
                    self.pos as int,
                    crate::ast::prop_seq_v(properties@),
                ),
            decreases pm(t, self.pos as int),
        {
            let ghost li = self.pos as int;
            let ghost lacc = crate::ast::prop_seq_v(properties@);
            let tk2 = self.at();
            if tk2.token_type == TokenType::CloseBrace {
                self.consume();
                return Result::Ok(Expr::ObjectLit { properties });
            }
            if !(tk2.token_type == TokenType::Ident) {
                return Result::Err(Error::new(ErrorKind::Parse, "expected an object literal key"));
            }
            let key = self.consume();
            let tk3 = self.at();
            if tk3.token_type == TokenType::Comma {
                self.consume();
                let prop = Property { key: key.value, value: Option::None };
                proof {
                    crate::ast::lemma_prop_seq_v(properties@);
                    crate::ast::lemma_prop_seq_v(properties@.push(prop));
                    assert(crate::ast::prop_seq_v(properties@.push(prop)) =~= lacc.push(prop@));
                }
                properties.push(prop);
            } else if tk3.token_type == TokenType::CloseBrace {
                self.consume();
                let prop = Property { key: key.value, value: Option::None };
                proof {
                    crate::ast::lemma_prop_seq_v(properties@);
                    crate::ast::lemma_prop_seq_v(properties@.push(prop));
                    assert(crate::ast::prop_seq_v(properties@.push(prop)) =~= lacc.push(prop@));
                }
                properties.push(prop);
                return Result::Ok(Expr::ObjectLit { properties });
            } else if tk3.token_type == TokenType::Colon {
                self.consume();
                let v = match self.parse_expr() {
                    Result::Ok(e) => e,
                    Result::Err(e) => {
                        return Result::Err(e);
                    },
                };
                proof {
                    lemma_p_expr(t, li + 2);
                }
                let prop = Property { key: key.value, value: Option::Some(Box::new(v)) };
                proof {
                    crate::ast::lemma_prop_seq_v(properties@);
                    crate::ast::lemma_prop_seq_v(properties@.push(prop));
                    assert(crate::ast::prop_seq_v(properties@.push(prop)) =~= lacc.push(prop@));
                }
                properties.push(prop);
                let tk4 = self.at();
                if tk4.token_type == TokenType::CloseBrace {
                    self.consume();
                    return Result::Ok(Expr::ObjectLit { properties });
                } else if tk4.token_type == TokenType::Comma {
                    self.consume();
                } else {
                    return Result::Err(
                        Error::new(ErrorKind::Parse, "expected a comma or closing brace"),
                    );
                }
            } else {
                return Result::Err(
                    Error::new(ErrorKind::Parse, "expected a colon, comma or closing brace"),
                );
            }
        }
    }

    /// assignment := object-or-additive [`=` expr], right-associative.
    pub fn parse_assignment_expr(&mut self) -> (r: Result<Expr, Error>)
        requires
            old(self).wf(),
        ensures
            parsed_expr(*old(self), *final(self), p_expr(old(self).toks(), old(self).pos as int), r),
        decreases pm(old(self).toks(), old(self).pos as int), 8nat,
    {
        let ghost t = self.toks();
        let ghost i = self.pos as int;
        let left = match self.parse_object_expr() {
            Result::Ok(e) => e,
            Result::Err(e) => {
                return Result::Err(e);
            },
        };
        proof {
            lemma_p_object(t, i);
        }
        let tk = self.at();
        if tk.token_type == TokenType::Eq {
            self.consume();
            let value = match self.parse_expr() {
                Result::Ok(e) => e,
                Result::Err(e) => {
                    return Result::Err(e);
                },
            };
            Result::Ok(Expr::Assign { assignee: Box::new(left), value: Box::new(value) })
        } else {
            Result::Ok(left)
        }
    }

    /// expr := assignment
    pub fn parse_expr(&mut self) -> (r: Result<Expr, Error>)
        requires
            old(self).wf(),
        ensures
            parsed_expr(*old(self), *final(self), p_expr(old(self).toks(), old(self).pos as int), r),
        decreases pm(old(self).toks(), old(self).pos as int), 9nat,
    {
        self.parse_assignment_expr()
    }

    /// var-decl := `let` [`mut`] name [`=` expr] `;` | `const` name `=` expr `;`
    pub fn parse_var_decl(&mut self) -> (r: Result<Stmt, Error>)
        requires
            old(self).wf(),
        ensures
            parsed_stmt(
                *old(self),
                *final(self),
                p_var_decl(old(self).toks(), old(self).pos as int),
                r,
            ),
        decreases pm(old(self).toks(), old(self).pos as int), 1nat,
    {
        let ghost t = self.toks();
        let ghost i = self.pos as int;
        let tk = self.at();
        if tk.token_type == TokenType::Let {
            self.consume();
            let tk2 = self.at();
            let mutable = true;
            if tk2.token_type == TokenType::Mut {
                self.consume();
            }
            let ident = match self.consume_expected(TokenType::Ident, "expected an identifier") {
                Result::Ok(t) => t,
                Result::Err(e) => {
                    return Result::Err(e);
                },
            };
            let tk3 = self.at();
            if tk3.token_type == TokenType::Semi {
                self.consume();
                Result::Ok(Stmt::VarDecl { mutable, name: ident.value, value: Option::None })
            } else if tk3.token_type == TokenType::Eq {
                self.consume();
                let e = match self.parse_expr() {
                    Result::Ok(e) => e,
                    Result::Err(e) => {
                        return Result::Err(e);
                    },
                };
                match self.consume_expected(TokenType::Semi, "expected a semicolon") {
                    Result::Ok(_) => Result::Ok(
                        Stmt::VarDecl { mutable, name: ident.value, value: Option::Some(e) },
                    ),
                    Result::Err(e) => Result::Err(e),
                }
            } else {
                Result::Err(Error::new(ErrorKind::Parse, "expected an initializer or semicolon"))
            }
        } else if tk.token_type == TokenType::Const {
            self.consume();
            let ident = match self.consume_expected(TokenType::Ident, "expected an identifier") {
                Result::Ok(t) => t,
                Result::Err(e) => {
                    return Result::Err(e);
                },
            };
            match self.consume_expected(TokenType::Eq, "a constant needs an initializer") {
                Result::Ok(_) => {},
                Result::Err(e) => {
                    return Result::Err(e);
                },
            }
            let e = match self.parse_expr() {
                Result::Ok(e) => e,
                Result::Err(e) => {
                    return Result::Err(e);
                },
            };
            match self.consume_expected(TokenType::Semi, "expected a semicolon") {
                Result::Ok(_) => Result::Ok(
                    Stmt::VarDecl { mutable: false, name: ident.value, value: Option::Some(e) },
                ),
                Result::Err(e) => Result::Err(e),
            }
        } else {
            Result::Err(Error::new(ErrorKind::Parse, "expected a declaration"))
        }
    }

    /// block := `{` stmt* `}`
    #[verifier::loop_isolation(false)]
    pub fn parse_block(&mut self) -> (r: Result<Vec<Stmt>, Error>)
        requires
            old(self).wf(),
        ensures
            final(self).tokens@ == old(self).tokens@,
            final(self).wf(),
            match p_block(old(self).toks(), old(self).pos as int) {
                Option::Some((body, j)) => r is Ok && crate::ast::stmt_seq_v(r->Ok_0@) == body
                    && final(self).pos as int == j,
                Option::None => r is Err && r->Err_0.kind == ErrorKind::Parse,
            },
        decreases pm(old(self).toks(), old(self).pos as int), 1nat,
    {
        let ghost t = self.toks();
        let ghost i = self.pos as int;
        match self.consume_expected(TokenType::OpenBrace, "expected an opening brace") {
            Result::Ok(_) => {},
            Result::Err(e) => {
                return Result::Err(e);
            },
        }
        let mut body: Vec<Stmt> = Vec::new();
        proof {
            crate::ast::lemma_stmt_seq_v(body@);
            assert(crate::ast::stmt_seq_v(body@) =~= Seq::<StmtV>::empty());
        }
        loop
            invariant
                self.wf(),
                self.tokens@ == old(self).tokens@,
                i < self.pos as int,
                p_block(t, i) == p_block_stmts(t, self.pos as int, crate::ast::stmt_seq_v(body@)),
            decreases pm(t, self.pos as int),
        {
            let ghost li = self.pos as int;
            let ghost lacc = crate::ast::stmt_seq_v(body@);
            let tk = self.at();
            if tk.token_type == TokenType::CloseBrace {
                self.consume();
                return Result::Ok(body);
            }
            if tk.token_type == TokenType::EOF {
                return Result::Err(Error::new(ErrorKind::Parse, "expected a closing brace"));
            }
            let s = match self.parse_stmt() {
                Result::Ok(s) => s,
                Result::Err(e) => {
                    return Result::Err(e);
                },
            };
            proof {
                lemma_p_stmt(t, li);
                crate::ast::lemma_stmt_seq_v(body@);
                crate::ast::lemma_stmt_seq_v(body@.push(s));
                assert(crate::ast::stmt_seq_v(body@.push(s)) =~= lacc.push(s@));
            }
            body.push(s);
        }
    }

    /// func-decl := `func` name args block; parameters must be bare
    /// identifiers.
    #[verifier::loop_isolation(false)]
    #[verifier::rlimit(60)]
    pub fn parse_func_decl(&mut self) -> (r: Result<Stmt, Error>)
        requires
            old(self).wf(),
        ensures
            parsed_stmt(
                *old(self),
                *final(self),
                p_func_decl(old(self).toks(), old(self).pos as int),
                r,
            ),
        decreases pm(old(self).toks(), old(self).pos as int), 1nat,
    {
        let ghost t = self.toks();
        let ghost i = self.pos as int;
        let tk = self.at();
        if !(tk.token_type == TokenType::Func) {
            return Result::Err(Error::new(ErrorKind::Parse, "expected a function declaration"));
        }
        self.consume();
        let name = match self.consume_expected(
            TokenType::Ident,
            "expected an identifier as function name",
        ) {
            Result::Ok(t) => t,
            Result::Err(e) => {
                return Result::Err(e);
            },
        };
        let args = match self.parse_args() {
            Result::Ok(a) => a,
            Result::Err(e) => {
                return Result::Err(e);
            },
        };
        proof {
            lemma_p_args(t, i + 2);
        }
        let ghost argsv = expr_seq_v(args@);
        proof {
            crate::ast::lemma_expr_seq_v(args@);
        }
        let mut params: Vec<String> = Vec::new();
        let mut k: usize = 0;
        proof {
            assert(params.deep_view() =~= Seq::<Seq<char>>::empty());
        }
        while k < args.len()
            invariant
                k <= args@.len(),
                p_params(argsv, 0, Seq::empty()) == p_params(argsv, k as int, params.deep_view()),
            decreases args@.len() - k,
        {
            let ghost lp = params.deep_view();
            match &args[k] {
                Expr::Ident { symbol } => {
                    let sc = symbol.clone();
                    params.push(sc);
                    proof {
                        assert(params.deep_view() =~= lp.push(argsv[k as int]->Ident_symbol));
                    }
                },
                _ => {
                    return Result::Err(
                        Error::new(ErrorKind::Parse, "expected an identifier as parameter"),
                    );
                },
            }
            k += 1;
        }
        let body = match self.parse_block() {
            Result::Ok(b) => b,
            Result::Err(e) => {
                return Result::Err(e);
            },
        };
        Result::Ok(Stmt::FuncDecl { params, name: name.value, body })
    }

    /// return := `ret` [expr] `;`
    pub fn parse_return(&mut self) -> (r: Result<Stmt, Error>)
        requires
            old(self).wf(),
        ensures
            parsed_stmt(*old(self), *final(self), p_return(old(self).toks(), old(self).pos as int), r),
        decreases pm(old(self).toks(), old(self).pos as int), 1nat,
    {
        let ghost t = self.toks();
        let ghost i = self.pos as int;
        let tk = self.at();
        if !(tk.token_type == TokenType::Ret) {
            return Result::Err(Error::new(ErrorKind::Parse, "expected a return statement"));
        }
        self.consume();
        let tk2 = self.at();
        if tk2.token_type == TokenType::Semi {
            self.consume();
            return Result::Ok(Stmt::Return { value: Option::None });
        }
        let e = match self.parse_expr() {
            Result::Ok(e) => e,
            Result::Err(e) => {
                return Result::Err(e);
            },
        };
        match self.consume_expected(TokenType::Semi, "expected a semicolon") {
            Result::Ok(_) => Result::Ok(Stmt::Return { value: Option::Some(e) }),
            Result::Err(e) => Result::Err(e),
        }
    }

    /// if := `if` expr block [`else` block]
    #[verifier::rlimit(50)]
    pub fn parse_if_stmt(&mut self) -> (r: Result<Stmt, Error>)
        requires
            old(self).wf(),
        ensures
            parsed_stmt(*old(self), *final(self), p_if(old(self).toks(), old(self).pos as int), r),
        decreases pm(old(self).toks(), old(self).pos as int), 1nat,
    {
        let ghost t = self.toks();
        let ghost i = self.pos as int;
        let tk = self.at();
        if !(tk.token_type == TokenType::If) {
            return Result::Err(Error::new(ErrorKind::Parse, "expected an if statement"));
        }
        self.consume();
        let condition = match self.parse_expr() {
            Result::Ok(e) => e,
            Result::Err(e) => {
                return Result::Err(e);
            },
        };
        proof {
            lemma_p_expr(t, i + 1);
        }
        let ghost bpos = self.pos as int;
        let then_branch = match self.parse_block() {
            Result::Ok(b) => b,
            Result::Err(e) => {
                return Result::Err(e);
            },
        };
        proof {
            lemma_p_block(t, bpos);
        }
        let tk2 = self.at();
        if tk2.token_type == TokenType::Else {
            self.consume();
            let else_branch = match self.parse_block() {
                Result::Ok(b) => b,
                Result::Err(e) => {
                    return Result::Err(e);
                },
            };
            Result::Ok(
                Stmt::If { condition, then_branch, else_branch: Option::Some(else_branch) },
            )
        } else {
            Result::Ok(Stmt::If { condition, then_branch, else_branch: Option::None })
        }
    }

    /// for := `for` `(` name `in` expr `)` block
    pub fn parse_for_stmt(&mut self) -> (r: Result<Stmt, Error>)
        requires
            old(self).wf(),
        ensures
            parsed_stmt(*old(self), *final(self), p_for(old(self).toks(), old(self).pos as int), r),
        decreases pm(old(self).toks(), old(self).pos as int), 1nat,
    {
        let ghost t = self.toks();
        let ghost i = self.pos as int;
        let tk = self.at();
        if !(tk.token_type == TokenType::For) {
            return Result::Err(Error::new(ErrorKind::Parse, "expected a for loop"));
        }
        self.consume();
        match self.consume_expected(TokenType::OpenParen, "expected an opening parenthesis") {
            Result::Ok(_) => {},
            Result::Err(e) => {
                return Result::Err(e);
            },
        }
        let ident = match self.consume_expected(TokenType::Ident, "expected a loop binding") {
            Result::Ok(t) => t,
            Result::Err(e) => {
                return Result::Err(e);
            },
        };
        match self.consume_expected(TokenType::In, "expected the word in") {
            Result::Ok(_) => {},
            Result::Err(e) => {
                return Result::Err(e);
            },
        }
        let iterable = match self.parse_expr() {
            Result::Ok(e) => e,
            Result::Err(e) => {
                return Result::Err(e);
            },
        };
        proof {
            lemma_p_expr(t, i + 4);
        }
        match self.consume_expected(TokenType::CloseParen, "expected a closing parenthesis") {
            Result::Ok(_) => {},
            Result::Err(e) => {
                return Result::Err(e);
            },
        }
        let body = match self.parse_block() {
            Result::Ok(b) => b,
            Result::Err(e) => {
                return Result::Err(e);
            },
        };
        Result::Ok(Stmt::For { ident: ident.value, iterable: Box::new(iterable), body })
    }

    /// stmt := var-decl | func-decl | return | if | for | expr, the last
    /// with an optional trailing semicolon.
    pub fn parse_stmt(&mut self) -> (r: Result<Stmt, Error>)
        requires
            old(self).wf(),
        ensures
            parsed_stmt(*old(self), *final(self), p_stmt(old(self).toks(), old(self).pos as int), r),
        decreases pm(old(self).toks(), old(self).pos as int), 10nat,
    {
        let tk = self.at();
        match tk.token_type {
            TokenType::Let => self.parse_var_decl(),
            TokenType::Const => self.parse_var_decl(),
            TokenType::Func => self.parse_func_decl(),
            TokenType::Ret => self.parse_return(),
            TokenType::If => self.parse_if_stmt(),
            TokenType::For => self.parse_for_stmt(),
            _ => {
                match self.parse_expr() {
                    Result::Ok(e) => {
                        let tk2 = self.at();
                        if tk2.token_type == TokenType::Semi {
                            self.consume();
                        }
                        Result::Ok(Stmt::Expr(e))
                    },
                    Result::Err(e) => Result::Err(e),
                }
            },
        }
    }

    /// Parses the whole token stream into a program: statements up to the
    /// end-of-input token.
    #[verifier::loop_isolation(false)]
    pub fn produce_ast(&mut self) -> (r: Result<Program, Error>)
        requires
            old(self).wf(),
        ensures
            final(self).tokens@ == old(self).tokens@,
            final(self).wf(),
            match p_program(old(self).toks(), old(self).pos as int, Seq::empty()) {
                Option::Some((prog, j)) => r is Ok && r->Ok_0@ == prog
                    && final(self).pos as int == j,
                Option::None => r is Err && r->Err_0.kind == ErrorKind::Parse,
            },
    {
        let ghost t = self.toks();
        let ghost i = self.pos as int;
        let mut body: Vec<Stmt> = Vec::new();
        proof {
            crate::ast::lemma_stmt_seq_v(body@);
            assert(crate::ast::stmt_seq_v(body@) =~= Seq::<StmtV>::empty());
        }
        while self.not_eof()
            invariant
                self.wf(),
                self.tokens@ == old(self).tokens@,
                p_program(t, i, Seq::empty()) == p_program(
                    t,
                    self.pos as int,
                    crate::ast::stmt_seq_v(body@),
                ),
            decreases pm(t, self.pos as int),
        {
            let ghost li = self.pos as int;
            let ghost lacc = crate::ast::stmt_seq_v(body@);
            let s = match self.parse_stmt() {
                Result::Ok(s) => s,
                Result::Err(e) => {
                    return Result::Err(e);
                },
            };
            proof {
                lemma_p_stmt(t, li);
                crate::ast::lemma_stmt_seq_v(body@);
                crate::ast::lemma_stmt_seq_v(body@.push(s));
                assert(crate::ast::stmt_seq_v(body@.push(s)) =~= lacc.push(s@));
            }
            body.push(s);
        }
        Result::Ok(Program { body })
    }
}

} // verus!
