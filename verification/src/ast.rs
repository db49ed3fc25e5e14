//! The abstract syntax tree produced by parsing and consumed by evaluation.
//!
//! Each node type has a mathematical view (`ExprV`, `StmtV`, `PropertyV`) over
//! `Seq` and `Seq<char>`; every contract about parsing and evaluation is
//! stated over these views. The size functions are the measure that
//! termination of the recursive semantics and of the evaluator is proved
//! against.

use vstd::prelude::*;

verus! {

/// A statement of the language.
pub enum Stmt {
    /// An expression statement.
    Expr(Expr),
    /// `let [mut] name [= expr];` or `const name = expr;`.
    VarDecl { mutable: bool, name: String, value: Option<Expr> },
    /// `func name(params) { body }`.
    FuncDecl { params: Vec<String>, name: String, body: Vec<Stmt> },
    /// `ret [expr];`.
    Return { value: Option<Expr> },
    /// `if cond { .. } [else { .. }]`.
    If { condition: Expr, then_branch: Vec<Stmt>, else_branch: Option<Vec<Stmt>> },
    /// `for (ident in iterable) { body }`.
    For { ident: String, iterable: Box<Expr>, body: Vec<Stmt> },
}

/// An expression of the language.
pub enum Expr {
    /// A binary operation `left op right`.
    BinExp { left: Box<Expr>, op: String, right: Box<Expr> },
    /// An integer literal.
    IntLit { value: i64 },
    /// An array literal `[a, b, c]`.
    Array { elements: Vec<Expr> },
    /// A variable reference.
    Ident { symbol: String },
    /// An assignment `assignee = value`.
    Assign { assignee: Box<Expr>, value: Box<Expr> },
    /// An object literal `{ key: value, shorthand }`.
    ObjectLit { properties: Vec<Property> },
    /// A member access `object.property` or `object[property]` (computed).
    Member { object: Box<Expr>, property: Box<Expr>, computed: bool },
    /// A call `callee(args)`.
    Call { callee: Box<Expr>, args: Vec<Expr> },
    /// A string literal.
    StringLit { value: String },
}

/// One entry of an object literal; a missing value means shorthand: the key
/// is resolved as a variable of the same name at evaluation time.
pub struct Property {
    pub key: String,
    pub value: Option<Box<Expr>>,
}

/// A whole parsed program: the ordered top-level statements.
pub struct Program {
    pub body: Vec<Stmt>,
}

/// The mathematical view of a statement.
pub enum StmtV {
    Expr(ExprV),
    VarDecl { mutable: bool, name: Seq<char>, value: Option<ExprV> },
    FuncDecl { params: Seq<Seq<char>>, name: Seq<char>, body: Seq<StmtV> },
    Return { value: Option<ExprV> },
    If { condition: ExprV, then_branch: Seq<StmtV>, else_branch: Option<Seq<StmtV>> },
    For { ident: Seq<char>, iterable: Box<ExprV>, body: Seq<StmtV> },
}

/// The mathematical view of an expression.
pub enum ExprV {
    BinExp { left: Box<ExprV>, op: Seq<char>, right: Box<ExprV> },
    IntLit { value: i64 },
    Array { elements: Seq<ExprV> },
    Ident { symbol: Seq<char> },
    Assign { assignee: Box<ExprV>, value: Box<ExprV> },
    ObjectLit { properties: Seq<PropertyV> },
    Member { object: Box<ExprV>, property: Box<ExprV>, computed: bool },
    Call { callee: Box<ExprV>, args: Seq<ExprV> },
    StringLit { value: Seq<char> },
}

/// The mathematical view of an object-literal entry.
pub struct PropertyV {
    pub key: Seq<char>,
    pub value: Option<Box<ExprV>>,
}

pub open spec fn expr_v(e: Expr) -> ExprV
    decreases e,
{
    match e {
        Expr::BinExp { left, op, right } => ExprV::BinExp {
            left: Box::new(expr_v(*left)),
            op: op@,
            right: Box::new(expr_v(*right)),
        },
        Expr::IntLit { value } => ExprV::IntLit { value },
        Expr::Array { elements } => ExprV::Array { elements: expr_seq_v(elements@) },
        Expr::Ident { symbol } => ExprV::Ident { symbol: symbol@ },
        Expr::Assign { assignee, value } => ExprV::Assign {
            assignee: Box::new(expr_v(*assignee)),
            value: Box::new(expr_v(*value)),
        },
        Expr::ObjectLit { properties } => ExprV::ObjectLit { properties: prop_seq_v(properties@) },
        Expr::Member { object, property, computed } => ExprV::Member {
            object: Box::new(expr_v(*object)),
            property: Box::new(expr_v(*property)),
            computed,
        },
        Expr::Call { callee, args } => ExprV::Call {
            callee: Box::new(expr_v(*callee)),
            args: expr_seq_v(args@),
        },
        Expr::StringLit { value } => ExprV::StringLit { value: value@ },
    }
}

pub open spec fn expr_seq_v(es: Seq<Expr>) -> Seq<ExprV>
    decreases es,
{
    if es.len() == 0 {
        Seq::empty()
    } else {
        seq![expr_v(es[0])] + expr_seq_v(es.drop_first())
    }
}

pub open spec fn prop_v(p: Property) -> PropertyV
    decreases p,
{
    PropertyV {
        key: p.key@,
        value: match p.value {
            Option::None => Option::None,
            Option::Some(e) => Option::Some(Box::new(expr_v(*e))),
        },
    }
}

pub open spec fn prop_seq_v(ps: Seq<Property>) -> Seq<PropertyV>
    decreases ps,
{
    if ps.len() == 0 {
        Seq::empty()
    } else {
        seq![prop_v(ps[0])] + prop_seq_v(ps.drop_first())
    }
}

pub open spec fn opt_expr_v(oe: Option<Expr>) -> Option<ExprV>
    decreases oe,
{
    match oe {
        Option::None => Option::None,
        Option::Some(e) => Option::Some(expr_v(e)),
    }
}

pub open spec fn stmt_v(s: Stmt) -> StmtV
    decreases s,
{
    match s {
        Stmt::Expr(e) => StmtV::Expr(expr_v(e)),
        Stmt::VarDecl { mutable, name, value } => StmtV::VarDecl {
            mutable,
            name: name@,
            value: opt_expr_v(value),
        },
        Stmt::FuncDecl { params, name, body } => StmtV::FuncDecl {
            params: params.deep_view(),
            name: name@,
            body: stmt_seq_v(body@),
        },
        Stmt::Return { value } => StmtV::Return { value: opt_expr_v(value) },
        Stmt::If { condition, then_branch, else_branch } => StmtV::If {
            condition: expr_v(condition),
            then_branch: stmt_seq_v(then_branch@),
            else_branch: match else_branch {
                Option::None => Option::None,
                Option::Some(b) => Option::Some(stmt_seq_v(b@)),
            },
        },
        Stmt::For { ident, iterable, body } => StmtV::For {
            ident: ident@,
            iterable: Box::new(expr_v(*iterable)),
            body: stmt_seq_v(body@),
        },
    }
}

pub open spec fn stmt_seq_v(ss: Seq<Stmt>) -> Seq<StmtV>
    decreases ss,
{
    if ss.len() == 0 {
        Seq::empty()
    } else {
        seq![stmt_v(ss[0])] + stmt_seq_v(ss.drop_first())
    }
}

impl View for Expr {
    type V = ExprV;

    open spec fn view(&self) -> ExprV {
        expr_v(*self)
    }
}

impl View for Stmt {
    type V = StmtV;

    open spec fn view(&self) -> StmtV {
        stmt_v(*self)
    }
}

impl View for Property {
    type V = PropertyV;

    open spec fn view(&self) -> PropertyV {
        prop_v(*self)
    }
}

impl View for Program {
    type V = Seq<StmtV>;

    open spec fn view(&self) -> Seq<StmtV> {
        stmt_seq_v(self.body@)
    }
}

pub proof fn lemma_expr_seq_v(es: Seq<Expr>)
    ensures
        expr_seq_v(es).len() == es.len(),
        forall|i: int| 0 <= i < es.len() ==> #[trigger] expr_seq_v(es)[i] == expr_v(es[i]),
    decreases es,
{
    if es.len() > 0 {
        lemma_expr_seq_v(es.drop_first());
        assert forall|i: int| 0 <= i < es.len() implies #[trigger] expr_seq_v(es)[i] == expr_v(es[i]) by {
            if i > 0 {
                assert(es.drop_first()[i - 1] == es[i]);
                assert(expr_seq_v(es)[i] == expr_seq_v(es.drop_first())[i - 1]);
            }
        }
    }
}

pub proof fn lemma_prop_seq_v(ps: Seq<Property>)
    ensures
        prop_seq_v(ps).len() == ps.len(),
        forall|i: int| 0 <= i < ps.len() ==> #[trigger] prop_seq_v(ps)[i] == prop_v(ps[i]),
    decreases ps,
{
    if ps.len() > 0 {
        lemma_prop_seq_v(ps.drop_first());
        assert forall|i: int| 0 <= i < ps.len() implies #[trigger] prop_seq_v(ps)[i] == prop_v(ps[i]) by {
            if i > 0 {
                assert(ps.drop_first()[i - 1] == ps[i]);
                assert(prop_seq_v(ps)[i] == prop_seq_v(ps.drop_first())[i - 1]);
            }
        }
    }
}

pub proof fn lemma_stmt_seq_v(ss: Seq<Stmt>)
    ensures
        stmt_seq_v(ss).len() == ss.len(),
        forall|i: int| 0 <= i < ss.len() ==> #[trigger] stmt_seq_v(ss)[i] == stmt_v(ss[i]),
    decreases ss,
{
    if ss.len() > 0 {
        lemma_stmt_seq_v(ss.drop_first());
        assert forall|i: int| 0 <= i < ss.len() implies #[trigger] stmt_seq_v(ss)[i] == stmt_v(ss[i]) by {
            if i > 0 {
                assert(ss.drop_first()[i - 1] == ss[i]);
                assert(stmt_seq_v(ss)[i] == stmt_seq_v(ss.drop_first())[i - 1]);
            }
        }
    }
}

impl Clone for Expr {
    /// Deep copy; the views coincide.
    fn clone(&self) -> (res: Self)
        ensures
            res@ == self@,
        decreases *self,
    {
        match self {
            Expr::BinExp { left, op, right } => Expr::BinExp {
                left: Box::new((**left).clone()),
                op: op.clone(),
                right: Box::new((**right).clone()),
            },
            Expr::IntLit { value } => Expr::IntLit { value: *value },
            Expr::Array { elements } => {
                let r = Expr::Array { elements: clone_expr_vec(elements) };
                proof {
                    assert(r@ == self@);
                }
                r
            },
            Expr::Ident { symbol } => Expr::Ident { symbol: symbol.clone() },
            Expr::Assign { assignee, value } => Expr::Assign {
                assignee: Box::new((**assignee).clone()),
                value: Box::new((**value).clone()),
            },
            Expr::ObjectLit { properties } => {
                let r = Expr::ObjectLit { properties: clone_prop_vec(properties) };
                proof {
                    assert(r@ == self@);
                }
                r
            },
            Expr::Member { object, property, computed } => Expr::Member {
                object: Box::new((**object).clone()),
                property: Box::new((**property).clone()),
                computed: *computed,
            },
            Expr::Call { callee, args } => {
                let r = Expr::Call {
                    callee: Box::new((**callee).clone()),
                    args: clone_expr_vec(args),
                };
                proof {
                    assert(r@ == self@);
                }
                r
            },
            Expr::StringLit { value } => Expr::StringLit { value: value.clone() },
        }
    }
}

fn clone_expr_vec(es: &Vec<Expr>) -> (res: Vec<Expr>)
    ensures
        expr_seq_v(res@) == expr_seq_v(es@),
    decreases es@,
{
    let mut res: Vec<Expr> = Vec::new();
    let mut i: usize = 0;
    while i < es.len()
        invariant
            i <= es@.len(),
            res@.len() == i,
            forall|j: int| 0 <= j < i ==> expr_v(#[trigger] res@[j]) == expr_v(es@[j]),
        decreases es@.len() - i,
    {
        proof {
            assert(decreases_to!(es@ => es@[i as int]));
        }
        let e = (&es[i]).clone();
        res.push(e);
        i += 1;
    }
    proof {
        lemma_expr_seq_v(res@);
        lemma_expr_seq_v(es@);
        assert(expr_seq_v(res@) =~= expr_seq_v(es@));
    }
    res
}

fn clone_prop_vec(ps: &Vec<Property>) -> (res: Vec<Property>)
    ensures
        prop_seq_v(res@) == prop_seq_v(ps@),
    decreases ps@,
{
    let mut res: Vec<Property> = Vec::new();
    let mut i: usize = 0;
    while i < ps.len()
        invariant
            i <= ps@.len(),
            res@.len() == i,
            forall|j: int| 0 <= j < i ==> prop_v(#[trigger] res@[j]) == prop_v(ps@[j]),
        decreases ps@.len() - i,
    {
        proof {
            assert(decreases_to!(ps@ => ps@[i as int]));
        }
        let p = (&ps[i]).clone();
        res.push(p);
        i += 1;
    }
    proof {
        lemma_prop_seq_v(res@);
        lemma_prop_seq_v(ps@);
        assert(prop_seq_v(res@) =~= prop_seq_v(ps@));
    }
    res
}

pub fn clone_stmt_vec(ss: &Vec<Stmt>) -> (res: Vec<Stmt>)
    ensures
        stmt_seq_v(res@) == stmt_seq_v(ss@),
    decreases ss@,
{
    let mut res: Vec<Stmt> = Vec::new();
    let mut i: usize = 0;
    while i < ss.len()
        invariant
            i <= ss@.len(),
            res@.len() == i,
            forall|j: int| 0 <= j < i ==> stmt_v(#[trigger] res@[j]) == stmt_v(ss@[j]),
        decreases ss@.len() - i,
    {
        proof {
            assert(decreases_to!(ss@ => ss@[i as int]));
        }
        let s = (&ss[i]).clone();
        res.push(s);
        i += 1;
    }
    proof {
        lemma_stmt_seq_v(res@);
        lemma_stmt_seq_v(ss@);
        assert(stmt_seq_v(res@) =~= stmt_seq_v(ss@));
    }
    res
}

pub fn clone_string_vec(ss: &Vec<String>) -> (res: Vec<String>)
    ensures
        res.deep_view() == ss.deep_view(),
        res@.len() == ss@.len(),
        forall|i: int| 0 <= i < ss@.len() ==> (#[trigger] res@[i])@ == ss@[i]@,
{
    let mut res: Vec<String> = Vec::new();
    let mut i: usize = 0;
    while i < ss.len()
        invariant
            i <= ss@.len(),
            res@.len() == i,
            forall|j: int| 0 <= j < i ==> #[trigger] res@[j]@ == ss@[j]@,
        decreases ss@.len() - i,
    {
        let s = (&ss[i]).clone();
        res.push(s);
        i += 1;
    }
    proof {
        assert(res.deep_view() =~= ss.deep_view());
    }
    res
}

impl Clone for Property {
    /// Deep copy; the views coincide.
    fn clone(&self) -> (res: Self)
        ensures
            res@ == self@,
        decreases *self,
    {
        Property {
            key: self.key.clone(),
            value: match &self.value {
                Option::None => Option::None,
                Option::Some(e) => Option::Some(Box::new((**e).clone())),
            },
        }
    }
}

impl Clone for Stmt {
    /// Deep copy; the views coincide.
    fn clone(&self) -> (res: Self)
        ensures
            res@ == self@,
        decreases *self,
    {
        match self {
            Stmt::Expr(e) => Stmt::Expr(e.clone()),
            Stmt::VarDecl { mutable, name, value } => Stmt::VarDecl {
                mutable: *mutable,
                name: name.clone(),
                value: match value {
                    Option::None => Option::None,
                    Option::Some(e) => Option::Some(e.clone()),
                },
            },
            Stmt::FuncDecl { params, name, body } => {
                let r = Stmt::FuncDecl {
                    params: clone_string_vec(params),
                    name: name.clone(),
                    body: clone_stmt_vec(body),
                };
                proof {
                    assert(r@ == self@);
                }
                r
            },
            Stmt::Return { value } => Stmt::Return {
                value: match value {
                    Option::None => Option::None,
                    Option::Some(e) => Option::Some(e.clone()),
                },
            },
            Stmt::If { condition, then_branch, else_branch } => {
                let r = Stmt::If {
                    condition: condition.clone(),
                    then_branch: clone_stmt_vec(then_branch),
                    else_branch: match else_branch {
                        Option::None => Option::None,
                        Option::Some(b) => Option::Some(clone_stmt_vec(b)),
                    },
                };
                proof {
                    assert(r@ == self@);
                }
                r
            },
            Stmt::For { ident, iterable, body } => {
                let r = Stmt::For {
                    ident: ident.clone(),
                    iterable: Box::new((**iterable).clone()),
                    body: clone_stmt_vec(body),
                };
                proof {
                    assert(r@ == self@);
                }
                r
            },
        }
    }
}

/// Size of an expression view: every node counts at least one. The measure
/// the recursive semantics decreases on within one call frame.
pub open spec fn expr_size(e: ExprV) -> nat
    decreases e,
{
    match e {
        ExprV::BinExp { left, right, .. } => 1 + expr_size(*left) + expr_size(*right),
        ExprV::IntLit { .. } => 1,
        ExprV::Array { elements } => 1 + expr_seq_size(elements),
        ExprV::Ident { .. } => 1,
        ExprV::Assign { assignee, value } => 1 + expr_size(*assignee) + expr_size(*value),
        ExprV::ObjectLit { properties } => 1 + prop_seq_size(properties),
        ExprV::Member { object, property, .. } => 1 + expr_size(*object) + expr_size(*property),
        ExprV::Call { callee, args } => 1 + expr_size(*callee) + expr_seq_size(args),
        ExprV::StringLit { .. } => 1,
    }
}

pub open spec fn expr_seq_size(es: Seq<ExprV>) -> nat
    decreases es,
{
    if es.len() == 0 {
        1
    } else {
        1 + expr_size(es[0]) + expr_seq_size(es.drop_first())
    }
}

pub open spec fn prop_seq_size(ps: Seq<PropertyV>) -> nat
    decreases ps,
{
    if ps.len() == 0 {
        1
    } else {
        1 + opt_box_expr_size(ps[0].value) + prop_seq_size(ps.drop_first())
    }
}

pub open spec fn opt_box_expr_size(oe: Option<Box<ExprV>>) -> nat
    decreases oe,
{
    match oe {
        Option::None => 1,
        Option::Some(e) => 1 + expr_size(*e),
    }
}

pub open spec fn opt_expr_size(oe: Option<ExprV>) -> nat
    decreases oe,
{
    match oe {
        Option::None => 1,
        Option::Some(e) => 1 + expr_size(e),
    }
}

pub open spec fn stmt_size(s: StmtV) -> nat
    decreases s,
{
    match s {
        StmtV::Expr(e) => 1 + expr_size(e),
        StmtV::VarDecl { value, .. } => 1 + opt_expr_size(value),
        StmtV::FuncDecl { body, .. } => 1 + stmt_seq_size(body),
        StmtV::Return { value } => 1 + opt_expr_size(value),
        StmtV::If { condition, then_branch, else_branch } => 1 + expr_size(condition)
            + stmt_seq_size(then_branch) + match else_branch {
            Option::None => 1,
            Option::Some(b) => 1 + stmt_seq_size(b),
        },
        StmtV::For { iterable, body, .. } => 1 + expr_size(*iterable) + stmt_seq_size(body),
    }
}

pub open spec fn stmt_seq_size(ss: Seq<StmtV>) -> nat
    decreases ss,
{
    if ss.len() == 0 {
        1
    } else {
        1 + stmt_size(ss[0]) + stmt_seq_size(ss.drop_first())
    }
}

} // verus!
