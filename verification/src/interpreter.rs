//! The tree-walking evaluator. Every function returns exactly what the
//! denotational semantics in `semantics` gives for its piece of syntax: the
//! contracts relate the runtime values, the scope chain and the output
//! buffer to `eval_expr_s`, `eval_stmt_s` and their companions.
//!
//! Printing is buffered: the embedder drains the output lines and writes
//! them out. The clock is sampled once by the embedder and handed in, so
//! `Date.now` is a pure function of it.

use vstd::prelude::*;

use crate::ast::{
    expr_seq_size, expr_seq_v, expr_size, lemma_expr_seq_v, lemma_prop_seq_v, lemma_stmt_seq_v,
    opt_expr_size, opt_expr_v, prop_seq_size, prop_seq_v, stmt_seq_size, stmt_seq_v, stmt_size,
    Expr, ExprV, Program, Property, PropertyV, Stmt, StmtV,
};
use crate::environment::{env_declare, env_lookup, EnvV, Environment};
use crate::errors::{Error, ErrorKind};
use crate::lexer::{lex_from, tokenize};
use crate::parser::{p_program, Parser};
use crate::semantics::{
    apply_binop, array_new_count, bind_params, call_s, collect_path_s, eval_args_s, eval_assign_s,
    eval_expr_s, eval_for_s, eval_member_s, eval_props_s, eval_seq_s, eval_stmt_s, eval_top_s,
    native_s, read_member, render_args, seq_has, update_path, FlowV, StateV, CALL_DEPTH,
};
use crate::text::str_eq;
use crate::values::{
    alist_get, alist_set, equals, lemma_value_seq_v, props_v, render, value_eq, value_seq_v,
    value_v, NativeFn, Object, RuntimeValue, ValueV,
};

verus! {

/// The control-flow outcome of a statement at run time.
pub enum Flow {
    Normal(RuntimeValue),
    Return(RuntimeValue),
}

impl View for Flow {
    type V = FlowV;

    open spec fn view(&self) -> FlowV {
        match self {
            Flow::Normal(v) => FlowV::Normal(value_v(*v)),
            Flow::Return(v) => FlowV::Return(value_v(*v)),
        }
    }
}

/// How an expression evaluator's result relates to the semantics: on
/// success, the value and the state after match; on an error, the kind
/// matches.
pub open spec fn expr_outcome(
    sr: Result<(ValueV, StateV), ErrorKind>,
    r: Result<RuntimeValue, Error>,
    env2: EnvV,
    out2: Seq<Seq<char>>,
) -> bool {
    match sr {
        Result::Ok((v, st)) => r is Ok && value_v(r->Ok_0) == v && env2 == st.env && out2 == st.out,
        Result::Err(k) => r is Err && r->Err_0.kind == k,
    }
}

/// As `expr_outcome`, for statement evaluators returning a flow.
pub open spec fn flow_outcome(
    sr: Result<(FlowV, StateV), ErrorKind>,
    r: Result<Flow, Error>,
    env2: EnvV,
    out2: Seq<Seq<char>>,
) -> bool {
    match sr {
        Result::Ok((f, st)) => r is Ok && r->Ok_0@ == f && env2 == st.env && out2 == st.out,
        Result::Err(k) => r is Err && r->Err_0.kind == k,
    }
}

/// As `expr_outcome`, for statement evaluators whose flow is always an
/// ordinary value on success.
pub open spec fn stmt_value_outcome(
    sr: Result<(FlowV, StateV), ErrorKind>,
    r: Result<RuntimeValue, Error>,
    env2: EnvV,
    out2: Seq<Seq<char>>,
) -> bool {
    match sr {
        Result::Ok((f, st)) => r is Ok && f == FlowV::Normal(value_v(r->Ok_0)) && env2 == st.env
            && out2 == st.out,
        Result::Err(k) => r is Err && r->Err_0.kind == k,
    }
}

pub proof fn lemma_expr_seq_size_elem(es: Seq<ExprV>, i: int)
    requires
        0 <= i < es.len(),
    ensures
        expr_size(es[i]) < expr_seq_size(es),
    decreases es,
{
    if i > 0 {
        lemma_expr_seq_size_elem(es.drop_first(), i - 1);
        assert(es.drop_first()[i - 1] == es[i]);
    }
}

pub proof fn lemma_stmt_seq_size_elem(ss: Seq<StmtV>, i: int)
    requires
        0 <= i < ss.len(),
    ensures
        stmt_size(ss[i]) < stmt_seq_size(ss),
    decreases ss,
{
    if i > 0 {
        lemma_stmt_seq_size_elem(ss.drop_first(), i - 1);
        assert(ss.drop_first()[i - 1] == ss[i]);
    }
}

pub proof fn lemma_prop_seq_size_elem(ps: Seq<PropertyV>, i: int)
    requires
        0 <= i < ps.len(),
    ensures
        crate::ast::opt_box_expr_size(ps[i].value) < prop_seq_size(ps),
    decreases ps,
{
    if i > 0 {
        lemma_prop_seq_size_elem(ps.drop_first(), i - 1);
        assert(ps.drop_first()[i - 1] == ps[i]);
    }
}

/// Applies a binary operator to two evaluated operands; see `apply_binop`.
fn apply_binop_exec(op: &str, lhs: RuntimeValue, rhs: RuntimeValue) -> (r: RuntimeValue)
    ensures
        r@ == apply_binop(op@, lhs@, rhs@),
{
    match (&lhs, &rhs) {
        (RuntimeValue::Number { value: a }, RuntimeValue::Number { value: b }) => {
            let a = *a;
            let b = *b;
            if str_eq(op, "+") {
                match a.checked_add(b) {
                    Option::Some(n) => RuntimeValue::Number { value: n },
                    Option::None => RuntimeValue::Null,
                }
            } else if str_eq(op, "-") {
                match a.checked_sub(b) {
                    Option::Some(n) => RuntimeValue::Number { value: n },
                    Option::None => RuntimeValue::Null,
                }
            } else if str_eq(op, "*") {
                match a.checked_mul(b) {
                    Option::Some(n) => RuntimeValue::Number { value: n },
                    Option::None => RuntimeValue::Null,
                }
            } else if str_eq(op, "/") {
                match a.checked_div(b) {
                    Option::Some(n) => RuntimeValue::Number { value: n },
                    Option::None => RuntimeValue::Null,
                }
            } else if str_eq(op, "%") {
                match a.checked_rem(b) {
                    Option::Some(n) => RuntimeValue::Number { value: n },
                    Option::None => RuntimeValue::Null,
                }
            } else if str_eq(op, "==") {
                RuntimeValue::Bool { value: equals(lhs, rhs, true) }
            } else if str_eq(op, "!=") {
                RuntimeValue::Bool { value: equals(lhs, rhs, false) }
            } else if str_eq(op, "<") {
                RuntimeValue::Bool { value: a < b }
            } else if str_eq(op, ">") {
                RuntimeValue::Bool { value: a > b }
            } else {
                RuntimeValue::Null
            }
        },
        (RuntimeValue::Str { value: a }, RuntimeValue::Str { value: b }) => {
            if str_eq(op, "+") {
                let joined = a.clone().concat(b.as_str());
                RuntimeValue::Str { value: joined }
            } else if str_eq(op, "==") {
                RuntimeValue::Bool { value: equals(lhs, rhs, true) }
            } else if str_eq(op, "!=") {
                RuntimeValue::Bool { value: equals(lhs, rhs, false) }
            } else {
                RuntimeValue::Null
            }
        },
        (RuntimeValue::Bool { value: a }, RuntimeValue::Bool { value: b }) => {
            if str_eq(op, "==") {
                RuntimeValue::Bool { value: equals(lhs, rhs, true) }
            } else if str_eq(op, "!=") {
                RuntimeValue::Bool { value: equals(lhs, rhs, false) }
            } else {
                RuntimeValue::Null
            }
        },
        _ => RuntimeValue::Null,
    }
}

/// Reads one member off an evaluated base value; see `read_member`.
fn member_read(base: &RuntimeValue, key: &RuntimeValue) -> (r: Result<RuntimeValue, Error>)
    ensures
        match read_member(base@, key@) {
            Result::Ok(v) => r is Ok && value_v(r->Ok_0) == v,
            Result::Err(k) => r is Err && r->Err_0.kind == k,
        },
{
    match base {
        RuntimeValue::Object(o) => match key {
            RuntimeValue::Str { value: k } => match alist_get(&o.properties, k.as_str()) {
                Option::Some(v) => Result::Ok(v.clone()),
                Option::None => Result::Ok(RuntimeValue::Null),
            },
            _ => Result::Err(Error::new(ErrorKind::TypeMismatch, "property key must be a string")),
        },
        RuntimeValue::Array { elements } => match key {
            RuntimeValue::Number { value: n } => {
                let n = *n;
                proof {
                    lemma_value_seq_v(elements@);
                }
                if n >= 0 && (n as u64) < (elements.len() as u64) {
                    Result::Ok(elements[n as usize].clone())
                } else {
                    Result::Ok(RuntimeValue::Null)
                }
            },
            _ => Result::Err(Error::new(ErrorKind::TypeMismatch, "array index must be a number")),
        },
        _ => Result::Err(Error::new(ErrorKind::TypeMismatch, "not an object or array")),
    }
}

/// Writes `v` through the key path into `base`, from key `i` on; see
/// `update_path`.
fn apply_update_path(
    base: RuntimeValue,
    path: &Vec<RuntimeValue>,
    i: usize,
    v: RuntimeValue,
) -> (r: Result<RuntimeValue, Error>)
    requires
        i <= path@.len(),
    ensures
        match update_path(base@, value_seq_v(path@).skip(i as int), value_v(v)) {
            Result::Ok(nv) => r is Ok && value_v(r->Ok_0) == nv,
            Result::Err(k) => r is Err && r->Err_0.kind == k,
        },
    decreases path@.len() - i,
{
    proof {
        lemma_value_seq_v(path@);
    }
    let ghost pv = value_seq_v(path@).skip(i as int);
    if i == path.len() {
        proof {
            assert(pv.len() == 0);
        }
        return Result::Ok(v);
    }
    proof {
        assert(pv[0] == value_seq_v(path@)[i as int]);
        assert(pv.drop_first() =~= value_seq_v(path@).skip(i as int + 1));
    }
    match base {
        RuntimeValue::Object(o) => match &path[i] {
            RuntimeValue::Str { value: k } => {
                let mut props = o.properties;
                if i + 1 == path.len() {
                    alist_set(&mut props, k.clone(), v);
                    Result::Ok(RuntimeValue::Object(Object { properties: props }))
                } else {
                    match alist_get(&props, k.as_str()) {
                        Option::Some(cur) => {
                            let cur = cur.clone();
                            match apply_update_path(cur, path, i + 1, v) {
                                Result::Ok(nv) => {
                                    alist_set(&mut props, k.clone(), nv);
                                    Result::Ok(RuntimeValue::Object(Object { properties: props }))
                                },
                                Result::Err(e) => Result::Err(e),
                            }
                        },
                        Option::None => Result::Err(
                            Error::new(ErrorKind::TypeMismatch, "missing property in path"),
                        ),
                    }
                }
            },
            _ => Result::Err(Error::new(ErrorKind::TypeMismatch, "property key must be a string")),
        },
        RuntimeValue::Array { elements } => match &path[i] {
            RuntimeValue::Number { value: n } => {
                let n = *n;
                proof {
                    lemma_value_seq_v(elements@);
                }
                if n >= 0 && (n as u64) < (elements.len() as u64) {
                    let mut es = elements;
                    let idx = n as usize;
                    let ghost pre = value_seq_v(es@);
                    if i + 1 == path.len() {
                        es.set(idx, v);
                        proof {
                            lemma_value_seq_v(es@);
                            assert(value_seq_v(es@) =~= pre.update(n as int, value_v(v)));
                        }
                        Result::Ok(RuntimeValue::Array { elements: es })
                    } else {
                        let cur = es[idx].clone();
                        match apply_update_path(cur, path, i + 1, v) {
                            Result::Ok(nv) => {
                                proof {
                                    lemma_value_seq_v(es@);
                                }
                                let ghost nvv = value_v(nv);
                                es.set(idx, nv);
                                proof {
                                    lemma_value_seq_v(es@);
                                    assert(value_seq_v(es@) =~= pre.update(n as int, nvv));
                                }
                                Result::Ok(RuntimeValue::Array { elements: es })
                            },
                            Result::Err(e) => Result::Err(e),
                        }
                    }
                } else {
                    Result::Err(Error::new(ErrorKind::TypeMismatch, "array index out of range"))
                }
            },
            _ => Result::Err(Error::new(ErrorKind::TypeMismatch, "array index must be a number")),
        },
        _ => Result::Err(Error::new(ErrorKind::TypeMismatch, "not an object or array")),
    }
}

/// Evaluates an expression against the environment, appending any printed
/// lines to `out`; returns exactly what `eval_expr_s` gives.
pub fn evaluate_expr(
    node: &Expr,
    env: &mut Environment,
    out: &mut Vec<String>,
    clock: i64,
    fuel: u64,
) -> (r: Result<RuntimeValue, Error>)
    ensures
        expr_outcome(
            eval_expr_s(
                node@,
                StateV { env: old(env)@, out: old(out).deep_view() },
                clock,
                fuel as nat,
            ),
            r,
            final(env)@,
            final(out).deep_view(),
        ),
    decreases fuel, expr_size(node@), 2nat,
{
    let ghost st0 = StateV { env: env@, out: out.deep_view() };
    match node {
        Expr::IntLit { value } => Result::Ok(RuntimeValue::Number { value: *value }),
        Expr::StringLit { value } => Result::Ok(RuntimeValue::Str { value: value.clone() }),
        Expr::Ident { symbol } => evaluate_ident(symbol.clone(), env),
        Expr::BinExp { left, op, right } => evaluate_binary_expr(left, op, right, env, out, clock, fuel),
        Expr::Assign { assignee, value } => evaluate_assignment(assignee, value, env, out, clock, fuel),
        Expr::ObjectLit { properties } => evaluate_object_expr(properties, env, out, clock, fuel),
        Expr::Member { .. } => evaluate_member_expr(node, env, out, clock, fuel),
        Expr::Call { callee, args } => evaluate_call_expr(callee, args, env, out, clock, fuel),
        Expr::Array { elements } => {
            proof {
                assert(elements@ =~= elements@.skip(0));
                lemma_expr_seq_v(elements@);
            }
            match evaluate_args(elements, env, out, clock, fuel) {
                Result::Ok(vals) => Result::Ok(RuntimeValue::Array { elements: vals }),
                Result::Err(e) => Result::Err(e),
            }
        },
    }
}

/// Resolves a variable reference.
pub fn evaluate_ident(symbol: String, env: &Environment) -> (r: Result<RuntimeValue, Error>)
    ensures
        match env_lookup(env@, symbol@) {
            Option::Some(v) => r is Ok && value_v(r->Ok_0) == v,
            Option::None => r is Err && r->Err_0.kind == ErrorKind::NameResolution,
        },
{
    env.lookup_var(symbol)
}

/// Evaluates both operands left to right, then applies the operator table.
pub fn evaluate_binary_expr(
    left: &Expr,
    op: &String,
    right: &Expr,
    env: &mut Environment,
    out: &mut Vec<String>,
    clock: i64,
    fuel: u64,
) -> (r: Result<RuntimeValue, Error>)
    ensures
        expr_outcome(
            eval_expr_s(
                ExprV::BinExp { left: Box::new(left@), op: op@, right: Box::new(right@) },
                StateV { env: old(env)@, out: old(out).deep_view() },
                clock,
                fuel as nat,
            ),
            r,
            final(env)@,
            final(out).deep_view(),
        ),
    decreases fuel, expr_size(left@) + expr_size(right@), 3nat,
{
    let lhs = match evaluate_expr(left, env, out, clock, fuel) {
        Result::Ok(v) => v,
        Result::Err(e) => {
            return Result::Err(e);
        },
    };
    let rhs = match evaluate_expr(right, env, out, clock, fuel) {
        Result::Ok(v) => v,
        Result::Err(e) => {
            return Result::Err(e);
        },
    };
    Result::Ok(apply_binop_exec(op.as_str(), lhs, rhs))
}

/// Evaluates argument expressions left to right into values.
#[verifier::loop_isolation(false)]
fn evaluate_args(
    args: &Vec<Expr>,
    env: &mut Environment,
    out: &mut Vec<String>,
    clock: i64,
    fuel: u64,
) -> (r: Result<Vec<RuntimeValue>, Error>)
    ensures
        match eval_args_s(
            expr_seq_v(args@),
            0,
            Seq::empty(),
            StateV { env: old(env)@, out: old(out).deep_view() },
            clock,
            fuel as nat,
        ) {
            Result::Ok((vals, st)) => r is Ok && value_seq_v(r->Ok_0@) == vals && final(env)@
                == st.env && final(out).deep_view() == st.out,
            Result::Err(k) => r is Err && r->Err_0.kind == k,
        },
    decreases fuel, expr_seq_size(expr_seq_v(args@)), 1nat,
{
    let ghost argsv = expr_seq_v(args@);
    let ghost st0 = StateV { env: env@, out: out.deep_view() };
    proof {
        lemma_expr_seq_v(args@);
    }
    let mut vals: Vec<RuntimeValue> = Vec::new();
    let mut i: usize = 0;
    proof {
        assert(value_seq_v(vals@) =~= Seq::<ValueV>::empty());
    }
    while i < args.len()
        invariant
            argsv == expr_seq_v(args@),
            argsv.len() == args@.len(),
            forall|j: int| 0 <= j < args@.len() ==> #[trigger] argsv[j] == crate::ast::expr_v(args@[j]),
            i <= args@.len(),
            eval_args_s(argsv, 0, Seq::empty(), st0, clock, fuel as nat) == eval_args_s(
                argsv,
                i as int,
                value_seq_v(vals@),
                StateV { env: env@, out: out.deep_view() },
                clock,
                fuel as nat,
            ),
        decreases args@.len() - i,
    {
        proof {
            lemma_expr_seq_size_elem(argsv, i as int);
        }
        let ghost pre_vals = value_seq_v(vals@);
        let v = match evaluate_expr(&args[i], env, out, clock, fuel) {
            Result::Ok(v) => v,
            Result::Err(e) => {
                return Result::Err(e);
            },
        };
        proof {
            lemma_value_seq_v(vals@);
            lemma_value_seq_v(vals@.push(v));
            assert(value_seq_v(vals@.push(v)) =~= pre_vals.push(value_v(v)));
        }
        vals.push(v);
        i += 1;
    }
    Result::Ok(vals)
}

/// Evaluates an object literal: explicit values are evaluated, shorthand
/// keys resolved as variables; later entries of a repeated key overwrite.
#[verifier::loop_isolation(false)]
pub fn evaluate_object_expr(
    properties: &Vec<Property>,
    env: &mut Environment,
    out: &mut Vec<String>,
    clock: i64,
    fuel: u64,
) -> (r: Result<RuntimeValue, Error>)
    ensures
        expr_outcome(
            eval_expr_s(
                ExprV::ObjectLit { properties: prop_seq_v(properties@) },
                StateV { env: old(env)@, out: old(out).deep_view() },
                clock,
                fuel as nat,
            ),
            r,
            final(env)@,
            final(out).deep_view(),
        ),
    decreases fuel, prop_seq_size(prop_seq_v(properties@)) + 1, 1nat,
{
    let ghost propsv = prop_seq_v(properties@);
    let ghost st0 = StateV { env: env@, out: out.deep_view() };
    proof {
        lemma_prop_seq_v(properties@);
        assert(propsv =~= propsv.skip(0));
    }
    let mut plist: Vec<(String, RuntimeValue)> = Vec::new();
    let mut i: usize = 0;
    proof {
        assert(props_v(plist@) =~= Map::<Seq<char>, ValueV>::empty());
    }
    while i < properties.len()
        invariant
            propsv == prop_seq_v(properties@),
            propsv.len() == properties@.len(),
            forall|j: int|
                0 <= j < properties@.len() ==> #[trigger] propsv[j] == crate::ast::prop_v(
                    properties@[j],
                ),
            i <= properties@.len(),
            eval_props_s(propsv, 0, Map::empty(), st0, clock, fuel as nat) == eval_props_s(
                propsv,
                i as int,
                props_v(plist@),
                StateV { env: env@, out: out.deep_view() },
                clock,
                fuel as nat,
            ),
        decreases properties@.len() - i,
    {
        proof {
            lemma_prop_seq_size_elem(propsv, i as int);
        }
        let key = properties[i].key.clone();
        let v = match &properties[i].value {
            Option::Some(e) => {
                match evaluate_expr(&**e, env, out, clock, fuel) {
                    Result::Ok(v) => v,
                    Result::Err(e) => {
                        return Result::Err(e);
                    },
                }
            },
            Option::None => {
                match env.lookup_var(key.clone()) {
                    Result::Ok(v) => v,
                    Result::Err(e) => {
                        return Result::Err(e);
                    },
                }
            },
        };
        alist_set(&mut plist, key, v);
        i += 1;
    }
    Result::Ok(RuntimeValue::Object(Object { properties: plist }))
}

/// Evaluates a member read, or the identifier at the root of a chain.
pub fn evaluate_member_expr(
    node: &Expr,
    env: &mut Environment,
    out: &mut Vec<String>,
    clock: i64,
    fuel: u64,
) -> (r: Result<RuntimeValue, Error>)
    ensures
        expr_outcome(
            eval_member_s(
                node@,
                StateV { env: old(env)@, out: old(out).deep_view() },
                clock,
                fuel as nat,
            ),
            r,
            final(env)@,
            final(out).deep_view(),
        ),
    decreases fuel, expr_size(node@), 1nat,
{
    match node {
        Expr::Ident { symbol } => evaluate_ident(symbol.clone(), env),
        Expr::Member { object, property, computed } => {
            let base = match evaluate_expr(&**object, env, out, clock, fuel) {
                Result::Ok(v) => v,
                Result::Err(e) => {
                    return Result::Err(e);
                },
            };
            if *computed {
                let kv = match evaluate_expr(&**property, env, out, clock, fuel) {
                    Result::Ok(v) => v,
                    Result::Err(e) => {
                        return Result::Err(e);
                    },
                };
                member_read(&base, &kv)
            } else {
                match &**property {
                    Expr::Ident { symbol } => {
                        let key = RuntimeValue::Str { value: symbol.clone() };
                        member_read(&base, &key)
                    },
                    _ => Result::Err(
                        Error::new(ErrorKind::TypeMismatch, "expected an identifier after '.'"),
                    ),
                }
            }
        },
        _ => Result::Err(Error::new(ErrorKind::TypeMismatch, "not a member expression")),
    }
}

/// The root variable and evaluated key path of a member assignment target.
fn collect_path(
    m: &Expr,
    env: &mut Environment,
    out: &mut Vec<String>,
    clock: i64,
    fuel: u64,
) -> (r: Result<(String, Vec<RuntimeValue>), Error>)
    ensures
        match collect_path_s(
            m@,
            StateV { env: old(env)@, out: old(out).deep_view() },
            clock,
            fuel as nat,
        ) {
            Result::Ok(((root, path), st)) => r is Ok && r->Ok_0.0@ == root && value_seq_v(
                r->Ok_0.1@,
            ) == path && final(env)@ == st.env && final(out).deep_view() == st.out,
            Result::Err(k) => r is Err && r->Err_0.kind == k,
        },
    decreases fuel, expr_size(m@), 1nat,
{
    match m {
        Expr::Ident { symbol } => {
            let path: Vec<RuntimeValue> = Vec::new();
            proof {
                assert(value_seq_v(path@) =~= Seq::<ValueV>::empty());
            }
            Result::Ok((symbol.clone(), path))
        },
        Expr::Member { object, property, computed } => {
            let (root, mut path) = match collect_path(&**object, env, out, clock, fuel) {
                Result::Ok(p) => p,
                Result::Err(e) => {
                    return Result::Err(e);
                },
            };
            let ghost prev = value_seq_v(path@);
            if *computed {
                let kv = match evaluate_expr(&**property, env, out, clock, fuel) {
                    Result::Ok(v) => v,
                    Result::Err(e) => {
                        return Result::Err(e);
                    },
                };
                proof {
                    lemma_value_seq_v(path@);
                    lemma_value_seq_v(path@.push(kv));
                    assert(value_seq_v(path@.push(kv)) =~= prev.push(value_v(kv)));
                }
                path.push(kv);
                Result::Ok((root, path))
            } else {
                match &**property {
                    Expr::Ident { symbol } => {
                        let kv = RuntimeValue::Str { value: symbol.clone() };
                        proof {
                            lemma_value_seq_v(path@);
                            lemma_value_seq_v(path@.push(kv));
                            assert(value_seq_v(path@.push(kv)) =~= prev.push(value_v(kv)));
                        }
                        path.push(kv);
                        Result::Ok((root, path))
                    },
                    _ => Result::Err(
                        Error::new(ErrorKind::TypeMismatch, "expected an identifier after '.'"),
                    ),
                }
            }
        },
        _ => Result::Err(Error::new(ErrorKind::TypeMismatch, "invalid assignment target")),
    }
}

/// Evaluates an assignment: an identifier target rebinds the name, a member
/// target replaces the addressed slot inside the root variable's value.
pub fn evaluate_assignment(
    assignee: &Expr,
    value: &Expr,
    env: &mut Environment,
    out: &mut Vec<String>,
    clock: i64,
    fuel: u64,
) -> (r: Result<RuntimeValue, Error>)
    ensures
        expr_outcome(
            eval_assign_s(
                assignee@,
                value@,
                StateV { env: old(env)@, out: old(out).deep_view() },
                clock,
                fuel as nat,
            ),
            r,
            final(env)@,
            final(out).deep_view(),
        ),
    decreases fuel, expr_size(assignee@) + expr_size(value@), 3nat,
{
    match assignee {
        Expr::Ident { symbol } => {
            let v = match evaluate_expr(value, env, out, clock, fuel) {
                Result::Ok(v) => v,
                Result::Err(e) => {
                    return Result::Err(e);
                },
            };
            match env.assign_var(symbol.clone(), &v) {
                Result::Ok(_) => Result::Ok(v),
                Result::Err(e) => Result::Err(e),
            }
        },
        Expr::Member { .. } => {
            let v = match evaluate_expr(value, env, out, clock, fuel) {
                Result::Ok(v) => v,
                Result::Err(e) => {
                    return Result::Err(e);
                },
            };
            let (root, path) = match collect_path(assignee, env, out, clock, fuel) {
                Result::Ok(p) => p,
                Result::Err(e) => {
                    return Result::Err(e);
                },
            };
            let base = match env.lookup_var(root.clone()) {
                Result::Ok(b) => b,
                Result::Err(e) => {
                    return Result::Err(e);
                },
            };
            let ret = v.clone();
            proof {
                assert(value_seq_v(path@).skip(0) =~= value_seq_v(path@));
            }
            let nb = match apply_update_path(base, &path, 0, v) {
                Result::Ok(nb) => nb,
                Result::Err(e) => {
                    return Result::Err(e);
                },
            };
            match env.assign_var(root, &nb) {
                Result::Ok(_) => Result::Ok(ret),
                Result::Err(e) => Result::Err(e),
            }
        },
        _ => Result::Err(Error::new(ErrorKind::TypeMismatch, "invalid assignment target")),
    }
}

/// Runs a native builtin on evaluated arguments; see `native_s`. The ghost
/// environment is whatever scope chain the caller threads: natives never
/// touch it.
#[verifier::loop_isolation(false)]
fn call_native(
    which: NativeFn,
    args: Vec<RuntimeValue>,
    out: &mut Vec<String>,
    clock: i64,
    Ghost(genv): Ghost<EnvV>,
) -> (r: Result<RuntimeValue, Error>)
    ensures
        expr_outcome(
            native_s(
                which,
                value_seq_v(args@),
                StateV { env: genv, out: old(out).deep_view() },
                clock,
            ),
            r,
            genv,
            final(out).deep_view(),
        ),
{
    let ghost argsv = value_seq_v(args@);
    proof {
        lemma_value_seq_v(args@);
    }
    match which {
        NativeFn::Print => {
            let mut line = String::new();
            let mut i: usize = 0;
            while i < args.len()
                invariant
                    argsv == value_seq_v(args@),
                    argsv.len() == args@.len(),
                    forall|j: int| 0 <= j < args@.len() ==> #[trigger] argsv[j] == value_v(args@[j]),
                    i <= args@.len(),
                    line@ + render_args(argsv, i as int) == render_args(argsv, 0),
                decreases args@.len() - i,
            {
                let piece = render(&args[i]);
                line.append(piece.as_str());
                proof {
                    assert(line@ + render_args(argsv, i + 1 as int) =~= render_args(argsv, 0));
                }
                i += 1;
            }
            proof {
                assert(render_args(argsv, args@.len() as int) =~= Seq::<char>::empty());
                assert(line@ =~= render_args(argsv, 0));
            }
            let ghost pre = out.deep_view();
            out.push(line);
            proof {
                assert(out.deep_view() =~= pre.push(render_args(argsv, 0)));
            }
            Result::Ok(RuntimeValue::Null)
        },
        NativeFn::DateNow => Result::Ok(RuntimeValue::Number { value: clock }),
        NativeFn::ArrayNew => {
            let count: i64 = if args.len() >= 1 {
                match &args[0] {
                    RuntimeValue::Number { value: n } => if *n > 0 {
                        *n
                    } else {
                        0
                    },
                    _ => 0,
                }
            } else {
                0
            };
            proof {
                assert(count as nat == array_new_count(argsv));
            }
            let mut elements: Vec<RuntimeValue> = Vec::new();
            let mut k: i64 = 0;
            while k < count
                invariant
                    0 <= k <= count,
                    count >= 0,
                    elements@.len() == k,
                    forall|j: int| 0 <= j < k ==> elements@[j] is Null,
                decreases count - k,
            {
                elements.push(RuntimeValue::Null);
                k += 1;
            }
            proof {
                lemma_value_seq_v(elements@);
                assert(value_seq_v(elements@) =~= Seq::new(
                    array_new_count(argsv),
                    |i: int| ValueV::Null,
                ));
            }
            Result::Ok(RuntimeValue::Array { elements })
        },
        NativeFn::ArrayFrom => Result::Ok(RuntimeValue::Array { elements: args }),
        NativeFn::ArrayHas => {
            if args.len() < 2 {
                return Result::Err(
                    Error::new(ErrorKind::TypeMismatch, "has needs an array and a value"),
                );
            }
            match &args[0] {
                RuntimeValue::Array { elements } => {
                    proof {
                        lemma_value_seq_v(elements@);
                    }
                    let ghost esv = value_seq_v(elements@);
                    let ghost tv = value_v(args@[1]);
                    let mut j: usize = 0;
                    while j < elements.len()
                        invariant
                            j <= elements@.len(),
                            seq_has(esv, tv, 0) == seq_has(esv, tv, j as int),
                        decreases elements@.len() - j,
                    {
                        if value_eq(&elements[j], &args[1]) {
                            return Result::Ok(RuntimeValue::Bool { value: true });
                        }
                        j += 1;
                    }
                    proof {
                        assert(!seq_has(esv, tv, j as int));
                    }
                    Result::Ok(RuntimeValue::Bool { value: false })
                },
                _ => Result::Err(
                    Error::new(ErrorKind::TypeMismatch, "first argument must be an array"),
                ),
            }
        },
        NativeFn::ArrayConcat => {
            if args.len() < 2 {
                return Result::Err(
                    Error::new(ErrorKind::TypeMismatch, "concat needs an array and a value"),
                );
            }
            let mut args = args;
            let second = args.remove(1);
            let first = args.remove(0);
            match first {
                RuntimeValue::Array { elements } => {
                    let mut es = elements;
                    proof {
                        lemma_value_seq_v(es@);
                        lemma_value_seq_v(es@.push(second));
                        assert(value_seq_v(es@.push(second)) =~= value_seq_v(es@).push(
                            value_v(second),
                        ));
                    }
                    es.push(second);
                    Result::Ok(RuntimeValue::Array { elements: es })
                },
                _ => Result::Err(
                    Error::new(ErrorKind::TypeMismatch, "first argument must be an array"),
                ),
            }
        },
    }
}

/// Evaluates a call: arguments first, left to right, then the callee; a
/// native builtin runs directly, a user function runs its body in a fresh
/// child scope of its captured environment.
#[verifier::loop_isolation(false)]
pub fn evaluate_call_expr(
    callee: &Expr,
    args: &Vec<Expr>,
    env: &mut Environment,
    out: &mut Vec<String>,
    clock: i64,
    fuel: u64,
) -> (r: Result<RuntimeValue, Error>)
    ensures
        expr_outcome(
            eval_expr_s(
                ExprV::Call { callee: Box::new(callee@), args: expr_seq_v(args@) },
                StateV { env: old(env)@, out: old(out).deep_view() },
                clock,
                fuel as nat,
            ),
            r,
            final(env)@,
            final(out).deep_view(),
        ),
    decreases fuel, expr_size(callee@) + expr_seq_size(expr_seq_v(args@)), 3nat,
{
    let ghost st0 = StateV { env: env@, out: out.deep_view() };
    proof {
        assert(expr_seq_v(args@) =~= expr_seq_v(args@).skip(0));
    }
    let vals = match evaluate_args(args, env, out, clock, fuel) {
        Result::Ok(v) => v,
        Result::Err(e) => {
            return Result::Err(e);
        },
    };
    let f = match evaluate_expr(callee, env, out, clock, fuel) {
        Result::Ok(f) => f,
        Result::Err(e) => {
            return Result::Err(e);
        },
    };
    proof {
        assert(eval_expr_s(
            ExprV::Call { callee: Box::new(callee@), args: expr_seq_v(args@) },
            st0,
            clock,
            fuel as nat,
        ) == call_s(
            f@,
            value_seq_v(vals@),
            StateV { env: env@, out: out.deep_view() },
            clock,
            fuel as nat,
        ));
    }
    match f {
        RuntimeValue::NativeFunction { body } => call_native(body, vals, out, clock, Ghost(env@)),
        RuntimeValue::Function { name, params, decl_env, body } => {
            let ghost paramsv = params.deep_view();
            let ghost valsv = value_seq_v(vals@);
            let ghost denv = crate::environment::env_v(decl_env);
            proof {
                lemma_value_seq_v(vals@);
                assert(paramsv.len() == params@.len());
            }
            if params.len() != vals.len() {
                return Result::Err(
                    Error::new(ErrorKind::Arity, "wrong number of arguments passed to function"),
                );
            }
            if fuel == 0 {
                return Result::Err(Error::new(ErrorKind::DepthLimit, "call depth exhausted"));
            }
            let mut scope = Environment::new(Option::Some(decl_env));
            let mut i: usize = 0;
            proof {
                assert(paramsv.skip(0) =~= paramsv);
                assert(valsv.skip(0) =~= valsv);
            }
            while i < params.len()
                invariant
                    paramsv == params.deep_view(),
                    valsv == value_seq_v(vals@),
                    paramsv.len() == params@.len(),
                    valsv.len() == vals@.len(),
                    params@.len() == vals@.len(),
                    forall|j: int| 0 <= j < params@.len() ==> #[trigger] paramsv[j] == params@[j]@,
                    forall|j: int| 0 <= j < vals@.len() ==> #[trigger] valsv[j] == value_v(vals@[j]),
                    i <= params@.len(),
                    scope@.consts == Set::<Seq<char>>::empty(),
                    scope@.parent == Option::Some(Box::new(denv)),
                    bind_params(paramsv, valsv, Map::empty()) == bind_params(
                        paramsv.skip(i as int),
                        valsv.skip(i as int),
                        scope@.vars,
                    ),
                decreases params@.len() - i,
            {
                proof {
                    assert(paramsv.skip(i as int)[0] == paramsv[i as int]);
                    assert(paramsv.skip(i as int).drop_first() =~= paramsv.skip(i as int + 1));
                    assert(valsv.skip(i as int)[0] == valsv[i as int]);
                    assert(valsv.skip(i as int).drop_first() =~= valsv.skip(i as int + 1));
                }
                match scope.declare_var(params[i].clone(), vals[i].clone(), true) {
                    Result::Ok(_) => {},
                    Result::Err(e) => {
                        return Result::Err(e);
                    },
                }
                i += 1;
            }
            proof {
                assert(paramsv.skip(params@.len() as int).len() == 0);
                assert(bind_params(paramsv, valsv, Map::empty()) == Result::<
                    Map<Seq<char>, ValueV>,
                    ErrorKind,
                >::Ok(scope@.vars));
                assert(scope@ == EnvV {
                    vars: scope@.vars,
                    consts: Set::empty(),
                    parent: Option::Some(Box::new(denv)),
                });
            }
            let flow = match evaluate_branch(&body, &mut scope, out, clock, fuel - 1) {
                Result::Ok(f) => f,
                Result::Err(e) => {
                    return Result::Err(e);
                },
            };
            match flow {
                Flow::Return(v) => Result::Ok(v),
                Flow::Normal(_) => Result::Ok(RuntimeValue::Null),
            }
        },
        _ => Result::Err(Error::new(ErrorKind::NotCallable, "you can only call functions")),
    }
}

/// Runs a statement sequence in one scope; a `ret` stops it at once.
#[verifier::loop_isolation(false)]
pub fn evaluate_branch(
    branch: &Vec<Stmt>,
    env: &mut Environment,
    out: &mut Vec<String>,
    clock: i64,
    fuel: u64,
) -> (r: Result<Flow, Error>)
    ensures
        flow_outcome(
            eval_seq_s(
                stmt_seq_v(branch@),
                0,
                ValueV::Null,
                StateV { env: old(env)@, out: old(out).deep_view() },
                clock,
                fuel as nat,
            ),
            r,
            final(env)@,
            final(out).deep_view(),
        ),
    decreases fuel, stmt_seq_size(stmt_seq_v(branch@)), 1nat,
{
    let ghost ssv = stmt_seq_v(branch@);
    let ghost st0 = StateV { env: env@, out: out.deep_view() };
    proof {
        lemma_stmt_seq_v(branch@);
        assert(ssv =~= ssv.skip(0));
    }
    let mut last = RuntimeValue::Null;
    let mut i: usize = 0;
    while i < branch.len()
        invariant
            ssv == stmt_seq_v(branch@),
            ssv.len() == branch@.len(),
            forall|j: int| 0 <= j < branch@.len() ==> #[trigger] ssv[j] == crate::ast::stmt_v(branch@[j]),
            i <= branch@.len(),
            eval_seq_s(ssv, 0, ValueV::Null, st0, clock, fuel as nat) == eval_seq_s(
                ssv,
                i as int,
                value_v(last),
                StateV { env: env@, out: out.deep_view() },
                clock,
                fuel as nat,
            ),
        decreases branch@.len() - i,
    {
        proof {
            lemma_stmt_seq_size_elem(ssv, i as int);
        }
        let flow = match evaluate_statement(&branch[i], env, out, clock, fuel) {
            Result::Ok(f) => f,
            Result::Err(e) => {
                return Result::Err(e);
            },
        };
        match flow {
            Flow::Return(v) => {
                return Result::Ok(Flow::Return(v));
            },
            Flow::Normal(v) => {
                last = v;
            },
        }
        i += 1;
    }
    Result::Ok(Flow::Normal(last))
}

/// Evaluates one statement to a control-flow outcome.
pub fn evaluate_statement(
    node: &Stmt,
    env: &mut Environment,
    out: &mut Vec<String>,
    clock: i64,
    fuel: u64,
) -> (r: Result<Flow, Error>)
    ensures
        flow_outcome(
            eval_stmt_s(
                node@,
                StateV { env: old(env)@, out: old(out).deep_view() },
                clock,
                fuel as nat,
            ),
            r,
            final(env)@,
            final(out).deep_view(),
        ),
    decreases fuel, stmt_size(node@), 2nat,
{
    match node {
        Stmt::Expr(e) => match evaluate_expr(e, env, out, clock, fuel) {
            Result::Ok(v) => Result::Ok(Flow::Normal(v)),
            Result::Err(e) => Result::Err(e),
        },
        Stmt::VarDecl { mutable, name, value } => {
            match evaluate_var_decl(*mutable, name.clone(), value, env, out, clock, fuel) {
                Result::Ok(v) => Result::Ok(Flow::Normal(v)),
                Result::Err(e) => Result::Err(e),
            }
        },
        Stmt::FuncDecl { params, name, body } => {
            match evaluate_func_decl(params, name.clone(), body, env) {
                Result::Ok(v) => Result::Ok(Flow::Normal(v)),
                Result::Err(e) => Result::Err(e),
            }
        },
        Stmt::Return { value } => {
            let v = match value {
                Option::None => RuntimeValue::Null,
                Option::Some(e) => {
                    match evaluate_expr(e, env, out, clock, fuel) {
                        Result::Ok(v) => v,
                        Result::Err(e) => {
                            return Result::Err(e);
                        },
                    }
                },
            };
            Result::Ok(Flow::Return(v))
        },
        Stmt::If { condition, then_branch, else_branch } => evaluate_if_stmt(
            condition,
            then_branch,
            else_branch,
            env,
            out,
            clock,
            fuel,
        ),
        Stmt::For { ident, iterable, body } => evaluate_for_stmt(
            ident.clone(),
            iterable,
            body,
            env,
            out,
            clock,
            fuel,
        ),
    }
}

/// Evaluates the initializer (or null) and declares the name; see the
/// variable-declaration case of `eval_stmt_s`.
pub fn evaluate_var_decl(
    mutable: bool,
    name: String,
    value: &Option<Expr>,
    env: &mut Environment,
    out: &mut Vec<String>,
    clock: i64,
    fuel: u64,
) -> (r: Result<RuntimeValue, Error>)
    ensures
        stmt_value_outcome(
            eval_stmt_s(
                StmtV::VarDecl { mutable, name: name@, value: opt_expr_v(*value) },
                StateV { env: old(env)@, out: old(out).deep_view() },
                clock,
                fuel as nat,
            ),
            r,
            final(env)@,
            final(out).deep_view(),
        ),
    decreases fuel, opt_expr_size(opt_expr_v(*value)) + 1, 1nat,
{
    let v = match value {
        Option::None => RuntimeValue::Null,
        Option::Some(e) => {
            match evaluate_expr(e, env, out, clock, fuel) {
                Result::Ok(v) => v,
                Result::Err(e) => {
                    return Result::Err(e);
                },
            }
        },
    };
    env.declare_var(name, v, mutable)
}

/// Builds the function value — capturing a snapshot copy of the current
/// scope chain — and declares it immutably; see the function-declaration
/// case of `eval_stmt_s`.
pub fn evaluate_func_decl(
    params: &Vec<String>,
    name: String,
    body: &Vec<Stmt>,
    env: &mut Environment,
) -> (r: Result<RuntimeValue, Error>)
    ensures
        match env_declare(
            old(env)@,
            name@,
            ValueV::Function {
                name: name@,
                params: params.deep_view(),
                decl_env: old(env)@,
                body: stmt_seq_v(body@),
            },
            false,
        ) {
            Result::Ok(e2) => r is Ok && value_v(r->Ok_0) == (ValueV::Function {
                name: name@,
                params: params.deep_view(),
                decl_env: old(env)@,
                body: stmt_seq_v(body@),
            }) && final(env)@ == e2,
            Result::Err(k) => r is Err && r->Err_0.kind == k && final(env)@ == old(env)@,
        },
{
    let f = RuntimeValue::Function {
        name: name.clone(),
        params: crate::ast::clone_string_vec(params),
        decl_env: env.clone(),
        body: crate::ast::clone_stmt_vec(body),
    };
    proof {
        assert(f@ == ValueV::Function {
            name: name@,
            params: params.deep_view(),
            decl_env: env@,
            body: stmt_seq_v(body@),
        });
    }
    env.declare_var(name, f, false)
}

/// Evaluates the condition and runs the chosen branch in the same scope;
/// see the `if` case of `eval_stmt_s`. A true boolean runs the then-branch,
/// false and null the else-branch, anything else the then-branch — the
/// truthy-by-default fallback.
pub fn evaluate_if_stmt(
    condition: &Expr,
    then_branch: &Vec<Stmt>,
    else_branch: &Option<Vec<Stmt>>,
    env: &mut Environment,
    out: &mut Vec<String>,
    clock: i64,
    fuel: u64,
) -> (r: Result<Flow, Error>)
    ensures
        flow_outcome(
            eval_stmt_s(
                StmtV::If {
                    condition: condition@,
                    then_branch: stmt_seq_v(then_branch@),
                    else_branch: match else_branch {
                        Option::None => Option::None,
                        Option::Some(b) => Option::Some(stmt_seq_v(b@)),
                    },
                },
                StateV { env: old(env)@, out: old(out).deep_view() },
                clock,
                fuel as nat,
            ),
            r,
            final(env)@,
            final(out).deep_view(),
        ),
    decreases fuel, expr_size(condition@) + stmt_seq_size(stmt_seq_v(then_branch@)) + (match else_branch {
        Option::None => 1nat,
        Option::Some(b) => 1 + stmt_seq_size(stmt_seq_v(b@)),
    }), 1nat,
{
    let cv = match evaluate_expr(condition, env, out, clock, fuel) {
        Result::Ok(v) => v,
        Result::Err(e) => {
            return Result::Err(e);
        },
    };
    let take_else = match &cv {
        RuntimeValue::Bool { value } => !*value,
        RuntimeValue::Null => true,
        _ => false,
    };
    if take_else {
        match else_branch {
            Option::Some(b) => evaluate_branch(b, env, out, clock, fuel),
            Option::None => Result::Ok(Flow::Normal(RuntimeValue::Null)),
        }
    } else {
        evaluate_branch(then_branch, env, out, clock, fuel)
    }
}

/// Evaluates the iterable, declares the binding, runs the body once per
/// element, and removes the binding afterwards — including on a `ret` from
/// the body and in the zero-iteration case; see the `for` case of
/// `eval_stmt_s`.
#[verifier::loop_isolation(false)]
pub fn evaluate_for_stmt(
    ident: String,
    iterable: &Expr,
    body: &Vec<Stmt>,
    env: &mut Environment,
    out: &mut Vec<String>,
    clock: i64,
    fuel: u64,
) -> (r: Result<Flow, Error>)
    ensures
        flow_outcome(
            eval_stmt_s(
                StmtV::For {
                    ident: ident@,
                    iterable: Box::new(iterable@),
                    body: stmt_seq_v(body@),
                },
                StateV { env: old(env)@, out: old(out).deep_view() },
                clock,
                fuel as nat,
            ),
            r,
            final(env)@,
            final(out).deep_view(),
        ),
    decreases fuel, expr_size(iterable@) + stmt_seq_size(stmt_seq_v(body@)), 1nat,
{
    let iv = match evaluate_expr(iterable, env, out, clock, fuel) {
        Result::Ok(v) => v,
        Result::Err(e) => {
            return Result::Err(e);
        },
    };
    let elements = match iv {
        RuntimeValue::Array { elements } => elements,
        _ => {
            return Result::Err(Error::new(ErrorKind::NotIterable, "you can only iterate arrays"));
        },
    };
    match env.declare_var(ident.clone(), RuntimeValue::Null, true) {
        Result::Ok(_) => {},
        Result::Err(e) => {
            return Result::Err(e);
        },
    }
    let ghost identv = ident@;
    let ghost elemsv = value_seq_v(elements@);
    let ghost bodyv = stmt_seq_v(body@);
    let ghost st1 = StateV { env: env@, out: out.deep_view() };
    proof {
        lemma_value_seq_v(elements@);
    }
    let mut last = RuntimeValue::Null;
    let mut j: usize = 0;
    while j < elements.len()
        invariant
            identv == ident@,
            elemsv == value_seq_v(elements@),
            elemsv.len() == elements@.len(),
            forall|q: int| 0 <= q < elements@.len() ==> #[trigger] elemsv[q] == value_v(elements@[q]),
            bodyv == stmt_seq_v(body@),
            j <= elements@.len(),
            eval_for_s(identv, elemsv, 0, bodyv, ValueV::Null, st1, clock, fuel as nat)
                == eval_for_s(
                identv,
                elemsv,
                j as int,
                bodyv,
                value_v(last),
                StateV { env: env@, out: out.deep_view() },
                clock,
                fuel as nat,
            ),
        decreases elements@.len() - j,
    {
        match env.assign_var(ident.clone(), &elements[j]) {
            Result::Ok(_) => {},
            Result::Err(e) => {
                return Result::Err(e);
            },
        }
        let flow = match evaluate_branch(body, env, out, clock, fuel) {
            Result::Ok(f) => f,
            Result::Err(e) => {
                return Result::Err(e);
            },
        };
        match flow {
            Flow::Return(v) => {
                env.void_var(ident);
                return Result::Ok(Flow::Return(v));
            },
            Flow::Normal(v) => {
                last = v;
            },
        }
        j += 1;
    }
    env.void_var(ident);
    Result::Ok(Flow::Normal(last))
}

/// Evaluates one top-level statement; a `ret` here — direct or unwound out
/// of a nested block — is an error: one may only return from inside a
/// function.
pub fn evaluate_node(
    node: &Stmt,
    env: &mut Environment,
    out: &mut Vec<String>,
    clock: i64,
    fuel: u64,
) -> (r: Result<RuntimeValue, Error>)
    ensures
        match eval_stmt_s(
            node@,
            StateV { env: old(env)@, out: old(out).deep_view() },
            clock,
            fuel as nat,
        ) {
            Result::Ok((FlowV::Normal(v), st)) => r is Ok && value_v(r->Ok_0) == v && final(env)@
                == st.env && final(out).deep_view() == st.out,
            Result::Ok((FlowV::Return(_), _)) => r is Err && r->Err_0.kind
                == ErrorKind::ReturnOutsideFunction,
            Result::Err(k) => r is Err && r->Err_0.kind == k,
        },
    decreases fuel, stmt_size(node@), 3nat,
{
    match evaluate_statement(node, env, out, clock, fuel) {
        Result::Ok(Flow::Normal(v)) => Result::Ok(v),
        Result::Ok(Flow::Return(_)) => Result::Err(
            Error::new(ErrorKind::ReturnOutsideFunction, "you can only return from inside a function"),
        ),
        Result::Err(e) => Result::Err(e),
    }
}

/// Runs a whole program against the environment: each top-level statement
/// in order, each with a full call-depth budget, returning the value of the
/// last statement executed; see `eval_top_s`. Declarations' side effects
/// stay in the environment for the next run — the incremental, REPL-style
/// entry contract.
#[verifier::loop_isolation(false)]
pub fn evaluate(
    prog: &Program,
    env: &mut Environment,
    out: &mut Vec<String>,
    clock: i64,
) -> (r: Result<RuntimeValue, Error>)
    ensures
        match eval_top_s(
            prog@,
            0,
            ValueV::Null,
            StateV { env: old(env)@, out: old(out).deep_view() },
            clock,
        ) {
            Result::Ok((v, st)) => r is Ok && value_v(r->Ok_0) == v && final(env)@ == st.env
                && final(out).deep_view() == st.out,
            Result::Err(k) => r is Err && r->Err_0.kind == k,
        },
{
    let ghost progv = stmt_seq_v(prog.body@);
    let ghost st0 = StateV { env: env@, out: out.deep_view() };
    proof {
        lemma_stmt_seq_v(prog.body@);
    }
    let mut last = RuntimeValue::Null;
    let mut i: usize = 0;
    while i < prog.body.len()
        invariant
            progv == stmt_seq_v(prog.body@),
            progv.len() == prog.body@.len(),
            forall|j: int|
                0 <= j < prog.body@.len() ==> #[trigger] progv[j] == crate::ast::stmt_v(
                    prog.body@[j],
                ),
            i <= prog.body@.len(),
            eval_top_s(progv, 0, ValueV::Null, st0, clock) == eval_top_s(
                progv,
                i as int,
                value_v(last),
                StateV { env: env@, out: out.deep_view() },
                clock,
            ),
        decreases prog.body@.len() - i,
    {
        let v = match evaluate_node(&prog.body[i], env, out, clock, CALL_DEPTH) {
            Result::Ok(v) => v,
            Result::Err(e) => {
                return Result::Err(e);
            },
        };
        last = v;
        i += 1;
    }
    Result::Ok(last)
}

/// The whole pipeline on a source string: the tokens of the source, the
/// program they parse to, and that program's evaluation — or the first
/// error of the three stages.
pub open spec fn interpret_s(
    src: Seq<char>,
    env: EnvV,
    outp: Seq<Seq<char>>,
    clock: i64,
) -> Result<(ValueV, StateV), ErrorKind> {
    match lex_from(src, 0) {
        Option::None => Result::Err(ErrorKind::Lex),
        Option::Some(toks) => match p_program(toks, 0, Seq::empty()) {
            Option::None => Result::Err(ErrorKind::Parse),
            Option::Some((prog, _)) => eval_top_s(
                prog,
                0,
                ValueV::Null,
                StateV { env, out: outp },
                clock,
            ),
        },
    }
}

/// Runs a full source string against the environment: lex, parse, evaluate.
/// Declarations' side effects stay in the environment for the next call —
/// the REPL-style program entry. The clock is the current Unix epoch time in
/// seconds, sampled by the embedder.
pub fn interpret(src: &str, env: &mut Environment, out: &mut Vec<String>, clock: i64) -> (r: Result<
    RuntimeValue,
    Error,
>)
    ensures
        match interpret_s(src@, old(env)@, old(out).deep_view(), clock) {
            Result::Ok((v, st)) => r is Ok && value_v(r->Ok_0) == v && final(env)@ == st.env
                && final(out).deep_view() == st.out,
            Result::Err(k) => r is Err && r->Err_0.kind == k,
        },
{
    let tokens = match tokenize(src) {
        Result::Ok(t) => t,
        Result::Err(e) => {
            return Result::Err(e);
        },
    };
    let mut parser = Parser::new(tokens);
    let prog = match parser.produce_ast() {
        Result::Ok(p) => p,
        Result::Err(e) => {
            return Result::Err(e);
        },
    };
    evaluate(&prog, env, out, clock)
}

} // verus!
