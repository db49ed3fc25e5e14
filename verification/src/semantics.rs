//! The specification of evaluation: a denotational semantics over the view
//! types. Evaluation threads a state (the scope chain and the output lines
//! printed so far) and a fuel bound on user-function call depth; every
//! contract of the evaluator states that the executable code returns exactly
//! what these functions give.

use vstd::prelude::*;

use crate::ast::{
    expr_seq_size, expr_size, opt_expr_size, prop_seq_size, stmt_seq_size, stmt_size, ExprV,
    PropertyV, StmtV,
};
use crate::environment::{env_declare, env_lookup, env_remove, EnvV, env_assign};
use crate::errors::ErrorKind;
use crate::values::{render_v, value_eq_v, NativeFn, ValueV};

verus! {

/// The state evaluation threads: the scope chain and the lines printed so
/// far.
pub struct StateV {
    pub env: EnvV,
    pub out: Seq<Seq<char>>,
}

/// The control-flow outcome of a statement: an ordinary value, or a value
/// carried by a `ret` that unwinds to the enclosing function call.
pub enum FlowV {
    Normal(ValueV),
    Return(ValueV),
}

/// A number, or null when the checked operation overflowed or divided by
/// zero — the permissive fallback of the arithmetic.
pub open spec fn num_or_null(o: Option<i64>) -> ValueV {
    match o {
        Option::Some(n) => ValueV::Number { value: n },
        Option::None => ValueV::Null,
    }
}

/// The binary operator table. Numeric pairs support arithmetic and
/// comparisons, string pairs concatenation and (in)equality, boolean pairs
/// (in)equality; any other pairing or operator yields null — a deliberate
/// permissive fallback, not an error.
pub open spec fn apply_binop(op: Seq<char>, l: ValueV, r: ValueV) -> ValueV {
    match (l, r) {
        (ValueV::Number { value: a }, ValueV::Number { value: b }) => {
            if op == "+"@ {
                num_or_null(a.checked_add(b))
            } else if op == "-"@ {
                num_or_null(a.checked_sub(b))
            } else if op == "*"@ {
                num_or_null(a.checked_mul(b))
            } else if op == "/"@ {
                num_or_null(a.checked_div(b))
            } else if op == "%"@ {
                num_or_null(a.checked_rem(b))
            } else if op == "=="@ {
                ValueV::Bool { value: a == b }
            } else if op == "!="@ {
                ValueV::Bool { value: a != b }
            } else if op == "<"@ {
                ValueV::Bool { value: a < b }
            } else if op == ">"@ {
                ValueV::Bool { value: a > b }
            } else {
                ValueV::Null
            }
        },
        (ValueV::Str { value: a }, ValueV::Str { value: b }) => {
            if op == "+"@ {
                ValueV::Str { value: a + b }
            } else if op == "=="@ {
                ValueV::Bool { value: a == b }
            } else if op == "!="@ {
                ValueV::Bool { value: a != b }
            } else {
                ValueV::Null
            }
        },
        (ValueV::Bool { value: a }, ValueV::Bool { value: b }) => {
            if op == "=="@ {
                ValueV::Bool { value: a == b }
            } else if op == "!="@ {
                ValueV::Bool { value: a != b }
            } else {
                ValueV::Null
            }
        },
        _ => ValueV::Null,
    }
}

/// Reading a member: objects by string key (a missing property reads as
/// null, not an error), arrays by numeric index (out of range reads as
/// null); any other base or key kind is a type-mismatch error.
pub open spec fn read_member(base: ValueV, key: ValueV) -> Result<ValueV, ErrorKind> {
    match base {
        ValueV::Object { properties } => match key {
            ValueV::Str { value: k } => {
                if properties.contains_key(k) {
                    Result::Ok(properties[k])
                } else {
                    Result::Ok(ValueV::Null)
                }
            },
            _ => Result::Err(ErrorKind::TypeMismatch),
        },
        ValueV::Array { elements } => match key {
            ValueV::Number { value: n } => {
                if 0 <= n < elements.len() {
                    Result::Ok(elements[n as int])
                } else {
                    Result::Ok(ValueV::Null)
                }
            },
            _ => Result::Err(ErrorKind::TypeMismatch),
        },
        _ => Result::Err(ErrorKind::TypeMismatch),
    }
}

/// Writing through a member path: follows the keys into nested objects and
/// arrays and replaces the addressed slot. The final key may create a fresh
/// object property; descending through a missing property, an out-of-range
/// index, a wrong key kind or a non-container is a type-mismatch error.
pub open spec fn update_path(base: ValueV, path: Seq<ValueV>, v: ValueV) -> Result<
    ValueV,
    ErrorKind,
>
    decreases path,
{
    if path.len() == 0 {
        Result::Ok(v)
    } else {
        match base {
            ValueV::Object { properties } => match path[0] {
                ValueV::Str { value: k } => {
                    if path.len() == 1 {
                        Result::Ok(ValueV::Object { properties: properties.insert(k, v) })
                    } else if properties.contains_key(k) {
                        match update_path(properties[k], path.drop_first(), v) {
                            Result::Ok(nv) => Result::Ok(
                                ValueV::Object { properties: properties.insert(k, nv) },
                            ),
                            Result::Err(e) => Result::Err(e),
                        }
                    } else {
                        Result::Err(ErrorKind::TypeMismatch)
                    }
                },
                _ => Result::Err(ErrorKind::TypeMismatch),
            },
            ValueV::Array { elements } => match path[0] {
                ValueV::Number { value: n } => {
                    if 0 <= n < elements.len() {
                        if path.len() == 1 {
                            Result::Ok(ValueV::Array { elements: elements.update(n as int, v) })
                        } else {
                            match update_path(elements[n as int], path.drop_first(), v) {
                                Result::Ok(nv) => Result::Ok(
                                    ValueV::Array { elements: elements.update(n as int, nv) },
                                ),
                                Result::Err(e) => Result::Err(e),
                            }
                        }
                    } else {
                        Result::Err(ErrorKind::TypeMismatch)
                    }
                },
                _ => Result::Err(ErrorKind::TypeMismatch),
            },
            _ => Result::Err(ErrorKind::TypeMismatch),
        }
    }
}

/// The rendering of a printing builtin's arguments from `i` on: each
/// argument's display form, with no separator.
pub open spec fn render_args(args: Seq<ValueV>, i: int) -> Seq<char>
    decreases args.len() - i,
{
    if i < 0 || i >= args.len() {
        Seq::empty()
    } else {
        render_v(args[i]) + render_args(args, i + 1)
    }
}

/// Membership of `v` among the elements from `i` on, under value equality.
pub open spec fn seq_has(elems: Seq<ValueV>, v: ValueV, i: int) -> bool
    decreases elems.len() - i,
{
    if i < 0 || i >= elems.len() {
        false
    } else {
        value_eq_v(elems[i], v) || seq_has(elems, v, i + 1)
    }
}

/// How many nulls `Array.new` makes: its first argument when that is a
/// positive number, zero otherwise — missing, non-numeric and negative
/// counts all fall back to zero.
pub open spec fn array_new_count(args: Seq<ValueV>) -> nat {
    if args.len() >= 1 {
        match args[0] {
            ValueV::Number { value: n } => if n > 0 {
                n as nat
            } else {
                0
            },
            _ => 0,
        }
    } else {
        0
    }
}

/// The behaviour of each native builtin on already-evaluated arguments.
/// Printing appends one line to the output; `Date.now` returns the clock the
/// embedder sampled; the array builtins build, test and extend arrays.
/// Extra arguments are ignored; a missing or non-array first argument of
/// `has` and `concat` is a type-mismatch error.
pub open spec fn native_s(which: NativeFn, args: Seq<ValueV>, st: StateV, clock: i64) -> Result<
    (ValueV, StateV),
    ErrorKind,
> {
    match which {
        NativeFn::Print => Result::Ok(
            (ValueV::Null, StateV { env: st.env, out: st.out.push(render_args(args, 0)) }),
        ),
        NativeFn::DateNow => Result::Ok((ValueV::Number { value: clock }, st)),
        NativeFn::ArrayNew => Result::Ok(
            (
                ValueV::Array {
                    elements: Seq::new(array_new_count(args), |i: int| ValueV::Null),
                },
                st,
            ),
        ),
        NativeFn::ArrayFrom => Result::Ok((ValueV::Array { elements: args }, st)),
        NativeFn::ArrayHas => {
            if args.len() >= 2 {
                match args[0] {
                    ValueV::Array { elements } => Result::Ok(
                        (ValueV::Bool { value: seq_has(elements, args[1], 0) }, st),
                    ),
                    _ => Result::Err(ErrorKind::TypeMismatch),
                }
            } else {
                Result::Err(ErrorKind::TypeMismatch)
            }
        },
        NativeFn::ArrayConcat => {
            if args.len() >= 2 {
                match args[0] {
                    ValueV::Array { elements } => Result::Ok(
                        (ValueV::Array { elements: elements.push(args[1]) }, st),
                    ),
                    _ => Result::Err(ErrorKind::TypeMismatch),
                }
            } else {
                Result::Err(ErrorKind::TypeMismatch)
            }
        },
    }
}

/// Binds parameters to argument values in declaration order, each as a
/// mutable local; a repeated parameter name is a duplicate-declaration
/// error.
pub open spec fn bind_params(
    params: Seq<Seq<char>>,
    vals: Seq<ValueV>,
    acc: Map<Seq<char>, ValueV>,
) -> Result<Map<Seq<char>, ValueV>, ErrorKind>
    decreases params,
{
    if params.len() == 0 {
        Result::Ok(acc)
    } else if acc.contains_key(params[0]) {
        Result::Err(ErrorKind::DuplicateDecl)
    } else {
        bind_params(params.drop_first(), vals.drop_first(), acc.insert(params[0], vals[0]))
    }
}

pub proof fn lemma_expr_seq_size_skip(es: Seq<ExprV>, i: int)
    requires
        0 <= i < es.len(),
    ensures
        expr_seq_size(es.skip(i)) == 1 + expr_size(es[i]) + expr_seq_size(es.skip(i + 1)),
{
    assert(es.skip(i).len() > 0);
    assert(es.skip(i)[0] == es[i]);
    assert(es.skip(i).drop_first() =~= es.skip(i + 1));
}

pub proof fn lemma_prop_seq_size_skip(ps: Seq<PropertyV>, i: int)
    requires
        0 <= i < ps.len(),
    ensures
        prop_seq_size(ps.skip(i)) == 1 + opt_box_expr_size_of(ps[i]) + prop_seq_size(
            ps.skip(i + 1),
        ),
{
    assert(ps.skip(i).len() > 0);
    assert(ps.skip(i)[0] == ps[i]);
    assert(ps.skip(i).drop_first() =~= ps.skip(i + 1));
}

pub open spec fn opt_box_expr_size_of(p: PropertyV) -> nat {
    crate::ast::opt_box_expr_size(p.value)
}

pub proof fn lemma_stmt_seq_size_skip(ss: Seq<StmtV>, i: int)
    requires
        0 <= i < ss.len(),
    ensures
        stmt_seq_size(ss.skip(i)) == 1 + stmt_size(ss[i]) + stmt_seq_size(ss.skip(i + 1)),
{
    assert(ss.skip(i).len() > 0);
    assert(ss.skip(i)[0] == ss[i]);
    assert(ss.skip(i).drop_first() =~= ss.skip(i + 1));
}

/// Evaluation of an expression: the result value and the state after, or
/// the error that aborts the run.
pub open spec fn eval_expr_s(e: ExprV, st: StateV, clock: i64, fuel: nat) -> Result<
    (ValueV, StateV),
    ErrorKind,
>
    decreases fuel, expr_size(e), 2nat,
    via eval_expr_s_decreases
{
    match e {
        ExprV::IntLit { value } => Result::Ok((ValueV::Number { value }, st)),
        ExprV::StringLit { value } => Result::Ok((ValueV::Str { value }, st)),
        ExprV::Ident { symbol } => match env_lookup(st.env, symbol) {
            Option::Some(v) => Result::Ok((v, st)),
            Option::None => Result::Err(ErrorKind::NameResolution),
        },
        ExprV::BinExp { left, op, right } => match eval_expr_s(*left, st, clock, fuel) {
            Result::Err(k) => Result::Err(k),
            Result::Ok((lv, st1)) => match eval_expr_s(*right, st1, clock, fuel) {
                Result::Err(k) => Result::Err(k),
                Result::Ok((rv, st2)) => Result::Ok((apply_binop(op, lv, rv), st2)),
            },
        },
        ExprV::Array { elements } => match eval_args_s(
            elements,
            0,
            Seq::empty(),
            st,
            clock,
            fuel,
        ) {
            Result::Err(k) => Result::Err(k),
            Result::Ok((vals, st1)) => Result::Ok((ValueV::Array { elements: vals }, st1)),
        },
        ExprV::ObjectLit { properties } => match eval_props_s(
            properties,
            0,
            Map::empty(),
            st,
            clock,
            fuel,
        ) {
            Result::Err(k) => Result::Err(k),
            Result::Ok((m, st1)) => Result::Ok((ValueV::Object { properties: m }, st1)),
        },
        ExprV::Assign { assignee, value } => eval_assign_s(*assignee, *value, st, clock, fuel),
        ExprV::Member { .. } => eval_member_s(e, st, clock, fuel),
        ExprV::Call { callee, args } => match eval_args_s(args, 0, Seq::empty(), st, clock, fuel) {
            Result::Err(k) => Result::Err(k),
            Result::Ok((vals, st1)) => match eval_expr_s(*callee, st1, clock, fuel) {
                Result::Err(k) => Result::Err(k),
                Result::Ok((f, st2)) => call_s(f, vals, st2, clock, fuel),
            },
        },
    }
}

/// Evaluation of an assignment. An identifier target evaluates the value
/// and rebinds the name. A member target evaluates the value, then the path
/// keys left to right, and replaces the addressed slot inside the root
/// variable's value. Any other target is a type-mismatch error.
pub open spec fn eval_assign_s(
    assignee: ExprV,
    value: ExprV,
    st: StateV,
    clock: i64,
    fuel: nat,
) -> Result<(ValueV, StateV), ErrorKind>
    decreases fuel, expr_size(assignee) + expr_size(value), 3nat,
{
    match assignee {
        ExprV::Ident { symbol } => match eval_expr_s(value, st, clock, fuel) {
            Result::Err(k) => Result::Err(k),
            Result::Ok((v, st1)) => match env_assign(st1.env, symbol, v) {
                Result::Err(k) => Result::Err(k),
                Result::Ok(e2) => Result::Ok((v, StateV { env: e2, out: st1.out })),
            },
        },
        ExprV::Member { .. } => match eval_expr_s(value, st, clock, fuel) {
            Result::Err(k) => Result::Err(k),
            Result::Ok((v, st1)) => match collect_path_s(assignee, st1, clock, fuel) {
                Result::Err(k) => Result::Err(k),
                Result::Ok(((root, path), st2)) => match env_lookup(st2.env, root) {
                    Option::None => Result::Err(ErrorKind::NameResolution),
                    Option::Some(base) => match update_path(base, path, v) {
                        Result::Err(k) => Result::Err(k),
                        Result::Ok(nb) => match env_assign(st2.env, root, nb) {
                            Result::Err(k) => Result::Err(k),
                            Result::Ok(e2) => Result::Ok((v, StateV { env: e2, out: st2.out })),
                        },
                    },
                },
            },
        },
        _ => Result::Err(ErrorKind::TypeMismatch),
    }
}

/// The root variable and the key path of a member expression used as an
/// assignment target. The chain must be rooted in an identifier; a
/// non-computed key is its property name, a computed key is evaluated.
pub open spec fn collect_path_s(m: ExprV, st: StateV, clock: i64, fuel: nat) -> Result<
    ((Seq<char>, Seq<ValueV>), StateV),
    ErrorKind,
>
    decreases fuel, expr_size(m), 1nat,
{
    match m {
        ExprV::Ident { symbol } => Result::Ok(((symbol, Seq::empty()), st)),
        ExprV::Member { object, property, computed } => match collect_path_s(
            *object,
            st,
            clock,
            fuel,
        ) {
            Result::Err(k) => Result::Err(k),
            Result::Ok(((root, path), st1)) => {
                if computed {
                    match eval_expr_s(*property, st1, clock, fuel) {
                        Result::Err(k) => Result::Err(k),
                        Result::Ok((kv, st2)) => Result::Ok(((root, path.push(kv)), st2)),
                    }
                } else {
                    match *property {
                        ExprV::Ident { symbol } => Result::Ok(
                            ((root, path.push(ValueV::Str { value: symbol })), st1),
                        ),
                        _ => Result::Err(ErrorKind::TypeMismatch),
                    }
                }
            },
        },
        _ => Result::Err(ErrorKind::TypeMismatch),
    }
}

/// Evaluation of a member read, or of the identifier at the root of a
/// member chain.
pub open spec fn eval_member_s(node: ExprV, st: StateV, clock: i64, fuel: nat) -> Result<
    (ValueV, StateV),
    ErrorKind,
>
    decreases fuel, expr_size(node), 1nat,
{
    match node {
        ExprV::Ident { symbol } => match env_lookup(st.env, symbol) {
            Option::Some(v) => Result::Ok((v, st)),
            Option::None => Result::Err(ErrorKind::NameResolution),
        },
        ExprV::Member { object, property, computed } => match eval_expr_s(*object, st, clock, fuel) {
            Result::Err(k) => Result::Err(k),
            Result::Ok((base, st1)) => {
                if computed {
                    match eval_expr_s(*property, st1, clock, fuel) {
                        Result::Err(k) => Result::Err(k),
                        Result::Ok((kv, st2)) => match read_member(base, kv) {
                            Result::Err(k) => Result::Err(k),
                            Result::Ok(v) => Result::Ok((v, st2)),
                        },
                    }
                } else {
                    match *property {
                        ExprV::Ident { symbol } => match read_member(
                            base,
                            ValueV::Str { value: symbol },
                        ) {
                            Result::Err(k) => Result::Err(k),
                            Result::Ok(v) => Result::Ok((v, st1)),
                        },
                        _ => Result::Err(ErrorKind::TypeMismatch),
                    }
                }
            },
        },
        _ => Result::Err(ErrorKind::TypeMismatch),
    }
}

/// Evaluation of argument expressions from `i` on, left to right,
/// accumulating their values.
pub open spec fn eval_args_s(
    args: Seq<ExprV>,
    i: int,
    vals: Seq<ValueV>,
    st: StateV,
    clock: i64,
    fuel: nat,
) -> Result<(Seq<ValueV>, StateV), ErrorKind>
    decreases fuel, expr_seq_size(args.skip(i)), 1nat,
    via eval_args_s_decreases
{
    if i < 0 || i >= args.len() {
        Result::Ok((vals, st))
    } else {
        match eval_expr_s(args[i], st, clock, fuel) {
            Result::Err(k) => Result::Err(k),
            Result::Ok((v, st1)) => eval_args_s(args, i + 1, vals.push(v), st1, clock, fuel),
        }
    }
}

/// Evaluation of object-literal entries from `i` on: an explicit value is
/// evaluated, a shorthand key is resolved as a variable; later entries of a
/// repeated key overwrite earlier ones.
pub open spec fn eval_props_s(
    props: Seq<PropertyV>,
    i: int,
    acc: Map<Seq<char>, ValueV>,
    st: StateV,
    clock: i64,
    fuel: nat,
) -> Result<(Map<Seq<char>, ValueV>, StateV), ErrorKind>
    decreases fuel, prop_seq_size(props.skip(i)), 1nat,
    via eval_props_s_decreases
{
    if i < 0 || i >= props.len() {
        Result::Ok((acc, st))
    } else {
        match props[i].value {
            Option::Some(e) => match eval_expr_s(*e, st, clock, fuel) {
                Result::Err(k) => Result::Err(k),
                Result::Ok((v, st1)) => eval_props_s(
                    props,
                    i + 1,
                    acc.insert(props[i].key, v),
                    st1,
                    clock,
                    fuel,
                ),
            },
            Option::None => match env_lookup(st.env, props[i].key) {
                Option::None => Result::Err(ErrorKind::NameResolution),
                Option::Some(v) => eval_props_s(
                    props,
                    i + 1,
                    acc.insert(props[i].key, v),
                    st,
                    clock,
                    fuel,
                ),
            },
        }
    }
}

/// A call on an already-evaluated callee and arguments. A native builtin
/// runs directly. A user function checks arity, spends one unit of fuel,
/// binds the parameters in a fresh child scope of its captured environment —
/// lexical, not dynamic, scoping — and runs its body; the result is the
/// value of an explicit `ret`, or null when the body falls through. The
/// caller's scope chain is untouched by the call.
pub open spec fn call_s(f: ValueV, vals: Seq<ValueV>, st: StateV, clock: i64, fuel: nat) -> Result<
    (ValueV, StateV),
    ErrorKind,
>
    decreases fuel, 0nat, 0nat,
{
    match f {
        ValueV::NativeFunction { body } => native_s(body, vals, st, clock),
        ValueV::Function { name, params, decl_env, body } => {
            if params.len() != vals.len() {
                Result::Err(ErrorKind::Arity)
            } else if fuel == 0 {
                Result::Err(ErrorKind::DepthLimit)
            } else {
                match bind_params(params, vals, Map::empty()) {
                    Result::Err(k) => Result::Err(k),
                    Result::Ok(m) => {
                        let child = EnvV {
                            vars: m,
                            consts: Set::empty(),
                            parent: Option::Some(Box::new(decl_env)),
                        };
                        match eval_seq_s(
                            body,
                            0,
                            ValueV::Null,
                            StateV { env: child, out: st.out },
                            clock,
                            (fuel - 1) as nat,
                        ) {
                            Result::Err(k) => Result::Err(k),
                            Result::Ok((flow, st1)) => {
                                let rv = match flow {
                                    FlowV::Return(v) => v,
                                    FlowV::Normal(_) => ValueV::Null,
                                };
                                Result::Ok((rv, StateV { env: st.env, out: st1.out }))
                            },
                        }
                    },
                }
            }
        },
        _ => Result::Err(ErrorKind::NotCallable),
    }
}

/// Evaluation of a statement sequence from `i` on, threading one scope
/// through all of them. `lastv` is the value of the last statement executed
/// so far; a `ret` stops the sequence at once and carries its value out as
/// a `Return` flow.
pub open spec fn eval_seq_s(
    ss: Seq<StmtV>,
    i: int,
    lastv: ValueV,
    st: StateV,
    clock: i64,
    fuel: nat,
) -> Result<(FlowV, StateV), ErrorKind>
    decreases fuel, stmt_seq_size(ss.skip(i)), 1nat,
    via eval_seq_s_decreases
{
    if i < 0 || i >= ss.len() {
        Result::Ok((FlowV::Normal(lastv), st))
    } else {
        match eval_stmt_s(ss[i], st, clock, fuel) {
            Result::Err(k) => Result::Err(k),
            Result::Ok((FlowV::Return(v), st1)) => Result::Ok((FlowV::Return(v), st1)),
            Result::Ok((FlowV::Normal(v), st1)) => eval_seq_s(ss, i + 1, v, st1, clock, fuel),
        }
    }
}

/// Evaluation of one statement.
pub open spec fn eval_stmt_s(s: StmtV, st: StateV, clock: i64, fuel: nat) -> Result<
    (FlowV, StateV),
    ErrorKind,
>
    decreases fuel, stmt_size(s), 2nat,
    via eval_stmt_s_decreases
{
    match s {
        StmtV::Expr(e) => match eval_expr_s(e, st, clock, fuel) {
            Result::Err(k) => Result::Err(k),
            Result::Ok((v, st1)) => Result::Ok((FlowV::Normal(v), st1)),
        },
        StmtV::VarDecl { mutable, name, value } => {
            let ev = match value {
                Option::None => Result::Ok((ValueV::Null, st)),
                Option::Some(e) => eval_expr_s(e, st, clock, fuel),
            };
            match ev {
                Result::Err(k) => Result::Err(k),
                Result::Ok((v, st1)) => match env_declare(st1.env, name, v, mutable) {
                    Result::Err(k) => Result::Err(k),
                    Result::Ok(e2) => Result::Ok(
                        (FlowV::Normal(v), StateV { env: e2, out: st1.out }),
                    ),
                },
            }
        },
        StmtV::FuncDecl { params, name, body } => {
            let f = ValueV::Function { name, params, decl_env: st.env, body };
            match env_declare(st.env, name, f, false) {
                Result::Err(k) => Result::Err(k),
                Result::Ok(e2) => Result::Ok((FlowV::Normal(f), StateV { env: e2, out: st.out })),
            }
        },
        StmtV::Return { value } => {
            let ev = match value {
                Option::None => Result::Ok((ValueV::Null, st)),
                Option::Some(e) => eval_expr_s(e, st, clock, fuel),
            };
            match ev {
                Result::Err(k) => Result::Err(k),
                Result::Ok((v, st1)) => Result::Ok((FlowV::Return(v), st1)),
            }
        },
        StmtV::If { condition, then_branch, else_branch } => match eval_expr_s(
            condition,
            st,
            clock,
            fuel,
        ) {
            Result::Err(k) => Result::Err(k),
            Result::Ok((cv, st1)) => {
                let take_else = match cv {
                    ValueV::Bool { value } => !value,
                    ValueV::Null => true,
                    _ => false,
                };
                if take_else {
                    match else_branch {
                        Option::Some(b) => eval_seq_s(b, 0, ValueV::Null, st1, clock, fuel),
                        Option::None => Result::Ok((FlowV::Normal(ValueV::Null), st1)),
                    }
                } else {
                    eval_seq_s(then_branch, 0, ValueV::Null, st1, clock, fuel)
                }
            },
        },
        StmtV::For { ident, iterable, body } => match eval_expr_s(*iterable, st, clock, fuel) {
            Result::Err(k) => Result::Err(k),
            Result::Ok((iv, st1)) => match iv {
                ValueV::Array { elements } => match env_declare(
                    st1.env,
                    ident,
                    ValueV::Null,
                    true,
                ) {
                    Result::Err(k) => Result::Err(k),
                    Result::Ok(e2) => match eval_for_s(
                        ident,
                        elements,
                        0,
                        body,
                        ValueV::Null,
                        StateV { env: e2, out: st1.out },
                        clock,
                        fuel,
                    ) {
                        Result::Err(k) => Result::Err(k),
                        Result::Ok((flow, st2)) => Result::Ok(
                            (flow, StateV { env: env_remove(st2.env, ident), out: st2.out }),
                        ),
                    },
                },
                _ => Result::Err(ErrorKind::NotIterable),
            },
        },
    }
}

/// The iterations of a `for` loop from element `j` on: rebind the binding to
/// the element, run the body, keep its value as the loop's current value.
/// A `ret` inside the body unwinds out of the loop.
pub open spec fn eval_for_s(
    ident: Seq<char>,
    elems: Seq<ValueV>,
    j: int,
    body: Seq<StmtV>,
    lastv: ValueV,
    st: StateV,
    clock: i64,
    fuel: nat,
) -> Result<(FlowV, StateV), ErrorKind>
    decreases fuel, stmt_seq_size(body) + 1, (if elems.len() - j >= 0 { elems.len() - j } else { 0 }) as nat,
    via eval_for_s_decreases
{
    if j < 0 || j >= elems.len() {
        Result::Ok((FlowV::Normal(lastv), st))
    } else {
        match env_assign(st.env, ident, elems[j]) {
            Result::Err(k) => Result::Err(k),
            Result::Ok(e2) => match eval_seq_s(
                body,
                0,
                ValueV::Null,
                StateV { env: e2, out: st.out },
                clock,
                fuel,
            ) {
                Result::Err(k) => Result::Err(k),
                Result::Ok((FlowV::Return(v), st1)) => Result::Ok((FlowV::Return(v), st1)),
                Result::Ok((FlowV::Normal(v), st1)) => eval_for_s(
                    ident,
                    elems,
                    j + 1,
                    body,
                    v,
                    st1,
                    clock,
                    fuel,
                ),
            },
        }
    }
}

#[via_fn]
proof fn eval_for_s_decreases(
    ident: Seq<char>,
    elems: Seq<ValueV>,
    j: int,
    body: Seq<StmtV>,
    lastv: ValueV,
    st: StateV,
    clock: i64,
    fuel: nat,
) {
    assert(body.skip(0) =~= body);
}

#[via_fn]
proof fn eval_expr_s_decreases(e: ExprV, st: StateV, clock: i64, fuel: nat) {
    match e {
        ExprV::Array { elements } => {
            assert(elements.skip(0) =~= elements);
        },
        ExprV::ObjectLit { properties } => {
            assert(properties.skip(0) =~= properties);
        },
        ExprV::Call { callee, args } => {
            assert(args.skip(0) =~= args);
        },
        _ => {},
    }
}

#[via_fn]
proof fn eval_args_s_decreases(
    args: Seq<ExprV>,
    i: int,
    vals: Seq<ValueV>,
    st: StateV,
    clock: i64,
    fuel: nat,
) {
    if 0 <= i < args.len() {
        lemma_expr_seq_size_skip(args, i);
    }
}

#[via_fn]
proof fn eval_props_s_decreases(
    props: Seq<PropertyV>,
    i: int,
    acc: Map<Seq<char>, ValueV>,
    st: StateV,
    clock: i64,
    fuel: nat,
) {
    if 0 <= i < props.len() {
        lemma_prop_seq_size_skip(props, i);
    }
}

#[via_fn]
proof fn eval_seq_s_decreases(
    ss: Seq<StmtV>,
    i: int,
    lastv: ValueV,
    st: StateV,
    clock: i64,
    fuel: nat,
) {
    if 0 <= i < ss.len() {
        lemma_stmt_seq_size_skip(ss, i);
    }
}

#[via_fn]
proof fn eval_stmt_s_decreases(s: StmtV, st: StateV, clock: i64, fuel: nat) {
    match s {
        StmtV::If { condition, then_branch, else_branch } => {
            assert(then_branch.skip(0) =~= then_branch);
            match else_branch {
                Option::Some(b) => {
                    assert(b.skip(0) =~= b);
                },
                Option::None => {},
            }
        },
        _ => {},
    }
}

/// The call-depth guard: how many nested user-function calls one top-level
/// statement may make before evaluation aborts with a depth-limit error.
pub const CALL_DEPTH: u64 = 64;

/// Evaluation of the top-level statements of a program from `i` on: each
/// statement gets a full fuel budget, and its value becomes the program's
/// value so far. A `ret` at the top level — direct or unwound out of a
/// nested block — is an error: one may only return from inside a function.
pub open spec fn eval_top_s(ss: Seq<StmtV>, i: int, lastv: ValueV, st: StateV, clock: i64) -> Result<
    (ValueV, StateV),
    ErrorKind,
>
    decreases ss.len() - i,
{
    if i < 0 || i >= ss.len() {
        Result::Ok((lastv, st))
    } else {
        match eval_stmt_s(ss[i], st, clock, CALL_DEPTH as nat) {
            Result::Err(k) => Result::Err(k),
            Result::Ok((FlowV::Return(_), _)) => Result::Err(ErrorKind::ReturnOutsideFunction),
            Result::Ok((FlowV::Normal(v), st1)) => eval_top_s(ss, i + 1, v, st1, clock),
        }
    }
}

} // verus!
