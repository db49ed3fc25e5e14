//! Laws of the language, stated over the specification semantics and proved
//! once and for all: what holds of every input, not of chosen values.

use vstd::prelude::*;

use crate::ast::{ExprV, StmtV};
use crate::environment::{env_assign, env_declare, env_lookup, env_resolve, EnvV};
use crate::errors::ErrorKind;
use crate::semantics::{
    apply_binop, call_s, eval_expr_s, eval_stmt_s, read_member, StateV,
};
use crate::values::ValueV;

verus! {

broadcast use vstd::string::group_string_axioms;

/// Comparing values of different kinds yields null, not a boolean: for any
/// two operands that are not both numbers, both strings or both booleans,
/// every binary operator — equality included — falls back to null.
pub proof fn lemma_cross_variant_compare_null(op: Seq<char>, a: ValueV, b: ValueV)
    requires
        !(a is Number && b is Number),
        !(a is Str && b is Str),
        !(a is Bool && b is Bool),
    ensures
        apply_binop(op, a, b) == ValueV::Null,
{
}

/// Integer division: a quotient of two number literals with a nonzero
/// divisor evaluates to their truncated quotient, leaving the state alone.
/// The one excess is the minimum value divided by minus one, whose quotient
/// does not fit.
pub proof fn lemma_division_of_literals(st: StateV, clock: i64, fuel: nat, a: i64, b: i64)
    requires
        b != 0,
        !(a == i64::MIN && b == -1),
    ensures
        a.checked_div(b) is Some,
        eval_expr_s(
            ExprV::BinExp {
                left: Box::new(ExprV::IntLit { value: a }),
                op: "/"@,
                right: Box::new(ExprV::IntLit { value: b }),
            },
            st,
            clock,
            fuel,
        ) == Result::<(ValueV, StateV), ErrorKind>::Ok(
            (ValueV::Number { value: a.checked_div(b)->Some_0 }, st),
        ),
{
    reveal_with_fuel(eval_expr_s, 3);
    reveal_strlit("+");
    reveal_strlit("-");
    reveal_strlit("*");
    reveal_strlit("/");
    assert("+"@.len() == 1);
    assert("-"@.len() == 1);
    assert("*"@.len() == 1);
    assert("/"@.len() == 1);
    assert("+"@[0] == '+');
    assert("-"@[0] == '-');
    assert("*"@[0] == '*');
    assert("/"@[0] == '/');
    let x = a as int;
    let d = b as int;
    let m: int = if x < 0 {
        -x
    } else {
        x
    };
    let dm: int = if d < 0 {
        -d
    } else {
        d
    };
    vstd::arithmetic::div_mod::lemma_div_pos_is_pos(m, dm);
    vstd::arithmetic::div_mod::lemma_div_nonincreasing(m, dm);
    if x == i64::MIN && d <= -2 {
        vstd::arithmetic::div_mod::lemma_div_is_ordered_by_denominator(m, 2, dm);
        assert(m / dm <= m / 2);
    }
    assert(a.checked_div(b) is Some);
}

/// Assigning to a binding that the innermost scope defining it marked
/// immutable fails with an immutability error, whatever the new value.
pub proof fn lemma_assign_const_fails(e: EnvV, name: Seq<char>, v: ValueV)
    requires
        env_resolve(e, name) is Some,
        env_resolve(e, name)->Some_0.consts.contains(name),
    ensures
        env_assign(e, name, v) == Result::<EnvV, ErrorKind>::Err(ErrorKind::Immutability),
    decreases e,
{
    if !e.vars.contains_key(name) {
        match e.parent {
            Option::Some(p) => {
                lemma_assign_const_fails(*p, name, v);
            },
            Option::None => {},
        }
    }
}

/// Assigning to a binding that the innermost scope defining it left mutable
/// succeeds, and the name then resolves to the assigned value.
pub proof fn lemma_assign_mutable_rebinds(e: EnvV, name: Seq<char>, v: ValueV)
    requires
        env_resolve(e, name) is Some,
        !env_resolve(e, name)->Some_0.consts.contains(name),
    ensures
        env_assign(e, name, v) is Ok,
        env_lookup(env_assign(e, name, v)->Ok_0, name) == Option::Some(v),
    decreases e,
{
    if !e.vars.contains_key(name) {
        match e.parent {
            Option::Some(p) => {
                lemma_assign_mutable_rebinds(*p, name, v);
            },
            Option::None => {},
        }
    }
}

/// Re-declaring a name in a scope that already defines it fails with a
/// duplicate-declaration error.
pub proof fn lemma_redeclaration_fails(e: EnvV, name: Seq<char>, v1: ValueV, v2: ValueV, m1: bool, m2: bool)
    requires
        env_declare(e, name, v1, m1) is Ok,
    ensures
        env_declare(env_declare(e, name, v1, m1)->Ok_0, name, v2, m2) == Result::<
            EnvV,
            ErrorKind,
        >::Err(ErrorKind::DuplicateDecl),
{
}

/// Shadowing is legal and takes precedence: declaring a name in a fresh
/// child scope succeeds whatever the enclosing scopes define, and the name
/// then resolves to the child's binding.
pub proof fn lemma_shadowing_takes_precedence(parent: EnvV, name: Seq<char>, v: ValueV, mutable: bool)
    ensures
        ({
            let child = EnvV {
                vars: Map::empty(),
                consts: Set::empty(),
                parent: Option::Some(Box::new(parent)),
            };
            &&& env_declare(child, name, v, mutable) is Ok
            &&& env_lookup(env_declare(child, name, v, mutable)->Ok_0, name) == Option::Some(v)
        }),
{
}

/// Reading a missing property off an object yields null rather than failing.
pub proof fn lemma_missing_property_reads_null(props: Map<Seq<char>, ValueV>, key: Seq<char>)
    requires
        !props.contains_key(key),
    ensures
        read_member(ValueV::Object { properties: props }, ValueV::Str { value: key })
            == Result::<ValueV, ErrorKind>::Ok(ValueV::Null),
{
}

/// Closures capture by snapshot, and scoping is lexical: a user-function
/// call runs against the scope chain captured inside the function value, so
/// two calls of the same function value on the same arguments agree in value
/// and output whatever the callers' scopes are, and each caller's own scope
/// chain comes back untouched. In particular, mutating an outer variable
/// after a function captured it cannot change what the function returns.
pub proof fn lemma_call_uses_captured_scope(
    f: ValueV,
    vals: Seq<ValueV>,
    st_a: StateV,
    st_b: StateV,
    clock: i64,
    fuel: nat,
)
    requires
        f is Function,
        st_a.out == st_b.out,
    ensures
        match (call_s(f, vals, st_a, clock, fuel), call_s(f, vals, st_b, clock, fuel)) {
            (Result::Ok((va, sta)), Result::Ok((vb, stb))) => va == vb && sta.out == stb.out
                && sta.env == st_a.env && stb.env == st_b.env,
            (Result::Err(ka), Result::Err(kb)) => ka == kb,
            _ => false,
        },
{
}

/// A function declaration captures its scope at declaration time: the
/// declared value is the function paired with a snapshot of the scope chain
/// as it stood just before the declaration — not a live reference — bound
/// immutably under the function's name.
pub proof fn lemma_function_declaration_captures_current_scope(
    params: Seq<Seq<char>>,
    name: Seq<char>,
    body: Seq<StmtV>,
    st: StateV,
    clock: i64,
    fuel: nat,
)
    requires
        !st.env.vars.contains_key(name),
    ensures
        ({
            let f = ValueV::Function { name, params, decl_env: st.env, body };
            let r = eval_stmt_s(StmtV::FuncDecl { params, name, body }, st, clock, fuel);
            &&& r is Ok
            &&& r->Ok_0.0 == crate::semantics::FlowV::Normal(f)
            &&& env_lookup(r->Ok_0.1.env, name) == Option::Some(f)
            &&& r->Ok_0.1.env.consts.contains(name)
            &&& r->Ok_0.1.out == st.out
        }),
{
}

/// A `for` statement tears its binding down: after the loop evaluates — even
/// over an empty array, and even when a `ret` unwinds out of the body — the
/// loop binding is no longer defined in the scope.
pub proof fn lemma_for_unbinds_the_binding(
    ident: Seq<char>,
    iterable: ExprV,
    body: Seq<StmtV>,
    st: StateV,
    clock: i64,
    fuel: nat,
)
    ensures
        ({
            let r = eval_stmt_s(
                StmtV::For { ident, iterable: Box::new(iterable), body },
                st,
                clock,
                fuel,
            );
            r is Ok ==> !r->Ok_0.1.env.vars.contains_key(ident)
        }),
{
}

} // verus!
