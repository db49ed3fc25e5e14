//! The runtime value model: the tagged union of values flowing between the
//! environment and the evaluator, its mathematical view `ValueV`, deep
//! cloning, the language's value equality, and the display rendering used by
//! the printing builtin.

use vstd::prelude::*;

use crate::ast::{Stmt, StmtV, stmt_seq_v};
use crate::environment::{EnvV, Environment, env_v};
use crate::text::{int_str, int_to_string};

verus! {

/// The host-provided builtin operations, as a closed sum so that evaluation
/// dispatches over them by exhaustive match.
#[derive(Clone, Copy, Debug, PartialEq, Eq, Structural)]
pub enum NativeFn {
    /// `print!(args...)`: renders each argument, then a newline.
    Print,
    /// `Date.now()`: the current Unix epoch time in seconds.
    DateNow,
    /// `Array.new(count)`: an array of `count` nulls.
    ArrayNew,
    /// `Array.from(elements...)`: an array of the arguments in order.
    ArrayFrom,
    /// `Array.has(array, value)`: membership test under value equality.
    ArrayHas,
    /// `Array.concat(array, value)`: a new array with `value` appended.
    ArrayConcat,
}

/// A runtime value.
pub enum RuntimeValue {
    Null,
    Number { value: i64 },
    Bool { value: bool },
    Object(Object),
    NativeFunction { body: NativeFn },
    /// A user function: a closure over a snapshot copy of its declaring
    /// environment, taken at declaration time.
    Function { name: String, params: Vec<String>, decl_env: Environment, body: Vec<Stmt> },
    Str { value: String },
    Array { elements: Vec<RuntimeValue> },
}

/// An object: a mapping from property names to values, insertion order
/// irrelevant. Held as an association list whose view is a `Map`; the first
/// entry of a name is the binding.
pub struct Object {
    pub properties: Vec<(String, RuntimeValue)>,
}

/// The mathematical view of a runtime value.
pub enum ValueV {
    Null,
    Number { value: i64 },
    Bool { value: bool },
    Object { properties: Map<Seq<char>, ValueV> },
    NativeFunction { body: NativeFn },
    Function { name: Seq<char>, params: Seq<Seq<char>>, decl_env: EnvV, body: Seq<StmtV> },
    Str { value: Seq<char> },
    Array { elements: Seq<ValueV> },
}

pub open spec fn value_v(v: RuntimeValue) -> ValueV
    decreases v,
{
    match v {
        RuntimeValue::Null => ValueV::Null,
        RuntimeValue::Number { value } => ValueV::Number { value },
        RuntimeValue::Bool { value } => ValueV::Bool { value },
        RuntimeValue::Object(o) => ValueV::Object { properties: props_v(o.properties@) },
        RuntimeValue::NativeFunction { body } => ValueV::NativeFunction { body },
        RuntimeValue::Function { name, params, decl_env, body } => ValueV::Function {
            name: name@,
            params: params.deep_view(),
            decl_env: env_v(decl_env),
            body: stmt_seq_v(body@),
        },
        RuntimeValue::Str { value } => ValueV::Str { value: value@ },
        RuntimeValue::Array { elements } => ValueV::Array { elements: value_seq_v(elements@) },
    }
}

pub open spec fn value_seq_v(vs: Seq<RuntimeValue>) -> Seq<ValueV>
    decreases vs,
{
    if vs.len() == 0 {
        Seq::empty()
    } else {
        seq![value_v(vs[0])] + value_seq_v(vs.drop_first())
    }
}

/// The map an association list of properties stands for: the first entry of
/// a name is its binding.
pub open spec fn props_v(ps: Seq<(String, RuntimeValue)>) -> Map<Seq<char>, ValueV>
    decreases ps,
{
    if ps.len() == 0 {
        Map::empty()
    } else {
        props_v(ps.drop_first()).insert(ps[0].0@, value_v(ps[0].1))
    }
}

impl View for RuntimeValue {
    type V = ValueV;

    open spec fn view(&self) -> ValueV {
        value_v(*self)
    }
}

impl View for Object {
    type V = Map<Seq<char>, ValueV>;

    open spec fn view(&self) -> Map<Seq<char>, ValueV> {
        props_v(self.properties@)
    }
}

pub proof fn lemma_value_seq_v(vs: Seq<RuntimeValue>)
    ensures
        value_seq_v(vs).len() == vs.len(),
        forall|i: int| 0 <= i < vs.len() ==> #[trigger] value_seq_v(vs)[i] == value_v(vs[i]),
    decreases vs,
{
    if vs.len() > 0 {
        lemma_value_seq_v(vs.drop_first());
        assert forall|i: int| 0 <= i < vs.len() implies #[trigger] value_seq_v(vs)[i] == value_v(
            vs[i],
        ) by {
            if i > 0 {
                assert(vs.drop_first()[i - 1] == vs[i]);
                assert(value_seq_v(vs)[i] == value_seq_v(vs.drop_first())[i - 1]);
            }
        }
    }
}

/// Appending an entry binds its name only where the name is not yet bound:
/// the first entry of a name wins.
pub proof fn lemma_props_v_push(ps: Seq<(String, RuntimeValue)>, x: (String, RuntimeValue))
    ensures
        props_v(ps.push(x)) == if props_v(ps).contains_key(x.0@) {
            props_v(ps)
        } else {
            props_v(ps).insert(x.0@, value_v(x.1))
        },
    decreases ps,
{
    lemma_props_v_contains(ps, x.0@);
    if ps.len() == 0 {
        assert(ps.push(x).drop_first() =~= ps);
        assert(props_v(ps.push(x)) =~= props_v(ps).insert(x.0@, value_v(x.1)));
    } else {
        assert(ps.push(x)[0] == ps[0]);
        assert(ps.push(x).drop_first() =~= ps.drop_first().push(x));
        lemma_props_v_push(ps.drop_first(), x);
        lemma_props_v_contains(ps.drop_first(), x.0@);
        if props_v(ps.drop_first()).contains_key(x.0@) {
            assert(props_v(ps.push(x)) =~= if props_v(ps).contains_key(x.0@) {
                props_v(ps)
            } else {
                props_v(ps).insert(x.0@, value_v(x.1))
            });
        } else {
            if ps[0].0@ == x.0@ {
                assert(props_v(ps.push(x)) =~= props_v(ps));
            } else {
                assert(props_v(ps.push(x)) =~= props_v(ps).insert(x.0@, value_v(x.1)));
            }
        }
    }
}

/// A name is bound exactly when some entry carries it.
pub proof fn lemma_props_v_contains(ps: Seq<(String, RuntimeValue)>, k: Seq<char>)
    ensures
        props_v(ps).contains_key(k) <==> exists|i: int| 0 <= i < ps.len() && (#[trigger] ps[i]).0@ == k,
    decreases ps,
{
    if ps.len() > 0 {
        lemma_props_v_contains(ps.drop_first(), k);
        if props_v(ps).contains_key(k) {
            if ps[0].0@ == k {
                assert(ps[0].0@ == k);
            } else {
                assert(props_v(ps.drop_first()).contains_key(k));
                let i = choose|i: int|
                    0 <= i < ps.drop_first().len() && (#[trigger] ps.drop_first()[i]).0@ == k;
                assert(ps[i + 1].0@ == k);
            }
        }
        if exists|i: int| 0 <= i < ps.len() && (#[trigger] ps[i]).0@ == k {
            let i = choose|i: int| 0 <= i < ps.len() && (#[trigger] ps[i]).0@ == k;
            if i > 0 {
                assert(ps.drop_first()[i - 1].0@ == k);
                assert(props_v(ps.drop_first()).contains_key(k));
            }
            assert(props_v(ps).contains_key(k));
        }
    }
}

/// Entries before `k` bind no occurrence of `key`, so the binding of `key`
/// is decided from `k` on.
pub proof fn lemma_props_v_skip(ps: Seq<(String, RuntimeValue)>, k: int, key: Seq<char>)
    requires
        0 <= k <= ps.len(),
        forall|j: int| 0 <= j < k ==> (#[trigger] ps[j]).0@ != key,
    ensures
        props_v(ps).contains_key(key) == props_v(ps.skip(k)).contains_key(key),
        props_v(ps).contains_key(key) ==> props_v(ps)[key] == props_v(ps.skip(k))[key],
    decreases k,
{
    if k > 0 {
        assert(ps.skip(1) =~= ps.drop_first());
        lemma_props_v_skip(ps.drop_first(), k - 1, key);
        assert(ps.drop_first().skip(k - 1) =~= ps.skip(k));
    } else {
        assert(ps.skip(0) =~= ps);
    }
}

/// Replacing the first entry of a name rebinds that name and nothing else.
pub proof fn lemma_props_v_update_first(
    ps: Seq<(String, RuntimeValue)>,
    m: int,
    x: (String, RuntimeValue),
)
    requires
        0 <= m < ps.len(),
        forall|j: int| 0 <= j < m ==> (#[trigger] ps[j]).0@ != x.0@,
        ps[m].0@ == x.0@,
    ensures
        props_v(ps.update(m, x)) == props_v(ps).insert(x.0@, value_v(x.1)),
    decreases m,
{
    if m == 0 {
        assert(ps.update(0, x).drop_first() =~= ps.drop_first());
        assert(ps.update(0, x)[0] == x);
        assert(props_v(ps.update(0, x)) =~= props_v(ps).insert(x.0@, value_v(x.1)));
    } else {
        assert(ps.update(m, x).drop_first() =~= ps.drop_first().update(m - 1, x));
        assert(ps.update(m, x)[0] == ps[0]);
        assert forall|j: int| 0 <= j < m - 1 implies (#[trigger] ps.drop_first()[j]).0@ != x.0@ by {
            assert(ps[j + 1].0@ != x.0@);
        }
        assert(ps.drop_first()[m - 1] == ps[m]);
        lemma_props_v_update_first(ps.drop_first(), m - 1, x);
        assert(props_v(ps.update(m, x)) =~= props_v(ps).insert(x.0@, value_v(x.1)));
    }
}

/// Two association lists whose entries agree in name and value views stand
/// for the same map.
pub proof fn lemma_props_v_congruent(a: Seq<(String, RuntimeValue)>, b: Seq<(String, RuntimeValue)>)
    requires
        a.len() == b.len(),
        forall|i: int|
            0 <= i < a.len() ==> (#[trigger] a[i]).0@ == b[i].0@ && value_v(a[i].1) == value_v(
                b[i].1,
            ),
    ensures
        props_v(a) == props_v(b),
    decreases a,
{
    if a.len() > 0 {
        assert forall|i: int|
            0 <= i < a.drop_first().len() implies (#[trigger] a.drop_first()[i]).0@
            == b.drop_first()[i].0@ && value_v(a.drop_first()[i].1) == value_v(
            b.drop_first()[i].1,
        ) by {
            assert(a[i + 1].0@ == b[i + 1].0@ && value_v(a[i + 1].1) == value_v(b[i + 1].1));
        }
        lemma_props_v_congruent(a.drop_first(), b.drop_first());
        assert(props_v(a) =~= props_v(b));
    } else {
        assert(props_v(a) =~= props_v(b));
    }
}

/// Finds the binding of `name` in an association list: the first entry of
/// that name.
pub fn alist_get<'a>(ps: &'a Vec<(String, RuntimeValue)>, name: &str) -> (r: Option<
    &'a RuntimeValue,
>)
    ensures
        match r {
            Option::Some(v) => props_v(ps@).contains_key(name@) && value_v(*v) == props_v(ps@)[name@],
            Option::None => !props_v(ps@).contains_key(name@),
        },
{
    let n = ps.len();
    let mut k: usize = 0;
    while k < n
        invariant
            n == ps@.len(),
            k <= n,
            forall|j: int| 0 <= j < k ==> (#[trigger] ps@[j]).0@ != name@,
        decreases n - k,
    {
        if crate::text::str_eq(ps[k].0.as_str(), name) {
            proof {
                lemma_props_v_skip(ps@, k as int, name@);
                assert(ps@.skip(k as int)[0] == ps@[k as int]);
                assert(ps@.skip(k as int).drop_first() =~= ps@.skip(k as int + 1));
            }
            return Option::Some(&ps[k].1);
        }
        k += 1;
    }
    proof {
        lemma_props_v_contains(ps@, name@);
    }
    Option::None
}

/// Binds `name` to `value`: replaces the first entry of that name, or
/// appends one. The list afterwards stands for the map with `name` inserted.
pub fn alist_set(ps: &mut Vec<(String, RuntimeValue)>, name: String, value: RuntimeValue)
    ensures
        props_v(final(ps)@) == props_v(old(ps)@).insert(name@, value_v(value)),
{
    let n = ps.len();
    let mut k: usize = 0;
    while k < n
        invariant
            n == ps@.len(),
            k <= n,
            ps@ == old(ps)@,
            forall|j: int| 0 <= j < k ==> (#[trigger] ps@[j]).0@ != name@,
        decreases n - k,
    {
        if crate::text::str_eq(ps[k].0.as_str(), name.as_str()) {
            proof {
                lemma_props_v_update_first(ps@, k as int, (name, value));
            }
            ps.set(k, (name, value));
            return ;
        }
        k += 1;
    }
    proof {
        lemma_props_v_contains(ps@, name@);
        lemma_props_v_push(ps@, (name, value));
    }
    ps.push((name, value));
}

/// Removes every entry of `name`. The list afterwards stands for the map
/// with `name` removed.
pub fn alist_remove(ps: &mut Vec<(String, RuntimeValue)>, name: &str)
    ensures
        props_v(final(ps)@) == props_v(old(ps)@).remove(name@),
{
    let n = ps.len();
    let mut res: Vec<(String, RuntimeValue)> = Vec::new();
    let mut k: usize = 0;
    while k < n
        invariant
            n == ps@.len(),
            ps@ == old(ps)@,
            k <= n,
            props_v(res@) == props_v(ps@.subrange(0, k as int)).remove(name@),
        decreases n - k,
    {
        proof {
            assert(ps@.subrange(0, k as int + 1).drop_last() =~= ps@.subrange(0, k as int));
            assert(ps@.subrange(0, k as int + 1).last() == ps@[k as int]);
            assert(ps@.subrange(0, k as int + 1) =~= ps@.subrange(0, k as int).push(ps@[k as int]));
            lemma_props_v_push(ps@.subrange(0, k as int), ps@[k as int]);
        }
        let keep = !crate::text::str_eq(ps[k].0.as_str(), name);
        if keep {
            let entry = (ps[k].0.clone(), ps[k].1.clone());
            proof {
                lemma_props_v_push(res@, entry);
                assert(entry.0@ == ps@[k as int].0@ && value_v(entry.1) == value_v(ps@[k as int].1));
            }
            res.push(entry);
            proof {
                assert(props_v(res@) =~= props_v(ps@.subrange(0, k as int + 1)).remove(name@));
            }
        } else {
            proof {
                assert(props_v(ps@.subrange(0, k as int + 1)).remove(name@) =~= props_v(
                    ps@.subrange(0, k as int),
                ).remove(name@));
            }
        }
        k += 1;
    }
    proof {
        assert(ps@.subrange(0, n as int) =~= ps@);
    }
    *ps = res;
}

impl Clone for RuntimeValue {
    /// Deep copy; the views coincide.
    fn clone(&self) -> (res: Self)
        ensures
            res@ == self@,
        decreases *self,
    {
        match self {
            RuntimeValue::Null => RuntimeValue::Null,
            RuntimeValue::Number { value } => RuntimeValue::Number { value: *value },
            RuntimeValue::Bool { value } => RuntimeValue::Bool { value: *value },
            RuntimeValue::Object(o) => {
                let r = RuntimeValue::Object(o.clone());
                proof {
                    assert(r@ == self@);
                }
                r
            },
            RuntimeValue::NativeFunction { body } => RuntimeValue::NativeFunction { body: *body },
            RuntimeValue::Function { name, params, decl_env, body } => {
                let r = RuntimeValue::Function {
                    name: name.clone(),
                    params: crate::ast::clone_string_vec(params),
                    decl_env: decl_env.clone(),
                    body: crate::ast::clone_stmt_vec(body),
                };
                proof {
                    assert(r@ == self@);
                }
                r
            },
            RuntimeValue::Str { value } => RuntimeValue::Str { value: value.clone() },
            RuntimeValue::Array { elements } => {
                let r = RuntimeValue::Array { elements: clone_value_vec(elements) };
                proof {
                    assert(r@ == self@);
                }
                r
            },
        }
    }
}

pub fn clone_value_vec(vs: &Vec<RuntimeValue>) -> (res: Vec<RuntimeValue>)
    ensures
        value_seq_v(res@) == value_seq_v(vs@),
    decreases vs@,
{
    let mut res: Vec<RuntimeValue> = Vec::new();
    let mut i: usize = 0;
    while i < vs.len()
        invariant
            i <= vs@.len(),
            res@.len() == i,
            forall|j: int| 0 <= j < i ==> value_v(#[trigger] res@[j]) == value_v(vs@[j]),
        decreases vs@.len() - i,
    {
        proof {
            assert(decreases_to!(vs@ => vs@[i as int]));
        }
        let v = (&vs[i]).clone();
        res.push(v);
        i += 1;
    }
    proof {
        lemma_value_seq_v(res@);
        lemma_value_seq_v(vs@);
        assert(value_seq_v(res@) =~= value_seq_v(vs@));
    }
    res
}

pub fn clone_prop_list(ps: &Vec<(String, RuntimeValue)>) -> (res: Vec<(String, RuntimeValue)>)
    ensures
        props_v(res@) == props_v(ps@),
    decreases ps@,
{
    let mut res: Vec<(String, RuntimeValue)> = Vec::new();
    let mut i: usize = 0;
    while i < ps.len()
        invariant
            i <= ps@.len(),
            res@.len() == i,
            forall|j: int|
                0 <= j < i ==> (#[trigger] res@[j]).0@ == ps@[j].0@ && value_v(res@[j].1)
                    == value_v(ps@[j].1),
        decreases ps@.len() - i,
    {
        proof {
            assert(decreases_to!(ps@ => ps@[i as int]));
            assert(decreases_to!(ps@[i as int] => ps@[i as int].1));
        }
        let entry = (ps[i].0.clone(), ps[i].1.clone());
        res.push(entry);
        i += 1;
    }
    proof {
        lemma_props_v_congruent(res@, ps@);
    }
    res
}

impl Clone for Object {
    /// Deep copy; the views coincide.
    fn clone(&self) -> (res: Self)
        ensures
            res@ == self@,
        decreases *self,
    {
        Object { properties: clone_prop_list(&self.properties) }
    }
}

/// Same-variant equality of primitive values: numbers, strings, booleans and
/// null compare within their own variant; everything else is unequal.
pub open spec fn shallow_eq(a: ValueV, b: ValueV) -> bool {
    match (a, b) {
        (ValueV::Number { value: x }, ValueV::Number { value: y }) => x == y,
        (ValueV::Str { value: x }, ValueV::Str { value: y }) => x == y,
        (ValueV::Bool { value: x }, ValueV::Bool { value: y }) => x == y,
        (ValueV::Null, ValueV::Null) => true,
        _ => false,
    }
}

/// Tests two values for same-variant equality and returns `value_if_eq` when
/// they are equal, its negation otherwise.
pub fn equals(lhs: RuntimeValue, rhs: RuntimeValue, value_if_eq: bool) -> (r: bool)
    ensures
        r == if shallow_eq(lhs@, rhs@) {
            value_if_eq
        } else {
            !value_if_eq
        },
{
    let eq = match (&lhs, &rhs) {
        (RuntimeValue::Number { value: x }, RuntimeValue::Number { value: y }) => *x == *y,
        (RuntimeValue::Str { value: x }, RuntimeValue::Str { value: y }) => crate::text::str_eq(
            x.as_str(),
            y.as_str(),
        ),
        (RuntimeValue::Bool { value: x }, RuntimeValue::Bool { value: y }) => *x == *y,
        (RuntimeValue::Null, RuntimeValue::Null) => true,
        _ => false,
    };
    if eq {
        value_if_eq
    } else {
        !value_if_eq
    }
}

/// The language's value equality, from position `i` on in two element
/// sequences of equal length.
pub open spec fn value_seq_eq_from(x: Seq<ValueV>, y: Seq<ValueV>, i: int) -> bool
    decreases x, (x.len() - i),
{
    if i < 0 || i >= x.len() || i >= y.len() {
        true
    } else {
        value_eq_v(x[i], y[i]) && value_seq_eq_from(x, y, i + 1)
    }
}

/// The language's value equality: defined within a variant for null,
/// numbers, booleans and strings, element-wise for arrays; objects and
/// functions never compare equal.
pub open spec fn value_eq_v(a: ValueV, b: ValueV) -> bool
    decreases a, 0int,
{
    match (a, b) {
        (ValueV::Null, ValueV::Null) => true,
        (ValueV::Number { value: x }, ValueV::Number { value: y }) => x == y,
        (ValueV::Bool { value: x }, ValueV::Bool { value: y }) => x == y,
        (ValueV::Str { value: x }, ValueV::Str { value: y }) => x == y,
        (ValueV::Array { elements: x }, ValueV::Array { elements: y }) => x.len() == y.len()
            && value_seq_eq_from(x, y, 0),
        _ => false,
    }
}

/// Decides the language's value equality, proved against `value_eq_v`.
#[verifier::loop_isolation(false)]
pub fn value_eq(a: &RuntimeValue, b: &RuntimeValue) -> (r: bool)
    ensures
        r == value_eq_v(a@, b@),
    decreases *a,
{
    match (a, b) {
        (RuntimeValue::Null, RuntimeValue::Null) => true,
        (RuntimeValue::Number { value: x }, RuntimeValue::Number { value: y }) => *x == *y,
        (RuntimeValue::Bool { value: x }, RuntimeValue::Bool { value: y }) => *x == *y,
        (RuntimeValue::Str { value: x }, RuntimeValue::Str { value: y }) => crate::text::str_eq(
            x.as_str(),
            y.as_str(),
        ),
        (RuntimeValue::Array { elements: x }, RuntimeValue::Array { elements: y }) => {
            proof {
                lemma_value_seq_v(x@);
                lemma_value_seq_v(y@);
            }
            if x.len() != y.len() {
                return false;
            }
            let n = x.len();
            let mut i: usize = 0;
            while i < n
                invariant
                    n == x@.len(),
                    n == y@.len(),
                    i <= n,
                    value_seq_v(x@).len() == n,
                    value_seq_v(y@).len() == n,
                    forall|j: int| 0 <= j < n ==> #[trigger] value_seq_v(x@)[j] == value_v(x@[j]),
                    forall|j: int| 0 <= j < n ==> #[trigger] value_seq_v(y@)[j] == value_v(y@[j]),
                    value_seq_eq_from(value_seq_v(x@), value_seq_v(y@), 0) == value_seq_eq_from(
                        value_seq_v(x@),
                        value_seq_v(y@),
                        i as int,
                    ),
                decreases n - i,
            {
                proof {
                    assert(decreases_to!(*a => (*a)->Array_elements));
                    assert(decreases_to!((*a)->Array_elements => x@[i as int]));
                }
                let e = value_eq(&x[i], &y[i]);
                if !e {
                    return false;
                }
                i += 1;
            }
            true
        },
        _ => false,
    }
}

/// The display rendering of the elements of an array from position `i` on:
/// each element's rendering (strings quoted), separated by `", "`.
pub open spec fn render_elems(es: Seq<ValueV>, i: int) -> Seq<char>
    decreases es, (es.len() - i), 1int,
{
    if i < 0 || i >= es.len() {
        Seq::empty()
    } else if i + 1 < es.len() {
        render_elem(es[i]) + ", "@ + render_elems(es, i + 1)
    } else {
        render_elem(es[i])
    }
}

/// The rendering of one array element: strings are quoted, everything else
/// renders as at top level.
pub open spec fn render_elem(e: ValueV) -> Seq<char>
    decreases e, 0int, 1int,
{
    match e {
        ValueV::Str { value } => seq!['"'] + value + seq!['"'],
        _ => render_v(e),
    }
}

/// The display rendering of a value: numbers, strings, booleans and null as
/// their literal text, arrays as a bracketed, comma-separated list of their
/// elements' renderings; objects and functions render as opaque tags.
pub open spec fn render_v(v: ValueV) -> Seq<char>
    decreases v, 0int, 0int,
{
    match v {
        ValueV::Null => "null"@,
        ValueV::Number { value } => int_str(value as int),
        ValueV::Bool { value } => if value {
            "true"@
        } else {
            "false"@
        },
        ValueV::Str { value } => value,
        ValueV::Array { elements } => "["@ + render_elems(elements, 0) + "]"@,
        ValueV::Object { .. } => "<object>"@,
        ValueV::Function { name, .. } => "<func "@ + name + ">"@,
        ValueV::NativeFunction { .. } => "<native func>"@,
    }
}

fn render_element(e: &RuntimeValue) -> (s: String)
    ensures
        s@ == render_elem(e@),
    decreases *e, 0int, 1int,
{
    match e {
        RuntimeValue::Str { value } => {
            let mut s = "\"".to_owned();
            s.append(value.as_str());
            s.append("\"");
            proof {
                reveal_strlit("\"");
                assert(s@ =~= render_elem(e@));
            }
            s
        },
        _ => render(e),
    }
}

/// Renders a value's display form, proved against `render_v`.
#[verifier::loop_isolation(false)]
pub fn render(v: &RuntimeValue) -> (s: String)
    ensures
        s@ == render_v(v@),
    decreases *v, 0int, 0int,
{
    match v {
        RuntimeValue::Null => "null".to_owned(),
        RuntimeValue::Number { value } => int_to_string(*value),
        RuntimeValue::Bool { value } => if *value {
            "true".to_owned()
        } else {
            "false".to_owned()
        },
        RuntimeValue::Str { value } => value.clone(),
        RuntimeValue::Array { elements } => {
            proof {
                lemma_value_seq_v(elements@);
            }
            let ghost esv = value_seq_v(elements@);
            let mut s = "[".to_owned();
            let n = elements.len();
            let mut i: usize = 0;
            while i < n
                invariant
                    n == elements@.len(),
                    i <= n,
                    esv == value_seq_v(elements@),
                    esv.len() == n,
                    forall|j: int| 0 <= j < n ==> #[trigger] esv[j] == value_v(elements@[j]),
                    s@ + render_elems(esv, i as int) == "["@ + render_elems(esv, 0),
                decreases n - i,
            {
                proof {
                    assert(decreases_to!(*v => (*v)->Array_elements));
                    assert(decreases_to!((*v)->Array_elements => elements@[i as int]));
                }
                let piece = render_element(&elements[i]);
                s.append(piece.as_str());
                if i + 1 < n {
                    s.append(", ");
                    proof {
                        assert(s@ + render_elems(esv, i + 1 as int) =~= "["@ + render_elems(
                            esv,
                            0,
                        ));
                    }
                } else {
                    proof {
                        assert(s@ + render_elems(esv, i + 1 as int) =~= "["@ + render_elems(
                            esv,
                            0,
                        ));
                    }
                }
                i += 1;
            }
            s.append("]");
            proof {
                assert(render_elems(esv, n as int) =~= Seq::<char>::empty());
                assert(s@ =~= render_v(v@));
            }
            s
        },
        RuntimeValue::Object(..) => "<object>".to_owned(),
        RuntimeValue::Function { name, .. } => {
            let mut s = "<func ".to_owned();
            s.append(name.as_str());
            s.append(">");
            proof {
                assert(s@ =~= render_v(v@));
            }
            s
        },
        RuntimeValue::NativeFunction { .. } => "<native func>".to_owned(),
    }
}

} // verus!
