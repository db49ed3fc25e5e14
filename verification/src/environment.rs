//! The chained lexical environment: a node owning a mapping from names to
//! values, a set of names marked immutable, and a link to the enclosing
//! scope. Resolution walks outward from the innermost node; shadowing a
//! parent's name in a child is legal. Within one node a name may be declared
//! at most once.

use vstd::prelude::*;

use crate::errors::{Error, ErrorKind};
use crate::text::str_eq;
use crate::values::{
    alist_get, alist_remove, alist_set, clone_prop_list, props_v, NativeFn, Object, RuntimeValue,
    ValueV, value_v,
};

verus! {

/// One scope node.
pub struct Environment {
    pub parent: Option<Box<Environment>>,
    pub variables: Vec<(String, RuntimeValue)>,
    pub constants: Vec<String>,
}

/// The mathematical view of a scope chain.
pub struct EnvV {
    pub vars: Map<Seq<char>, ValueV>,
    pub consts: Set<Seq<char>>,
    pub parent: Option<Box<EnvV>>,
}

/// The set of names an immutability list stands for.
pub open spec fn names_set(ss: Seq<String>) -> Set<Seq<char>>
    decreases ss,
{
    if ss.len() == 0 {
        Set::empty()
    } else {
        names_set(ss.drop_first()).insert(ss[0]@)
    }
}

pub open spec fn env_v(e: Environment) -> EnvV
    decreases e,
{
    EnvV {
        vars: props_v(e.variables@),
        consts: names_set(e.constants@),
        parent: match e.parent {
            Option::None => Option::None,
            Option::Some(p) => Option::Some(Box::new(env_v(*p))),
        },
    }
}

impl View for Environment {
    type V = EnvV;

    open spec fn view(&self) -> EnvV {
        env_v(*self)
    }
}

/// Resolution of a name: the value bound in the innermost scope defining it.
pub open spec fn env_lookup(e: EnvV, name: Seq<char>) -> Option<ValueV>
    decreases e,
{
    if e.vars.contains_key(name) {
        Option::Some(e.vars[name])
    } else {
        match e.parent {
            Option::None => Option::None,
            Option::Some(p) => env_lookup(*p, name),
        }
    }
}

/// The innermost scope defining a name, if any.
pub open spec fn env_resolve(e: EnvV, name: Seq<char>) -> Option<EnvV>
    decreases e,
{
    if e.vars.contains_key(name) {
        Option::Some(e)
    } else {
        match e.parent {
            Option::None => Option::None,
            Option::Some(p) => env_resolve(*p, name),
        }
    }
}

/// Declaration in the current node: fails exactly when the node already
/// defines the name; records the name as immutable when `mutable` is false.
pub open spec fn env_declare(e: EnvV, name: Seq<char>, v: ValueV, mutable: bool) -> Result<
    EnvV,
    ErrorKind,
> {
    if e.vars.contains_key(name) {
        Result::Err(ErrorKind::DuplicateDecl)
    } else {
        Result::Ok(
            EnvV {
                vars: e.vars.insert(name, v),
                consts: if mutable {
                    e.consts
                } else {
                    e.consts.insert(name)
                },
                parent: e.parent,
            },
        )
    }
}

/// Assignment: rebinds the name in the innermost scope defining it; fails
/// exactly when no scope defines it (a name-resolution error) or when the
/// defining scope marked it immutable (an immutability error).
pub open spec fn env_assign(e: EnvV, name: Seq<char>, v: ValueV) -> Result<EnvV, ErrorKind>
    decreases e,
{
    if e.vars.contains_key(name) {
        if e.consts.contains(name) {
            Result::Err(ErrorKind::Immutability)
        } else {
            Result::Ok(EnvV { vars: e.vars.insert(name, v), consts: e.consts, parent: e.parent })
        }
    } else {
        match e.parent {
            Option::None => Result::Err(ErrorKind::NameResolution),
            Option::Some(p) => match env_assign(*p, name, v) {
                Result::Ok(p2) => Result::Ok(
                    EnvV { vars: e.vars, consts: e.consts, parent: Option::Some(Box::new(p2)) },
                ),
                Result::Err(k) => Result::Err(k),
            },
        }
    }
}

/// Removal from the current node only: the name's binding and its
/// immutability mark are dropped; never fails.
pub open spec fn env_remove(e: EnvV, name: Seq<char>) -> EnvV {
    EnvV { vars: e.vars.remove(name), consts: e.consts.remove(name), parent: e.parent }
}

pub proof fn lemma_names_set_push(ss: Seq<String>, x: String)
    ensures
        names_set(ss.push(x)) == names_set(ss).insert(x@),
    decreases ss,
{
    if ss.len() == 0 {
        assert(ss.push(x).drop_first() =~= ss);
        assert(names_set(ss.push(x)) =~= names_set(ss).insert(x@));
    } else {
        assert(ss.push(x)[0] == ss[0]);
        assert(ss.push(x).drop_first() =~= ss.drop_first().push(x));
        lemma_names_set_push(ss.drop_first(), x);
        assert(names_set(ss.push(x)) =~= names_set(ss).insert(x@));
    }
}

pub proof fn lemma_names_set_contains(ss: Seq<String>, k: Seq<char>)
    ensures
        names_set(ss).contains(k) <==> exists|i: int| 0 <= i < ss.len() && (#[trigger] ss[i])@ == k,
    decreases ss,
{
    if ss.len() > 0 {
        lemma_names_set_contains(ss.drop_first(), k);
        if names_set(ss).contains(k) {
            if ss[0]@ == k {
                assert(ss[0]@ == k);
            } else {
                assert(names_set(ss.drop_first()).contains(k));
                let i = choose|i: int|
                    0 <= i < ss.drop_first().len() && (#[trigger] ss.drop_first()[i])@ == k;
                assert(ss[i + 1]@ == k);
            }
        }
        if exists|i: int| 0 <= i < ss.len() && (#[trigger] ss[i])@ == k {
            let i = choose|i: int| 0 <= i < ss.len() && (#[trigger] ss[i])@ == k;
            if i > 0 {
                assert(ss.drop_first()[i - 1]@ == k);
                assert(names_set(ss.drop_first()).contains(k));
            }
            assert(names_set(ss).contains(k));
        }
    }
}

fn names_contains(ss: &Vec<String>, name: &str) -> (r: bool)
    ensures
        r == names_set(ss@).contains(name@),
{
    proof {
        lemma_names_set_contains(ss@, name@);
    }
    let n = ss.len();
    let mut k: usize = 0;
    while k < n
        invariant
            n == ss@.len(),
            k <= n,
            forall|j: int| 0 <= j < k ==> (#[trigger] ss@[j])@ != name@,
            names_set(ss@).contains(name@) <==> exists|i: int|
                0 <= i < ss@.len() && (#[trigger] ss@[i])@ == name@,
        decreases n - k,
    {
        if str_eq(ss[k].as_str(), name) {
            return true;
        }
        k += 1;
    }
    proof {
        assert(!(exists|i: int| 0 <= i < ss@.len() && (#[trigger] ss@[i])@ == name@));
    }
    false
}

fn names_remove(ss: &mut Vec<String>, name: &str)
    ensures
        names_set(final(ss)@) == names_set(old(ss)@).remove(name@),
{
    let n = ss.len();
    let mut res: Vec<String> = Vec::new();
    let mut k: usize = 0;
    while k < n
        invariant
            n == ss@.len(),
            ss@ == old(ss)@,
            k <= n,
            names_set(res@) == names_set(ss@.subrange(0, k as int)).remove(name@),
        decreases n - k,
    {
        proof {
            assert(ss@.subrange(0, k as int + 1) =~= ss@.subrange(0, k as int).push(ss@[k as int]));
            lemma_names_set_push(ss@.subrange(0, k as int), ss@[k as int]);
        }
        if !str_eq(ss[k].as_str(), name) {
            let entry = ss[k].clone();
            proof {
                lemma_names_set_push(res@, entry);
            }
            res.push(entry);
            proof {
                assert(names_set(res@) =~= names_set(ss@.subrange(0, k as int + 1)).remove(name@));
            }
        } else {
            proof {
                assert(names_set(ss@.subrange(0, k as int + 1)).remove(name@) =~= names_set(
                    ss@.subrange(0, k as int),
                ).remove(name@));
            }
        }
        k += 1;
    }
    proof {
        assert(ss@.subrange(0, n as int) =~= ss@);
    }
    *ss = res;
}

impl Clone for Environment {
    /// Deep copy of the whole scope chain; the views coincide. This is the
    /// snapshot a closure captures at declaration time.
    fn clone(&self) -> (res: Self)
        ensures
            res@ == self@,
        decreases *self,
    {
        let r = Environment {
            parent: match &self.parent {
                Option::None => Option::None,
                Option::Some(p) => Option::Some(Box::new((**p).clone())),
            },
            variables: clone_prop_list(&self.variables),
            constants: crate::ast::clone_string_vec(&self.constants),
        };
        proof {
            lemma_names_set_congruent(r.constants@, self.constants@);
            assert(r@ =~= self@);
        }
        r
    }
}

pub proof fn lemma_names_set_congruent(a: Seq<String>, b: Seq<String>)
    requires
        a.len() == b.len(),
        forall|i: int| 0 <= i < a.len() ==> (#[trigger] a[i])@ == b[i]@,
    ensures
        names_set(a) == names_set(b),
    decreases a,
{
    if a.len() > 0 {
        assert forall|i: int|
            0 <= i < a.drop_first().len() implies (#[trigger] a.drop_first()[i])@
            == b.drop_first()[i]@ by {
            assert(a[i + 1]@ == b[i + 1]@);
        }
        lemma_names_set_congruent(a.drop_first(), b.drop_first());
        assert(names_set(a) =~= names_set(b));
    } else {
        assert(names_set(a) =~= names_set(b));
    }
}

impl Environment {
    /// A fresh scope node, childless of bindings, linked under the given
    /// enclosing scope.
    pub fn new(parent_env: Option<Environment>) -> (r: Environment)
        ensures
            r@.vars == Map::<Seq<char>, ValueV>::empty(),
            r@.consts == Set::<Seq<char>>::empty(),
            r@.parent == match parent_env {
                Option::None => Option::<Box<EnvV>>::None,
                Option::Some(p) => Option::Some(Box::new(p@)),
            },
    {
        let r = Environment {
            parent: match parent_env {
                Option::None => Option::None,
                Option::Some(p) => Option::Some(Box::new(p)),
            },
            variables: Vec::new(),
            constants: Vec::new(),
        };
        proof {
            assert(r.variables@.len() == 0);
            assert(r.constants@.len() == 0);
            assert(r@.vars == props_v(r.variables@));
            assert(props_v(r.variables@) == Map::<Seq<char>, ValueV>::empty());
            assert(r@.consts =~= Set::<Seq<char>>::empty());
        }
        r
    }

    /// Declares `name` in this node; see `env_declare`. Returns a copy of the
    /// declared value, or a duplicate-declaration error if this node already
    /// defines `name` (the environment is then unchanged).
    pub fn declare_var(&mut self, name: String, value: RuntimeValue, mutable: bool) -> (r: Result<
        RuntimeValue,
        Error,
    >)
        ensures
            match env_declare(old(self)@, name@, value_v(value), mutable) {
                Result::Ok(e2) => r is Ok && r->Ok_0@ == value_v(value) && final(self)@ == e2,
                Result::Err(k) => r is Err && r->Err_0.kind == k && final(self)@ == old(self)@,
            },
    {
        let defined = match alist_get(&self.variables, name.as_str()) {
            Option::Some(_) => true,
            Option::None => false,
        };
        if defined {
            return Result::Err(Error::new(ErrorKind::DuplicateDecl, "name already declared"));
        }
        if !mutable {
            proof {
                lemma_names_set_push(self.constants@, name);
            }
            self.constants.push(name.clone());
        }
        let ret = value.clone();
        alist_set(&mut self.variables, name, value);
        Result::Ok(ret)
    }

    /// Removes `name` from this node only; never fails, returns null.
    pub fn void_var(&mut self, name: String) -> (r: RuntimeValue)
        ensures
            final(self)@ == env_remove(old(self)@, name@),
            r@ == ValueV::Null,
    {
        alist_remove(&mut self.variables, name.as_str());
        names_remove(&mut self.constants, name.as_str());
        RuntimeValue::Null
    }

    /// Assigns `value` to `name` in the innermost scope defining it; see
    /// `env_assign`. Returns a copy of the assigned value, an immutability
    /// error if the defining scope marked `name` immutable, a name-resolution
    /// error if no scope defines it (the environment is then unchanged).
    pub fn assign_var(&mut self, name: String, value: &RuntimeValue) -> (r: Result<
        RuntimeValue,
        Error,
    >)
        ensures
            match env_assign(old(self)@, name@, value@) {
                Result::Ok(e2) => r is Ok && r->Ok_0@ == value@ && final(self)@ == e2,
                Result::Err(k) => r is Err && r->Err_0.kind == k && final(self)@ == old(self)@,
            },
        decreases *old(self),
    {
        let defined = match alist_get(&self.variables, name.as_str()) {
            Option::Some(_) => true,
            Option::None => false,
        };
        if defined {
            if names_contains(&self.constants, name.as_str()) {
                return Result::Err(Error::new(ErrorKind::Immutability, "cannot assign to constant"));
            }
            let ret = value.clone();
            alist_set(&mut self.variables, name, ret);
            Result::Ok(value.clone())
        } else {
            match &mut self.parent {
                Option::Some(p) => {
                    let r = (&mut **p).assign_var(name, value);
                    match r {
                        Result::Ok(v) => Result::Ok(v),
                        Result::Err(e) => Result::Err(e),
                    }
                },
                Option::None => Result::Err(
                    Error::new(ErrorKind::NameResolution, "name is not defined"),
                ),
            }
        }
    }

    /// Looks `name` up through the scope chain; see `env_lookup`. Returns a
    /// copy of the bound value, or a name-resolution error if no scope
    /// defines it.
    pub fn lookup_var(&self, name: String) -> (r: Result<RuntimeValue, Error>)
        ensures
            match env_lookup(self@, name@) {
                Option::Some(v) => r is Ok && r->Ok_0@ == v,
                Option::None => r is Err && r->Err_0.kind == ErrorKind::NameResolution,
            },
        decreases *self,
    {
        match alist_get(&self.variables, name.as_str()) {
            Option::Some(v) => Result::Ok(v.clone()),
            Option::None => {
                match &self.parent {
                    Option::Some(p) => (&**p).lookup_var(name),
                    Option::None => Result::Err(
                        Error::new(ErrorKind::NameResolution, "name is not defined"),
                    ),
                }
            },
        }
    }

    /// The innermost scope defining `name`, if any; see `env_resolve`.
    pub fn resolve(&self, name: &str) -> (r: Option<&Environment>)
        ensures
            match r {
                Option::Some(e) => env_resolve(self@, name@) == Option::Some(e@),
                Option::None => env_resolve(self@, name@) is None,
            },
        decreases *self,
    {
        let defined = match alist_get(&self.variables, name) {
            Option::Some(_) => true,
            Option::None => false,
        };
        if defined {
            Option::Some(self)
        } else {
            match &self.parent {
                Option::Some(p) => (&**p).resolve(name),
                Option::None => Option::None,
            }
        }
    }
}

} // verus!

// The global scope: the pre-declared immutable bindings every program sees.
verus! {

broadcast use vstd::string::group_string_axioms;

/// The pre-declared builtin names are pairwise distinct.
proof fn lemma_builtin_names_distinct()
    ensures
        "true"@ != "false"@,
        "true"@ != "null"@,
        "true"@ != "print!"@,
        "true"@ != "Date"@,
        "true"@ != "Array"@,
        "false"@ != "null"@,
        "false"@ != "print!"@,
        "false"@ != "Date"@,
        "false"@ != "Array"@,
        "null"@ != "print!"@,
        "null"@ != "Date"@,
        "null"@ != "Array"@,
        "print!"@ != "Date"@,
        "print!"@ != "Array"@,
        "Date"@ != "Array"@,
        "new"@ != "from"@,
        "new"@ != "has"@,
        "new"@ != "concat"@,
        "from"@ != "has"@,
        "from"@ != "concat"@,
        "has"@ != "concat"@,
{
    reveal_strlit("true");
    reveal_strlit("false");
    reveal_strlit("null");
    reveal_strlit("print!");
    reveal_strlit("Date");
    reveal_strlit("Array");
    reveal_strlit("new");
    reveal_strlit("from");
    reveal_strlit("has");
    reveal_strlit("concat");
    assert("true"@.len() == 4);
    assert("false"@.len() == 5);
    assert("null"@.len() == 4);
    assert("print!"@.len() == 6);
    assert("Date"@.len() == 4);
    assert("Array"@.len() == 5);
    assert("new"@.len() == 3);
    assert("from"@.len() == 4);
    assert("has"@.len() == 3);
    assert("concat"@.len() == 6);
    assert("true"@[0] == 't');
    assert("null"@[0] == 'n');
    assert("Date"@[0] == 'D');
    assert("from"@[0] == 'f');
    assert("false"@[0] == 'f');
    assert("Array"@[0] == 'A');
    assert("new"@[0] == 'n');
    assert("has"@[0] == 'h');
    assert("print!"@[0] == 'p');
    assert("concat"@[0] == 'c');
}

/// The `Date` builtin object: one member, `now`.
pub open spec fn date_obj_v() -> ValueV {
    ValueV::Object {
        properties: Map::<Seq<char>, ValueV>::empty().insert(
            "now"@,
            ValueV::NativeFunction { body: NativeFn::DateNow },
        ),
    }
}

/// The `Array` builtin object: members `new`, `from`, `has`, `concat`.
pub open spec fn array_obj_v() -> ValueV {
    ValueV::Object {
        properties: Map::<Seq<char>, ValueV>::empty().insert(
            "new"@,
            ValueV::NativeFunction { body: NativeFn::ArrayNew },
        ).insert("from"@, ValueV::NativeFunction { body: NativeFn::ArrayFrom }).insert(
            "has"@,
            ValueV::NativeFunction { body: NativeFn::ArrayHas },
        ).insert("concat"@, ValueV::NativeFunction { body: NativeFn::ArrayConcat }),
    }
}

/// The global scope: `true`, `false`, `null`, `print!`, `Date` and `Array`,
/// all immutable, no parent.
pub open spec fn global_env_v() -> EnvV {
    EnvV {
        vars: Map::<Seq<char>, ValueV>::empty().insert("true"@, ValueV::Bool { value: true })
            .insert("false"@, ValueV::Bool { value: false }).insert("null"@, ValueV::Null).insert(
            "print!"@,
            ValueV::NativeFunction { body: NativeFn::Print },
        ).insert("Date"@, date_obj_v()).insert("Array"@, array_obj_v()),
        consts: Set::<Seq<char>>::empty().insert("true"@).insert("false"@).insert("null"@).insert(
            "print!"@,
        ).insert("Date"@).insert("Array"@),
        parent: Option::None,
    }
}

/// Builds the global scope that every program runs against; the builtins are
/// declared immutably before any user code runs.
pub fn create_global_environment() -> (r: Environment)
    ensures
        r@ == global_env_v(),
{
    proof {
        lemma_builtin_names_distinct();
    }
    let mut env = Environment::new(Option::None);
    match env.declare_var("true".to_owned(), RuntimeValue::Bool { value: true }, false) {
        Result::Ok(_) => {},
        Result::Err(_) => {
            proof {
                assert(false);
            }
        },
    }
    match env.declare_var("false".to_owned(), RuntimeValue::Bool { value: false }, false) {
        Result::Ok(_) => {},
        Result::Err(_) => {
            proof {
                assert(false);
            }
        },
    }
    match env.declare_var("null".to_owned(), RuntimeValue::Null, false) {
        Result::Ok(_) => {},
        Result::Err(_) => {
            proof {
                assert(false);
            }
        },
    }
    match env.declare_var(
        "print!".to_owned(),
        RuntimeValue::NativeFunction { body: NativeFn::Print },
        false,
    ) {
        Result::Ok(_) => {},
        Result::Err(_) => {
            proof {
                assert(false);
            }
        },
    }
    let mut date_props: Vec<(String, RuntimeValue)> = Vec::new();
    proof {
        assert(props_v(date_props@) =~= Map::<Seq<char>, ValueV>::empty());
    }
    alist_set(
        &mut date_props,
        "now".to_owned(),
        RuntimeValue::NativeFunction { body: NativeFn::DateNow },
    );
    let date = RuntimeValue::Object(Object { properties: date_props });
    proof {
        assert(date@ == date_obj_v());
    }
    match env.declare_var("Date".to_owned(), date, false) {
        Result::Ok(_) => {},
        Result::Err(_) => {
            proof {
                assert(false);
            }
        },
    }
    let mut array_props: Vec<(String, RuntimeValue)> = Vec::new();
    proof {
        assert(props_v(array_props@) =~= Map::<Seq<char>, ValueV>::empty());
    }
    alist_set(
        &mut array_props,
        "new".to_owned(),
        RuntimeValue::NativeFunction { body: NativeFn::ArrayNew },
    );
    alist_set(
        &mut array_props,
        "from".to_owned(),
        RuntimeValue::NativeFunction { body: NativeFn::ArrayFrom },
    );
    alist_set(
        &mut array_props,
        "has".to_owned(),
        RuntimeValue::NativeFunction { body: NativeFn::ArrayHas },
    );
    alist_set(
        &mut array_props,
        "concat".to_owned(),
        RuntimeValue::NativeFunction { body: NativeFn::ArrayConcat },
    );
    let arr = RuntimeValue::Object(Object { properties: array_props });
    proof {
        assert(arr@ == array_obj_v());
    }
    match env.declare_var("Array".to_owned(), arr, false) {
        Result::Ok(_) => {},
        Result::Err(_) => {
            proof {
                assert(false);
            }
        },
    }
    proof {
        assert(env@.vars =~= global_env_v().vars);
        assert(env@.consts =~= global_env_v().consts);
    }
    env
}

} // verus!
