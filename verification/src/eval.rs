//! The executable evaluator: the two-tier environment, symbol resolution,
//! the builtin registry, and `eval` itself, each proved to return exactly
//! what the semantics in `sem` says.

use vstd::prelude::*;
use vstd::string::StrSliceExecFns;

use crate::nums::u64_to_string;
use crate::sem::lemma_eval_args_len;
use crate::sem::lookup_from;
use crate::sem::lookup_source;
use crate::sem::pairs;
use crate::sem::spec_add_loop;
use crate::sem::spec_apply;
use crate::sem::spec_apply_closure;
use crate::sem::spec_cons;
use crate::sem::spec_def;
use crate::sem::spec_eq;
use crate::sem::spec_eq_loop;
use crate::sem::spec_eval;
use crate::sem::spec_eval_args;
use crate::sem::spec_first;
use crate::sem::spec_if;
use crate::sem::spec_import;
use crate::sem::spec_is_empty;
use crate::sem::spec_lambda;
use crate::sem::spec_make_list;
use crate::sem::spec_params_from;
use crate::sem::spec_resolve;
use crate::sem::spec_rest;
use crate::sem::spec_run_forms;
use crate::sem::spec_trampoline;
use crate::sem::spec_truthy;
use crate::sem::sv_eq;
use crate::sem::sv_eq_seq;
use crate::sem::AOut;
use crate::sem::Bindings;
use crate::sem::SOut;
use crate::sem::SpecCtx;
use crate::sem::SpecErr;
use crate::value::clone_binding_vec;
use crate::value::clone_value_vec;
use crate::value::lemma_model_bindings;
use crate::value::lemma_model_bindings_push;
use crate::value::lemma_model_params;
use crate::value::lemma_model_params_append;
use crate::value::lemma_model_params_insert0;
use crate::value::lemma_model_seq;
use crate::value::lemma_model_seq_insert0;
use crate::value::lemma_model_seq_remove0;
use crate::value::lemma_model_sources;
use crate::value::lemma_model_sources_push;
use crate::value::model_bindings;
use crate::value::model_params;
use crate::value::model_seq;
use crate::value::model_sources;
use crate::value::Builtin;
use crate::value::Closure;
use crate::value::FnKind;
use crate::value::Function;
use crate::value::SpecFnKind;
use crate::value::SpecFun;
use crate::value::SpecVal;
use crate::value::Value;

verus! {

/// What evaluation can fail with.  Every error is terminal for the enclosing
/// evaluation and propagates to the driver, the only recovery point.
#[derive(Clone, Debug, PartialEq, Eq)]
pub enum EvalError {
    /// A symbol absent from both local and global scope.
    UnresolvedSymbol(String),
    /// A list head that evaluated to a non-function.
    NotCallable,
    /// An attempt to evaluate an empty list.
    EmptyCall,
    /// A wrong argument count, naming expected and actual counts.
    ArityMismatch { expected: usize, actual: usize },
    /// An operand of the wrong variant.
    WrongType,
    /// `first` or `rest` applied to an empty list.
    EmptyListOperand,
    /// Structurally invalid special-form syntax.
    MalformedForm,
    /// An `import` whose source is not loaded; carries the path.
    ImportFailure(String),
    /// The evaluation-depth bound was reached.
    Exhausted,
}

impl EvalError {
    /// The error this stands for in the semantics.
    pub open spec fn model(self) -> SpecErr {
        match self {
            EvalError::UnresolvedSymbol(s) => SpecErr::UnresolvedSymbol(s@),
            EvalError::NotCallable => SpecErr::NotCallable,
            EvalError::EmptyCall => SpecErr::EmptyCall,
            EvalError::ArityMismatch { expected, actual } => SpecErr::ArityMismatch {
                expected: expected as nat,
                actual: actual as nat,
            },
            EvalError::WrongType => SpecErr::WrongType,
            EvalError::EmptyListOperand => SpecErr::EmptyListOperand,
            EvalError::MalformedForm => SpecErr::MalformedForm,
            EvalError::ImportFailure(s) => SpecErr::ImportFailure(s@),
            EvalError::Exhausted => SpecErr::Exhausted,
        }
    }
}

/// Whether an evaluation outcome of the semantics is exactly what an
/// executable call returned, including the state it left behind.
pub open spec fn out_matches(o: SOut, r: Result<Value, EvalError>, c_new: SpecCtx) -> bool {
    match o {
        SOut::Done(v, c2) => match r {
            Ok(rv) => rv.model() == v && c_new == c2,
            Err(_) => false,
        },
        SOut::Fail(e, c2) => match r {
            Ok(_) => false,
            Err(err) => err.model() == e && c_new == c2,
        },
    }
}

/// Character-by-character string equality.
fn str_eq_str(a: &str, b: &str) -> (r: bool)
    ensures
        r == (a@ == b@),
{
    let la = a.unicode_len();
    let lb = b.unicode_len();
    if la != lb {
        proof {
            if a@ == b@ {
                assert(a@.len() == b@.len());
            }
        }
        return false;
    }
    let mut i: usize = 0;
    while i < la
        invariant
            la == a@.len(),
            lb == b@.len(),
            la == lb,
            i <= la,
            forall|j: int| 0 <= j < i ==> a@[j] == b@[j],
        decreases la - i,
    {
        let ca = a.get_char(i);
        let cb = b.get_char(i);
        if ca != cb {
            proof {
                if a@ == b@ {
                    assert(a@[i as int] == b@[i as int]);
                }
            }
            return false;
        }
        i = i + 1;
    }
    proof {
        assert(a@ =~= b@);
    }
    true
}

/// Whether a value is the symbol `recur`.
fn head_is_recur(v: &Value) -> (r: bool)
    ensures
        r == (v.model() == SpecVal::Symbol("recur"@)),
{
    match v {
        Value::Symbol(s) => str_eq_str(s.as_str(), "recur"),
        _ => false,
    }
}

/// Only `false` and `nil` are falsy.
fn truthy(v: &Value) -> (r: bool)
    ensures
        r == spec_truthy(v.model()),
{
    match v {
        Value::Bool(b) => *b,
        Value::Nil => false,
        _ => true,
    }
}

/// Structural equality of two values, as the builtin `=` sees it: functions
/// compare by name, lists element by element, atoms by their contents.
pub fn value_eq(a: &Value, b: &Value) -> (r: bool)
    ensures
        r == sv_eq(a.model(), b.model()),
    decreases a, 0int,
{
    match (a, b) {
        (Value::Bool(x), Value::Bool(y)) => *x == *y,
        (Value::Nil, Value::Nil) => true,
        (Value::Integer(x), Value::Integer(y)) => *x == *y,
        (Value::List(xs), Value::List(ys)) => {
            let r = value_eq_from(xs, ys, 0);
            proof {
                assert(model_seq(xs@).subrange(0, model_seq(xs@).len() as int) =~= model_seq(xs@));
                assert(model_seq(ys@).subrange(0, model_seq(ys@).len() as int) =~= model_seq(ys@));
            }
            r
        },
        (Value::Function(f), Value::Function(g)) => str_eq_str(f.name.as_str(), g.name.as_str()),
        (Value::Symbol(x), Value::Symbol(y)) => str_eq_str(x.as_str(), y.as_str()),
        (Value::Str(x), Value::Str(y)) => str_eq_str(x.as_str(), y.as_str()),
        _ => false,
    }
}

/// Structural equality of two value lists from position `i` on.
fn value_eq_from(xs: &Vec<Value>, ys: &Vec<Value>, i: usize) -> (r: bool)
    requires
        i <= xs@.len(),
        i <= ys@.len(),
    ensures
        r == sv_eq_seq(
            model_seq(xs@).subrange(i as int, model_seq(xs@).len() as int),
            model_seq(ys@).subrange(i as int, model_seq(ys@).len() as int),
        ),
    decreases xs, xs@.len() - i,
{
    proof {
        lemma_model_seq(xs@);
        lemma_model_seq(ys@);
    }
    let ghost subx = model_seq(xs@).subrange(i as int, model_seq(xs@).len() as int);
    let ghost suby = model_seq(ys@).subrange(i as int, model_seq(ys@).len() as int);
    if xs.len() - i != ys.len() - i {
        return false;
    }
    if i >= xs.len() {
        return true;
    }
    proof {
        assert(subx[0] == xs@[i as int].model());
        assert(suby[0] == ys@[i as int].model());
    }
    if !value_eq(&xs[i], &ys[i]) {
        return false;
    }
    let r = value_eq_from(xs, ys, i + 1);
    proof {
        assert(subx.subrange(1, subx.len() as int) =~= model_seq(xs@).subrange(
            i + 1,
            model_seq(xs@).len() as int,
        ));
        assert(suby.subrange(1, suby.len() as int) =~= model_seq(ys@).subrange(
            i + 1,
            model_seq(ys@).len() as int,
        ));
    }
    r
}

/// The two-tier environment: the global scope, shared by every evaluation of
/// a run and mutated only by `def` and `import`; the local scope of the
/// current call frame; the loaded sources that `import` can draw on; and the
/// counter that labels new closures.
pub struct Context {
    globals: Vec<(String, Value)>,
    locals: Vec<(String, Value)>,
    sources: Vec<(String, Vec<Value>)>,
    next_id: u64,
}

impl View for Context {
    type V = SpecCtx;

    closed spec fn view(&self) -> SpecCtx {
        SpecCtx {
            globals: model_bindings(self.globals@),
            locals: model_bindings(self.locals@),
            sources: model_sources(self.sources@),
            counter: self.next_id as nat,
        }
    }
}

/// Looks a name up among the first `j` bindings; the last binding wins.
fn lookup_prefix(env: &Vec<(String, Value)>, j: usize, key: &str) -> (r: Option<Value>)
    requires
        j <= env@.len(),
    ensures
        match lookup_from(model_bindings(env@).take(j as int), key@) {
            Some(v) => r is Some && r.unwrap().model() == v,
            None => r is None,
        },
    decreases j,
{
    proof {
        lemma_model_bindings(env@);
    }
    if j == 0 {
        proof {
            assert(model_bindings(env@).take(0) =~= Seq::empty());
        }
        None
    } else {
        let ghost m = model_bindings(env@).take(j as int);
        proof {
            assert(m.last() == model_bindings(env@)[j - 1]);
            assert(m.drop_last() =~= model_bindings(env@).take(j - 1));
        }
        if str_eq_str(env[j - 1].0.as_str(), key) {
            Some(env[j - 1].1.clone())
        } else {
            lookup_prefix(env, j - 1, key)
        }
    }
}

/// Looks a path up among the first `j` loaded sources; the last wins.
fn lookup_source_prefix(ss: &Vec<(String, Vec<Value>)>, j: usize, key: &str) -> (r: Option<
    Vec<Value>,
>)
    requires
        j <= ss@.len(),
    ensures
        match lookup_source(model_sources(ss@).take(j as int), key@) {
            Some(forms) => r is Some && model_seq(r.unwrap()@) == forms,
            None => r is None,
        },
    decreases j,
{
    proof {
        lemma_model_sources(ss@);
    }
    if j == 0 {
        proof {
            assert(model_sources(ss@).take(0) =~= Seq::empty());
        }
        None
    } else {
        let ghost m = model_sources(ss@).take(j as int);
        proof {
            assert(m.last() == model_sources(ss@)[j - 1]);
            assert(m.drop_last() =~= model_sources(ss@).take(j - 1));
        }
        if str_eq_str(ss[j - 1].0.as_str(), key) {
            let forms = clone_value_vec(&ss[j - 1].1);
            proof {
                lemma_model_seq(forms@);
                lemma_model_seq(ss@[j - 1].1@);
                assert(model_seq(forms@) =~= model_seq(ss@[j - 1].1@));
            }
            Some(forms)
        } else {
            lookup_source_prefix(ss, j - 1, key)
        }
    }
}

/// The global scope a fresh `Context` starts with: the three literal
/// bindings and the builtin registry, in registration order.
pub open spec fn initial_globals() -> Bindings {
    seq![
        ("nil"@, SpecVal::Nil),
        ("true"@, SpecVal::Bool(true)),
        ("false"@, SpecVal::Bool(false)),
        ("def"@, SpecVal::Function(SpecFun { name: "def"@, kind: SpecFnKind::Native(Builtin::Define) })),
        ("if"@, SpecVal::Function(SpecFun { name: "if"@, kind: SpecFnKind::Native(Builtin::Branch) })),
        ("fn"@, SpecVal::Function(SpecFun { name: "fn"@, kind: SpecFnKind::Native(Builtin::Lambda) })),
        (
            "import"@,
            SpecVal::Function(SpecFun { name: "import"@, kind: SpecFnKind::Native(Builtin::Import) }),
        ),
        ("+"@, SpecVal::Function(SpecFun { name: "+"@, kind: SpecFnKind::Native(Builtin::Add) })),
        ("="@, SpecVal::Function(SpecFun { name: "="@, kind: SpecFnKind::Native(Builtin::Equal) })),
        (
            "list"@,
            SpecVal::Function(SpecFun { name: "list"@, kind: SpecFnKind::Native(Builtin::MakeList) }),
        ),
        (
            "first"@,
            SpecVal::Function(SpecFun { name: "first"@, kind: SpecFnKind::Native(Builtin::First) }),
        ),
        ("rest"@, SpecVal::Function(SpecFun { name: "rest"@, kind: SpecFnKind::Native(Builtin::Rest) })),
        ("cons"@, SpecVal::Function(SpecFun { name: "cons"@, kind: SpecFnKind::Native(Builtin::Cons) })),
        (
            "empty?"@,
            SpecVal::Function(SpecFun { name: "empty?"@, kind: SpecFnKind::Native(Builtin::IsEmpty) }),
        ),
    ]
}

/// The state a fresh `Context` stands in.
pub open spec fn initial_ctx() -> SpecCtx {
    SpecCtx {
        globals: initial_globals(),
        locals: Seq::empty(),
        sources: Seq::empty(),
        counter: 0,
    }
}

impl Context {
    /// A fresh environment holding exactly the builtin registry.
    pub fn new() -> (ctx: Context)
        ensures
            ctx@ == initial_ctx(),
    {
        let mut ctx = Context {
            globals: Vec::new(),
            locals: Vec::new(),
            sources: Vec::new(),
            next_id: 0,
        };
        ctx.bind_value("nil", Value::Nil);
        ctx.bind_value("true", Value::Bool(true));
        ctx.bind_value("false", Value::Bool(false));
        ctx.bind_fn("def", Builtin::Define);
        ctx.bind_fn("if", Builtin::Branch);
        ctx.bind_fn("fn", Builtin::Lambda);
        ctx.bind_fn("import", Builtin::Import);
        ctx.bind_fn("+", Builtin::Add);
        ctx.bind_fn("=", Builtin::Equal);
        ctx.bind_fn("list", Builtin::MakeList);
        ctx.bind_fn("first", Builtin::First);
        ctx.bind_fn("rest", Builtin::Rest);
        ctx.bind_fn("cons", Builtin::Cons);
        ctx.bind_fn("empty?", Builtin::IsEmpty);
        proof {
            assert(ctx@.globals =~= initial_globals());
            assert(ctx@ == initial_ctx());
        }
        ctx
    }

    /// Resolves a symbol: the local scope first, then the global one; `None`
    /// when the symbol is bound in neither.
    pub fn resolve(&self, key: &str) -> (r: Option<Value>)
        ensures
            match spec_resolve(self@, key@) {
                Some(v) => r is Some && r.unwrap().model() == v,
                None => r is None,
            },
    {
        proof {
            assert(model_bindings(self.locals@).take(model_bindings(self.locals@).len() as int)
                =~= model_bindings(self.locals@));
            assert(model_bindings(self.globals@).take(model_bindings(self.globals@).len() as int)
                =~= model_bindings(self.globals@));
            lemma_model_bindings(self.locals@);
            lemma_model_bindings(self.globals@);
        }
        match lookup_prefix(&self.locals, self.locals.len(), key) {
            Some(v) => Some(v),
            None => lookup_prefix(&self.globals, self.globals.len(), key),
        }
    }

    /// Makes the forms of a source file available to `import` under a path.
    pub fn load_source(&mut self, path: String, forms: Vec<Value>)
        ensures
            final(self)@ == (SpecCtx {
                sources: old(self)@.sources.push((path@, model_seq(forms@))),
                ..old(self)@
            }),
    {
        let ghost p = (path, forms);
        self.sources.push((path, forms));
        proof {
            lemma_model_sources_push(old(self).sources@, p);
        }
    }

    /// Binds a value in the global scope.
    fn bind_value(&mut self, name: &str, value: Value)
        ensures
            final(self)@ == (SpecCtx {
                globals: old(self)@.globals.push((name@, value.model())),
                ..old(self)@
            }),
    {
        let owned = name.to_owned();
        self.globals.push((owned, value));
        proof {
            lemma_model_bindings_push(old(self).globals@, self.globals@.last());
        }
    }

    /// Registers a native function in the global scope under its own name.
    fn bind_fn(&mut self, name: &str, b: Builtin)
        ensures
            final(self)@ == (SpecCtx {
                globals: old(self)@.globals.push(
                    (
                        name@,
                        SpecVal::Function(SpecFun { name: name@, kind: SpecFnKind::Native(b) }),
                    ),
                ),
                ..old(self)@
            }),
    {
        let owned = name.to_owned();
        self.bind_value(name, Value::Function(Function { name: owned, kind: FnKind::Native(b) }));
    }
}

/// The evaluation-depth bound the driver-facing `eval` runs with: large
/// enough that reaching it is out of the question in practice.
pub const EVAL_FUEL: u64 = 0x4000_0000_0000_0000;

/// Evaluates one form in the given environment, exactly as the semantics
/// prescribes: atoms evaluate to themselves, symbols resolve against the
/// local then the global scope, lists dispatch through their evaluated head,
/// and a list headed by `recur` returns itself verbatim.
pub fn eval(ctx: &mut Context, value: Value) -> (r: Result<Value, EvalError>)
    ensures
        out_matches(spec_eval(old(ctx)@, value.model(), EVAL_FUEL as nat), r, final(ctx)@),
{
    eval_at(ctx, &value, EVAL_FUEL)
}

/// The recursive core of `eval`, bounded by fuel.
fn eval_at(ctx: &mut Context, v: &Value, fuel: u64) -> (r: Result<Value, EvalError>)
    ensures
        out_matches(spec_eval(old(ctx)@, v.model(), fuel as nat), r, final(ctx)@),
    decreases fuel,
{
    if fuel == 0 {
        return Err(EvalError::Exhausted);
    }
    match v {
        Value::Symbol(name) => match ctx.resolve(name.as_str()) {
            Some(val) => Ok(val),
            None => Err(EvalError::UnresolvedSymbol(name.clone())),
        },
        Value::List(es) => {
            proof {
                lemma_model_seq(es@);
            }
            if es.len() > 0 && head_is_recur(&es[0]) {
                return Ok(v.clone());
            }
            if es.len() == 0 {
                return Err(EvalError::EmptyCall);
            }
            let hv = match eval_at(ctx, &es[0], fuel - 1) {
                Ok(x) => x,
                Err(e) => return Err(e),
            };
            match hv {
                Value::Function(f) => apply(ctx, &f, es, fuel - 1),
                _ => Err(EvalError::NotCallable),
            }
        },
        _ => Ok(v.clone()),
    }
}

/// Applies a function value to a whole call form; the arguments reach the
/// callee unevaluated, and each callee decides itself what to evaluate.
fn apply(ctx: &mut Context, f: &Function, form: &Vec<Value>, fuel: u64) -> (r: Result<
    Value,
    EvalError,
>)
    ensures
        out_matches(spec_apply(old(ctx)@, f.model(), model_seq(form@), fuel as nat), r, final(ctx)@),
    decreases fuel,
{
    if fuel == 0 {
        return Err(EvalError::Exhausted);
    }
    match &f.kind {
        FnKind::Native(b) => match b {
            Builtin::Add => apply_add(ctx, form, 1, 0, fuel - 1),
            Builtin::Equal => apply_eq(ctx, form, fuel - 1),
            Builtin::Define => apply_def(ctx, form, fuel - 1),
            Builtin::Branch => apply_if(ctx, form, fuel - 1),
            Builtin::Lambda => apply_lambda(ctx, form, fuel - 1),
            Builtin::Import => apply_import(ctx, form, fuel - 1),
            Builtin::MakeList => apply_make_list(ctx, form, fuel - 1),
            Builtin::First => apply_first(ctx, form, fuel - 1),
            Builtin::Rest => apply_rest(ctx, form, fuel - 1),
            Builtin::Cons => apply_cons(ctx, form, fuel - 1),
            Builtin::IsEmpty => apply_is_empty(ctx, form, fuel - 1),
        },
        FnKind::Closure(cl) => apply_closure(ctx, cl, form, fuel - 1),
    }
}

/// Evaluates the argument forms `form[i..]` left to right.
fn eval_args(ctx: &mut Context, form: &Vec<Value>, i: usize, fuel: u64) -> (r: Result<
    Vec<Value>,
    EvalError,
>)
    ensures
        (match spec_eval_args(old(ctx)@, model_seq(form@), i as int, fuel as nat) {
            AOut::ADone(vs, c2) => (match r {
                Ok(rv) => model_seq(rv@) == vs && final(ctx)@ == c2,
                Err(_) => false,
            }),
            AOut::AFail(e, c2) => (match r {
                Ok(_) => false,
                Err(err) => err.model() == e && final(ctx)@ == c2,
            }),
        }),
    decreases fuel,
{
    if fuel == 0 {
        return Err(EvalError::Exhausted);
    }
    proof {
        lemma_model_seq(form@);
    }
    if i >= form.len() {
        let out: Vec<Value> = Vec::new();
        return Ok(out);
    }
    let v = match eval_at(ctx, &form[i], fuel - 1) {
        Ok(x) => x,
        Err(e) => return Err(e),
    };
    let mut rest = match eval_args(ctx, form, i + 1, fuel - 1) {
        Ok(x) => x,
        Err(e) => return Err(e),
    };
    let ghost r0 = rest@;
    let ghost vg = v;
    rest.insert(0, v);
    proof {
        lemma_model_seq_insert0(r0, vg);
    }
    Ok(rest)
}

/// `+`: sums evaluated integer arguments with 64-bit wrap-around.
fn apply_add(ctx: &mut Context, form: &Vec<Value>, i: usize, acc: i64, fuel: u64) -> (r: Result<
    Value,
    EvalError,
>)
    ensures
        out_matches(
            spec_add_loop(old(ctx)@, model_seq(form@), i as int, acc, fuel as nat),
            r,
            final(ctx)@,
        ),
    decreases fuel,
{
    if fuel == 0 {
        return Err(EvalError::Exhausted);
    }
    proof {
        lemma_model_seq(form@);
    }
    if i >= form.len() {
        return Ok(Value::Integer(acc));
    }
    let v = match eval_at(ctx, &form[i], fuel - 1) {
        Ok(x) => x,
        Err(e) => return Err(e),
    };
    match v {
        Value::Integer(k) => apply_add(ctx, form, i + 1, acc.wrapping_add(k), fuel - 1),
        _ => Err(EvalError::WrongType),
    }
}

/// `=`: at least one argument; the first is the reference value.
fn apply_eq(ctx: &mut Context, form: &Vec<Value>, fuel: u64) -> (r: Result<Value, EvalError>)
    ensures
        out_matches(spec_eq(old(ctx)@, model_seq(form@), fuel as nat), r, final(ctx)@),
    decreases fuel,
{
    if fuel == 0 {
        return Err(EvalError::Exhausted);
    }
    proof {
        lemma_model_seq(form@);
    }
    if form.len() < 2 {
        return Err(EvalError::ArityMismatch { expected: 1, actual: 0 });
    }
    let refv = match eval_at(ctx, &form[1], fuel - 1) {
        Ok(x) => x,
        Err(e) => return Err(e),
    };
    apply_eq_loop(ctx, &refv, form, 2, fuel - 1)
}

/// The comparison run of `=`, stopping at the first mismatch.
fn apply_eq_loop(ctx: &mut Context, refv: &Value, form: &Vec<Value>, i: usize, fuel: u64) -> (r:
    Result<Value, EvalError>)
    ensures
        out_matches(
            spec_eq_loop(old(ctx)@, refv.model(), model_seq(form@), i as int, fuel as nat),
            r,
            final(ctx)@,
        ),
    decreases fuel,
{
    if fuel == 0 {
        return Err(EvalError::Exhausted);
    }
    proof {
        lemma_model_seq(form@);
    }
    if i >= form.len() {
        return Ok(Value::Bool(true));
    }
    let v = match eval_at(ctx, &form[i], fuel - 1) {
        Ok(x) => x,
        Err(e) => return Err(e),
    };
    if !value_eq(refv, &v) {
        return Ok(Value::Bool(false));
    }
    apply_eq_loop(ctx, refv, form, i + 1, fuel - 1)
}

/// `def`: binds a symbol in the global scope and yields `nil`.
fn apply_def(ctx: &mut Context, form: &Vec<Value>, fuel: u64) -> (r: Result<Value, EvalError>)
    ensures
        out_matches(spec_def(old(ctx)@, model_seq(form@), fuel as nat), r, final(ctx)@),
    decreases fuel,
{
    if fuel == 0 {
        return Err(EvalError::Exhausted);
    }
    proof {
        lemma_model_seq(form@);
    }
    if form.len() != 3 {
        let actual: usize = if form.len() >= 1 {
            form.len() - 1
        } else {
            0
        };
        return Err(EvalError::ArityMismatch { expected: 2, actual });
    }
    match &form[1] {
        Value::Symbol(name) => {
            let v = match eval_at(ctx, &form[2], fuel - 1) {
                Ok(x) => x,
                Err(e) => return Err(e),
            };
            let p = (name.clone(), v);
            let ghost pg = p;
            let ghost g1 = ctx.globals@;
            ctx.globals.push(p);
            proof {
                lemma_model_bindings_push(g1, pg);
            }
            Ok(Value::Nil)
        },
        _ => Err(EvalError::MalformedForm),
    }
}

/// `if`: evaluates the condition, then exactly one branch.
fn apply_if(ctx: &mut Context, form: &Vec<Value>, fuel: u64) -> (r: Result<Value, EvalError>)
    ensures
        out_matches(spec_if(old(ctx)@, model_seq(form@), fuel as nat), r, final(ctx)@),
    decreases fuel,
{
    if fuel == 0 {
        return Err(EvalError::Exhausted);
    }
    proof {
        lemma_model_seq(form@);
    }
    if form.len() < 3 || form.len() > 4 {
        let actual: usize = if form.len() >= 1 {
            form.len() - 1
        } else {
            0
        };
        let expected: usize = if form.len() < 3 {
            2
        } else {
            3
        };
        return Err(EvalError::ArityMismatch { expected, actual });
    }
    let cv = match eval_at(ctx, &form[1], fuel - 1) {
        Ok(x) => x,
        Err(e) => return Err(e),
    };
    if truthy(&cv) {
        eval_at(ctx, &form[2], fuel - 1)
    } else if form.len() == 4 {
        eval_at(ctx, &form[3], fuel - 1)
    } else {
        Ok(Value::Nil)
    }
}

/// Reads a parameter list from position `i` on: every element must be a
/// symbol.
fn collect_params_from(ps: &Vec<Value>, i: usize) -> (r: Option<Vec<String>>)
    requires
        i <= ps@.len(),
    ensures
        (match spec_params_from(model_seq(ps@), i as int) {
            Some(ns) => r is Some && model_params(r.unwrap()@) == ns,
            None => r is None,
        }),
    decreases ps@.len() - i,
{
    proof {
        lemma_model_seq(ps@);
    }
    if i >= ps.len() {
        let empty: Vec<String> = Vec::new();
        return Some(empty);
    }
    match &ps[i] {
        Value::Symbol(s) => match collect_params_from(ps, i + 1) {
            Some(rest) => {
                let mut out = rest;
                let sc = s.clone();
                let ghost scg = sc;
                let ghost r0 = out@;
                out.insert(0, sc);
                proof {
                    lemma_model_params_insert0(r0, scg);
                }
                Some(out)
            },
            None => None,
        },
        _ => None,
    }
}

/// `fn`: builds a closure from a parameter list and a body, capturing the
/// current local scope, under a fresh numeric label.
fn apply_lambda(ctx: &mut Context, form: &Vec<Value>, fuel: u64) -> (r: Result<Value, EvalError>)
    ensures
        out_matches(spec_lambda(old(ctx)@, model_seq(form@), fuel as nat), r, final(ctx)@),
    decreases fuel,
{
    if fuel == 0 {
        return Err(EvalError::Exhausted);
    }
    proof {
        lemma_model_seq(form@);
    }
    if form.len() != 3 {
        let actual: usize = if form.len() >= 1 {
            form.len() - 1
        } else {
            0
        };
        return Err(EvalError::ArityMismatch { expected: 2, actual });
    }
    match &form[1] {
        Value::List(ps) => match collect_params_from(ps, 0) {
            Some(names) => {
                let ghost names_g = names@;
                let label = u64_to_string(ctx.next_id);
                if ctx.next_id < u64::MAX {
                    ctx.next_id = ctx.next_id + 1;
                }
                let captured = clone_binding_vec(&ctx.locals);
                proof {
                    lemma_model_bindings(captured@);
                    lemma_model_bindings(ctx.locals@);
                    assert(model_bindings(captured@) =~= model_bindings(ctx.locals@));
                }
                let ghost captured_g = captured@;
                let body = Box::new(form[2].clone());
                let res = Value::Function(
                    Function {
                        name: label,
                        kind: FnKind::Closure(Closure { params: names, body, captured }),
                    },
                );
                proof {
                    reveal_with_fuel(Value::model, 4);
                    let fs = model_seq(form@);
                    assert(fs[1] == form@[1].model());
                    assert(fs[2] == form@[2].model());
                    assert(fs[1] == SpecVal::List(model_seq(ps@)));
                    let ns = spec_params_from(model_seq(ps@), 0).unwrap();
                    assert(model_params(names_g) == ns);
                    assert(res.model() matches SpecVal::Function(_));
                    assert(res.model()->Function_0.name == label@);
                    assert(res.model()->Function_0.kind matches SpecFnKind::Closure(_));
                    let rcl = res.model()->Function_0.kind->Closure_0;
                    assert(rcl.params == model_params(names_g));
                    assert(*rcl.body == fs[2]);
                    assert(rcl.captured == model_bindings(captured_g));
                    assert(rcl.captured == old(ctx)@.locals);
                }
                Ok(res)
            },
            None => Err(EvalError::MalformedForm),
        },
        _ => Err(EvalError::MalformedForm),
    }
}

/// `import`: the evaluated argument must be a string naming a loaded source;
/// its forms run in the current environment.
fn apply_import(ctx: &mut Context, form: &Vec<Value>, fuel: u64) -> (r: Result<Value, EvalError>)
    ensures
        out_matches(spec_import(old(ctx)@, model_seq(form@), fuel as nat), r, final(ctx)@),
    decreases fuel,
{
    if fuel == 0 {
        return Err(EvalError::Exhausted);
    }
    proof {
        lemma_model_seq(form@);
    }
    if form.len() != 2 {
        let actual: usize = if form.len() >= 1 {
            form.len() - 1
        } else {
            0
        };
        return Err(EvalError::ArityMismatch { expected: 1, actual });
    }
    let pv = match eval_at(ctx, &form[1], fuel - 1) {
        Ok(x) => x,
        Err(e) => return Err(e),
    };
    match pv {
        Value::Str(path) => {
            proof {
                assert(model_sources(ctx.sources@).take(model_sources(ctx.sources@).len() as int)
                    =~= model_sources(ctx.sources@));
                lemma_model_sources(ctx.sources@);
            }
            let found = lookup_source_prefix(&ctx.sources, ctx.sources.len(), path.as_str());
            match found {
                Some(forms) => run_forms(ctx, &forms, 0, fuel - 1),
                None => Err(EvalError::ImportFailure(path)),
            }
        },
        _ => Err(EvalError::WrongType),
    }
}

/// Evaluates the forms `forms[i..]` in order, discarding their values.
fn run_forms(ctx: &mut Context, forms: &Vec<Value>, i: usize, fuel: u64) -> (r: Result<
    Value,
    EvalError,
>)
    ensures
        out_matches(spec_run_forms(old(ctx)@, model_seq(forms@), i as int, fuel as nat), r, final(ctx)@),
    decreases fuel,
{
    if fuel == 0 {
        return Err(EvalError::Exhausted);
    }
    proof {
        lemma_model_seq(forms@);
    }
    if i >= forms.len() {
        return Ok(Value::Nil);
    }
    match eval_at(ctx, &forms[i], fuel - 1) {
        Ok(_) => run_forms(ctx, forms, i + 1, fuel - 1),
        Err(e) => Err(e),
    }
}

/// `list`: evaluates every argument and yields the list of results.
fn apply_make_list(ctx: &mut Context, form: &Vec<Value>, fuel: u64) -> (r: Result<Value, EvalError>)
    ensures
        out_matches(spec_make_list(old(ctx)@, model_seq(form@), fuel as nat), r, final(ctx)@),
    decreases fuel,
{
    if fuel == 0 {
        return Err(EvalError::Exhausted);
    }
    let vs = match eval_args(ctx, form, 1, fuel - 1) {
        Ok(x) => x,
        Err(e) => return Err(e),
    };
    Ok(Value::List(vs))
}

/// `first`: the evaluated argument must be a non-empty list; yields its head.
fn apply_first(ctx: &mut Context, form: &Vec<Value>, fuel: u64) -> (r: Result<Value, EvalError>)
    ensures
        out_matches(spec_first(old(ctx)@, model_seq(form@), fuel as nat), r, final(ctx)@),
    decreases fuel,
{
    if fuel == 0 {
        return Err(EvalError::Exhausted);
    }
    proof {
        lemma_model_seq(form@);
    }
    if form.len() != 2 {
        let actual: usize = if form.len() >= 1 {
            form.len() - 1
        } else {
            0
        };
        return Err(EvalError::ArityMismatch { expected: 1, actual });
    }
    let v = match eval_at(ctx, &form[1], fuel - 1) {
        Ok(x) => x,
        Err(e) => return Err(e),
    };
    match v {
        Value::List(es) => {
            if es.len() == 0 {
                Err(EvalError::EmptyListOperand)
            } else {
                let mut es2 = es;
                let ghost e0 = es2@;
                let h = es2.remove(0);
                proof {
                    lemma_model_seq(e0);
                }
                Ok(h)
            }
        },
        _ => Err(EvalError::WrongType),
    }
}

/// `rest`: the evaluated argument must be a non-empty list; yields the list
/// without its head.
fn apply_rest(ctx: &mut Context, form: &Vec<Value>, fuel: u64) -> (r: Result<Value, EvalError>)
    ensures
        out_matches(spec_rest(old(ctx)@, model_seq(form@), fuel as nat), r, final(ctx)@),
    decreases fuel,
{
    if fuel == 0 {
        return Err(EvalError::Exhausted);
    }
    proof {
        lemma_model_seq(form@);
    }
    if form.len() != 2 {
        let actual: usize = if form.len() >= 1 {
            form.len() - 1
        } else {
            0
        };
        return Err(EvalError::ArityMismatch { expected: 1, actual });
    }
    let v = match eval_at(ctx, &form[1], fuel - 1) {
        Ok(x) => x,
        Err(e) => return Err(e),
    };
    match v {
        Value::List(es) => {
            if es.len() == 0 {
                Err(EvalError::EmptyListOperand)
            } else {
                let mut es2 = es;
                let ghost e0 = es2@;
                es2.remove(0);
                proof {
                    lemma_model_seq_remove0(e0);
                }
                Ok(Value::List(es2))
            }
        },
        _ => Err(EvalError::WrongType),
    }
}

/// `cons`: both arguments evaluated; the second must be a list; yields that
/// list with the first value prepended.
fn apply_cons(ctx: &mut Context, form: &Vec<Value>, fuel: u64) -> (r: Result<Value, EvalError>)
    ensures
        out_matches(spec_cons(old(ctx)@, model_seq(form@), fuel as nat), r, final(ctx)@),
    decreases fuel,
{
    if fuel == 0 {
        return Err(EvalError::Exhausted);
    }
    proof {
        lemma_model_seq(form@);
    }
    if form.len() != 3 {
        let actual: usize = if form.len() >= 1 {
            form.len() - 1
        } else {
            0
        };
        return Err(EvalError::ArityMismatch { expected: 2, actual });
    }
    let hv = match eval_at(ctx, &form[1], fuel - 1) {
        Ok(x) => x,
        Err(e) => return Err(e),
    };
    let tv = match eval_at(ctx, &form[2], fuel - 1) {
        Ok(x) => x,
        Err(e) => return Err(e),
    };
    match tv {
        Value::List(es) => {
            let mut es2 = es;
            let ghost e0 = es2@;
            let ghost hg = hv;
            es2.insert(0, hv);
            proof {
                lemma_model_seq_insert0(e0, hg);
            }
            Ok(Value::List(es2))
        },
        _ => Err(EvalError::WrongType),
    }
}

/// `empty?`: the evaluated argument must be a list; yields whether it has no
/// elements.
fn apply_is_empty(ctx: &mut Context, form: &Vec<Value>, fuel: u64) -> (r: Result<Value, EvalError>)
    ensures
        out_matches(spec_is_empty(old(ctx)@, model_seq(form@), fuel as nat), r, final(ctx)@),
    decreases fuel,
{
    if fuel == 0 {
        return Err(EvalError::Exhausted);
    }
    proof {
        lemma_model_seq(form@);
    }
    if form.len() != 2 {
        let actual: usize = if form.len() >= 1 {
            form.len() - 1
        } else {
            0
        };
        return Err(EvalError::ArityMismatch { expected: 1, actual });
    }
    let v = match eval_at(ctx, &form[1], fuel - 1) {
        Ok(x) => x,
        Err(e) => return Err(e),
    };
    match v {
        Value::List(es) => {
            proof {
                lemma_model_seq(es@);
            }
            Ok(Value::Bool(es.len() == 0))
        },
        _ => Err(EvalError::WrongType),
    }
}

/// Applies a closure: arity check, arguments evaluated in the caller's
/// environment, then the trampoline; the caller's local scope is restored on
/// every path out.
fn apply_closure(ctx: &mut Context, cl: &Closure, form: &Vec<Value>, fuel: u64) -> (r: Result<
    Value,
    EvalError,
>)
    ensures
        out_matches(
            spec_apply_closure(old(ctx)@, cl.model(), model_seq(form@), fuel as nat),
            r,
            final(ctx)@,
        ),
    decreases fuel,
{
    if fuel == 0 {
        return Err(EvalError::Exhausted);
    }
    proof {
        lemma_model_seq(form@);
        lemma_model_params(cl.params@);
    }
    if form.len() == 0 || form.len() - 1 != cl.params.len() {
        let actual: usize = if form.len() >= 1 {
            form.len() - 1
        } else {
            0
        };
        return Err(EvalError::ArityMismatch { expected: cl.params.len(), actual });
    }
    let saved = clone_binding_vec(&ctx.locals);
    proof {
        lemma_model_bindings(saved@);
        lemma_model_bindings(ctx.locals@);
        assert(model_bindings(saved@) =~= model_bindings(ctx.locals@));
    }
    let vs = match eval_args(ctx, form, 1, fuel - 1) {
        Ok(x) => x,
        Err(e) => {
            ctx.locals = saved;
            return Err(e);
        },
    };
    proof {
        lemma_eval_args_len(old(ctx)@, model_seq(form@), 1, (fuel - 1) as nat);
        lemma_model_seq(vs@);
    }
    let out = trampoline(ctx, cl, vs, fuel - 1);
    ctx.locals = saved;
    out
}

/// The tail-call trampoline: binds the parameters over the captured scope,
/// evaluates the body, and loops in place while the body yields a `recur`
/// list, so that self-tail-calls consume no host stack.
#[verifier::loop_isolation(false)]
fn trampoline(ctx: &mut Context, cl: &Closure, vs: Vec<Value>, fuel: u64) -> (r: Result<
    Value,
    EvalError,
>)
    requires
        vs@.len() == cl.params@.len(),
    ensures
        out_matches(spec_trampoline(old(ctx)@, cl.model(), model_seq(vs@), fuel as nat), r, final(ctx)@),
    decreases fuel,
{
    let ghost target = spec_trampoline(ctx@, cl.model(), model_seq(vs@), fuel as nat);
    let mut cur_vs = vs;
    let mut f = fuel;
    loop
        invariant
            f <= fuel,
            cur_vs@.len() == cl.params@.len(),
            target == spec_trampoline(ctx@, cl.model(), model_seq(cur_vs@), f as nat),
        decreases f,
    {
        if f == 0 {
            return Err(EvalError::Exhausted);
        }
        proof {
            lemma_model_params(cl.params@);
            lemma_model_seq(cur_vs@);
        }
        let mut locs = clone_binding_vec(&cl.captured);
        proof {
            lemma_model_bindings(locs@);
            lemma_model_bindings(cl.captured@);
            assert(model_bindings(locs@) =~= model_bindings(cl.captured@));
            assert(model_bindings(locs@) =~= cl.model().captured + pairs(
                cl.model().params,
                model_seq(cur_vs@),
            ).take(0));
        }
        let mut j: usize = 0;
        while j < cl.params.len()
            invariant
                j <= cl.params@.len(),
                cur_vs@.len() == cl.params@.len(),
                model_bindings(locs@) == cl.model().captured + pairs(
                    cl.model().params,
                    model_seq(cur_vs@),
                ).take(j as int),
            decreases cl.params@.len() - j,
        {
            proof {
                lemma_model_params(cl.params@);
                lemma_model_seq(cur_vs@);
            }
            let p = (cl.params[j].clone(), cur_vs[j].clone());
            let ghost pg = p;
            let ghost l0 = locs@;
            locs.push(p);
            proof {
                lemma_model_bindings_push(l0, pg);
                assert(pairs(cl.model().params, model_seq(cur_vs@)).take(j + 1) =~= pairs(
                    cl.model().params,
                    model_seq(cur_vs@),
                ).take(j as int).push((cl.params@[j as int]@, cur_vs@[j as int].model())));
                assert(model_bindings(locs@) =~= cl.model().captured + pairs(
                    cl.model().params,
                    model_seq(cur_vs@),
                ).take(j + 1));
            }
            j = j + 1;
        }
        proof {
            assert(pairs(cl.model().params, model_seq(cur_vs@)).take(
                cl.params@.len() as int,
            ) =~= pairs(cl.model().params, model_seq(cur_vs@)));
        }
        ctx.locals = locs;
        let rv = match eval_at(ctx, &*cl.body, f - 1) {
            Ok(x) => x,
            Err(e) => return Err(e),
        };
        match rv {
            Value::List(es) => {
                proof {
                    lemma_model_seq(es@);
                }
                let is_rec = es.len() > 0 && head_is_recur(&es[0]);
                if is_rec {
                    if es.len() - 1 != cl.params.len() {
                        return Err(
                            EvalError::ArityMismatch {
                                expected: cl.params.len(),
                                actual: es.len() - 1,
                            },
                        );
                    }
                    let ghost c2 = ctx@;
                    let vs2 = match eval_args(ctx, &es, 1, f - 1) {
                        Ok(x) => x,
                        Err(e) => return Err(e),
                    };
                    proof {
                        lemma_eval_args_len(c2, model_seq(es@), 1, (f - 1) as nat);
                        lemma_model_seq(vs2@);
                    }
                    cur_vs = vs2;
                    f = f - 1;
                } else {
                    return Ok(Value::List(es));
                }
            },
            other => {
                return Ok(other);
            },
        }
    }
}

/// The paths of every `(import "path")` form written literally inside a
/// value, outermost first: what a driver must load before evaluating it.
pub open spec fn import_paths_of(v: SpecVal) -> Seq<Seq<char>>
    decreases v, 0int,
{
    match v {
        SpecVal::List(es) => {
            let own = if es.len() == 2 && es[0] == SpecVal::Symbol("import"@) && es[1] is Str {
                Seq::empty().push(es[1]->Str_0)
            } else {
                Seq::empty()
            };
            own + import_paths_seq(es, 0)
        },
        _ => Seq::empty(),
    }
}

/// The import paths inside the elements `es[i..]`.
pub open spec fn import_paths_seq(es: Seq<SpecVal>, i: int) -> Seq<Seq<char>>
    decreases es, es.len() - i + 1,
{
    if i < 0 || i >= es.len() {
        Seq::empty()
    } else {
        import_paths_of(es[i]) + import_paths_seq(es, i + 1)
    }
}

/// Collects the paths of every literal `(import "path")` form inside a
/// value, outermost first, so that the driver can load those sources into
/// the `Context` before evaluating the value.
pub fn import_paths(v: &Value) -> (r: Vec<String>)
    ensures
        model_params(r@) == import_paths_of(v.model()),
    decreases v, 0int,
{
    match v {
        Value::List(es) => {
            proof {
                lemma_model_seq(es@);
            }
            let ghost ms = model_seq(es@);
            let mut out: Vec<String> = Vec::new();
            let head_ok = if es.len() == 2 {
                match &es[0] {
                    Value::Symbol(s) => str_eq_str(s.as_str(), "import"),
                    _ => false,
                }
            } else {
                false
            };
            let arg_path = if head_ok {
                match &es[1] {
                    Value::Str(p) => Some(p.clone()),
                    _ => None,
                }
            } else {
                None
            };
            let ghost own = (if ms.len() == 2 && ms[0] == SpecVal::Symbol("import"@)
                && ms[1] is Str {
                Seq::empty().push(ms[1]->Str_0)
            } else {
                Seq::<Seq<char>>::empty()
            });
            match arg_path {
                Some(p) => {
                    out.push(p);
                },
                None => {},
            }
            proof {
                lemma_model_params(out@);
                assert(model_params(out@) =~= own);
            }
            let ghost o0 = out@;
            let mut rest = import_paths_from(es, 0);
            let ghost r0 = rest@;
            out.append(&mut rest);
            proof {
                lemma_model_params_append(o0, r0);
            }
            out
        },
        _ => {
            let out: Vec<String> = Vec::new();
            out
        },
    }
}

/// The import paths inside the elements `es[i..]`.
fn import_paths_from(es: &Vec<Value>, i: usize) -> (r: Vec<String>)
    requires
        i <= es@.len(),
    ensures
        model_params(r@) == import_paths_seq(model_seq(es@), i as int),
    decreases es, es@.len() - i + 1,
{
    proof {
        lemma_model_seq(es@);
    }
    if i >= es.len() {
        let out: Vec<String> = Vec::new();
        out
    } else {
        let mut out = import_paths(&es[i]);
        let ghost o0 = out@;
        let mut rest = import_paths_from(es, i + 1);
        let ghost r0 = rest@;
        out.append(&mut rest);
        proof {
            lemma_model_params_append(o0, r0);
        }
        out
    }
}

} // verus!
