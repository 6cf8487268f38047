//! The mathematical semantics of the language: a fuel-bounded, deterministic
//! evaluator over `SpecVal` trees.  The executable evaluator is proved to
//! return exactly what these functions say, step for step, error for error.
//!
//! Fuel decreases on every nested evaluation and on every trampoline
//! iteration; running out of fuel is the specification's rendering of the
//! host's bounded resources.  The driver supplies a fuel so large that it is
//! unreachable in practice.

use vstd::prelude::*;

use crate::nums::dec_chars;
use crate::value::Builtin;
use crate::value::SpecClosure;
use crate::value::SpecFnKind;
use crate::value::SpecFun;
use crate::value::SpecVal;

verus! {

/// A symbol table: later entries shadow earlier ones.
pub type Bindings = Seq<(Seq<char>, SpecVal)>;

/// The evaluation state: the shared global scope, the current local scope,
/// the loaded sources, and the counter used to label new closures.
pub struct SpecCtx {
    pub globals: Bindings,
    pub locals: Bindings,
    pub sources: Seq<(Seq<char>, Seq<SpecVal>)>,
    pub counter: nat,
}

/// The error taxonomy.  Every error aborts the enclosing evaluation.
pub enum SpecErr {
    /// A symbol absent from both local and global scope.
    UnresolvedSymbol(Seq<char>),
    /// A list head that evaluated to a non-function.
    NotCallable,
    /// An attempt to evaluate an empty list.
    EmptyCall,
    /// A wrong argument count, naming expected and actual counts.
    ArityMismatch { expected: nat, actual: nat },
    /// An operand of the wrong variant.
    WrongType,
    /// `first` or `rest` applied to an empty list.
    EmptyListOperand,
    /// Structurally invalid special-form syntax.
    MalformedForm,
    /// An `import` whose source is not loaded.
    ImportFailure(Seq<char>),
    /// The fuel bound was reached.
    Exhausted,
}

/// What one evaluation yields: a value, or an error, together with the state
/// as it stands when the evaluation ends.
pub enum SOut {
    Done(SpecVal, SpecCtx),
    Fail(SpecErr, SpecCtx),
}

/// What evaluating a run of argument forms yields.
pub enum AOut {
    ADone(Seq<SpecVal>, SpecCtx),
    AFail(SpecErr, SpecCtx),
}

/// Looks a name up in a symbol table; the last binding wins.
pub open spec fn lookup_from(env: Bindings, name: Seq<char>) -> Option<SpecVal>
    decreases env.len(),
{
    if env.len() == 0 {
        None
    } else if env.last().0 == name {
        Some(env.last().1)
    } else {
        lookup_from(env.drop_last(), name)
    }
}

/// Looks a path up among the loaded sources; the last loaded wins.
pub open spec fn lookup_source(srcs: Seq<(Seq<char>, Seq<SpecVal>)>, path: Seq<char>) -> Option<
    Seq<SpecVal>,
>
    decreases srcs.len(),
{
    if srcs.len() == 0 {
        None
    } else if srcs.last().0 == path {
        Some(srcs.last().1)
    } else {
        lookup_source(srcs.drop_last(), path)
    }
}

/// Symbol resolution: the local scope shadows the global one.
pub open spec fn spec_resolve(c: SpecCtx, name: Seq<char>) -> Option<SpecVal> {
    match lookup_from(c.locals, name) {
        Some(v) => Some(v),
        None => lookup_from(c.globals, name),
    }
}

/// Structural equality of two values.  Functions compare by name alone;
/// every other variant compares structurally, lists element by element.
pub open spec fn sv_eq(a: SpecVal, b: SpecVal) -> bool
    decreases a,
{
    match (a, b) {
        (SpecVal::Bool(x), SpecVal::Bool(y)) => x == y,
        (SpecVal::Nil, SpecVal::Nil) => true,
        (SpecVal::Integer(x), SpecVal::Integer(y)) => x == y,
        (SpecVal::List(xs), SpecVal::List(ys)) => sv_eq_seq(xs, ys),
        (SpecVal::Function(f), SpecVal::Function(g)) => f.name == g.name,
        (SpecVal::Symbol(x), SpecVal::Symbol(y)) => x == y,
        (SpecVal::Str(x), SpecVal::Str(y)) => x == y,
        _ => false,
    }
}

/// Structural equality of two lists of values.
pub open spec fn sv_eq_seq(xs: Seq<SpecVal>, ys: Seq<SpecVal>) -> bool
    decreases xs,
{
    xs.len() == ys.len() && (xs.len() == 0 || (sv_eq(xs[0], ys[0]) && sv_eq_seq(
        xs.subrange(1, xs.len() as int),
        ys.subrange(1, ys.len() as int),
    )))
}

/// Only `false` and `nil` are falsy; every other value, including zero and
/// the empty list, is truthy.
pub open spec fn spec_truthy(v: SpecVal) -> bool {
    !(v == SpecVal::Bool(false) || v == SpecVal::Nil)
}

/// Advances the closure-label counter; it sticks at its largest value.
pub open spec fn bump(n: nat) -> nat {
    if n < u64::MAX {
        n + 1
    } else {
        n
    }
}

/// Binds parameter symbols positionally to argument values.
pub open spec fn pairs(params: Seq<Seq<char>>, vs: Seq<SpecVal>) -> Bindings {
    Seq::new(params.len(), |i: int| (params[i], vs[i]))
}

/// Whether a value is a list whose head is the symbol `recur`.
pub open spec fn is_recur_form(v: SpecVal) -> bool {
    v is List && v->List_0.len() > 0 && v->List_0[0] == SpecVal::Symbol("recur"@)
}

/// Reads a parameter list: every element must be a symbol.
pub open spec fn spec_params_from(ps: Seq<SpecVal>, i: int) -> Option<Seq<Seq<char>>>
    decreases ps.len() - i,
{
    if i >= ps.len() {
        Some(Seq::empty())
    } else {
        match ps[i] {
            SpecVal::Symbol(s) => match spec_params_from(ps, i + 1) {
                Some(rest) => Some(Seq::empty().push(s) + rest),
                None => None,
            },
            _ => None,
        }
    }
}

/// One evaluation step tree.  Atoms evaluate to themselves; symbols resolve;
/// a list is a call, except that a list headed by the symbol `recur` returns
/// itself verbatim, the signal consumed by the closure trampoline.
pub open spec fn spec_eval(c: SpecCtx, v: SpecVal, fuel: nat) -> SOut
    decreases fuel,
{
    if fuel == 0 {
        SOut::Fail(SpecErr::Exhausted, c)
    } else {
        match v {
            SpecVal::Symbol(name) => match spec_resolve(c, name) {
                Some(val) => SOut::Done(val, c),
                None => SOut::Fail(SpecErr::UnresolvedSymbol(name), c),
            },
            SpecVal::List(es) => {
                if es.len() > 0 && es[0] == SpecVal::Symbol("recur"@) {
                    SOut::Done(SpecVal::List(es), c)
                } else if es.len() == 0 {
                    SOut::Fail(SpecErr::EmptyCall, c)
                } else {
                    match spec_eval(c, es[0], (fuel - 1) as nat) {
                        SOut::Fail(e, c1) => SOut::Fail(e, c1),
                        SOut::Done(hv, c1) => match hv {
                            SpecVal::Function(f) => spec_apply(c1, f, es, (fuel - 1) as nat),
                            _ => SOut::Fail(SpecErr::NotCallable, c1),
                        },
                    }
                }
            },
            _ => SOut::Done(v, c),
        }
    }
}

/// Applies a function to a whole call form (`form[0]` is the head, the
/// arguments follow it, unevaluated): each callee decides itself which
/// arguments to evaluate.
pub open spec fn spec_apply(c: SpecCtx, f: SpecFun, form: Seq<SpecVal>, fuel: nat) -> SOut
    decreases fuel,
{
    if fuel == 0 {
        SOut::Fail(SpecErr::Exhausted, c)
    } else {
        match f.kind {
            SpecFnKind::Native(b) => match b {
                Builtin::Add => spec_add_loop(c, form, 1, 0i64, (fuel - 1) as nat),
                Builtin::Equal => spec_eq(c, form, (fuel - 1) as nat),
                Builtin::Define => spec_def(c, form, (fuel - 1) as nat),
                Builtin::Branch => spec_if(c, form, (fuel - 1) as nat),
                Builtin::Lambda => spec_lambda(c, form, (fuel - 1) as nat),
                Builtin::Import => spec_import(c, form, (fuel - 1) as nat),
                Builtin::MakeList => spec_make_list(c, form, (fuel - 1) as nat),
                Builtin::First => spec_first(c, form, (fuel - 1) as nat),
                Builtin::Rest => spec_rest(c, form, (fuel - 1) as nat),
                Builtin::Cons => spec_cons(c, form, (fuel - 1) as nat),
                Builtin::IsEmpty => spec_is_empty(c, form, (fuel - 1) as nat),
            },
            SpecFnKind::Closure(cl) => spec_apply_closure(c, cl, form, (fuel - 1) as nat),
        }
    }
}

/// Evaluates the forms `form[i..]` left to right, threading the state.
pub open spec fn spec_eval_args(c: SpecCtx, form: Seq<SpecVal>, i: int, fuel: nat) -> AOut
    decreases fuel,
{
    if fuel == 0 {
        AOut::AFail(SpecErr::Exhausted, c)
    } else if i >= form.len() {
        AOut::ADone(Seq::empty(), c)
    } else {
        match spec_eval(c, form[i], (fuel - 1) as nat) {
            SOut::Fail(e, c1) => AOut::AFail(e, c1),
            SOut::Done(v, c1) => match spec_eval_args(c1, form, i + 1, (fuel - 1) as nat) {
                AOut::AFail(e, c2) => AOut::AFail(e, c2),
                AOut::ADone(vs, c2) => AOut::ADone(Seq::empty().push(v) + vs, c2),
            },
        }
    }
}

/// `+`: evaluates each argument in turn, requiring an integer, and sums with
/// 64-bit wrap-around; no arguments sum to zero.
pub open spec fn spec_add_loop(c: SpecCtx, form: Seq<SpecVal>, i: int, acc: i64, fuel: nat) -> SOut
    decreases fuel,
{
    if fuel == 0 {
        SOut::Fail(SpecErr::Exhausted, c)
    } else if i >= form.len() {
        SOut::Done(SpecVal::Integer(acc), c)
    } else {
        match spec_eval(c, form[i], (fuel - 1) as nat) {
            SOut::Fail(e, c1) => SOut::Fail(e, c1),
            SOut::Done(v, c1) => match v {
                SpecVal::Integer(k) => spec_add_loop(
                    c1,
                    form,
                    i + 1,
                    acc.wrapping_add(k),
                    (fuel - 1) as nat,
                ),
                _ => SOut::Fail(SpecErr::WrongType, c1),
            },
        }
    }
}

/// `=`: needs at least one argument; evaluates the first as the reference,
/// then compares the remaining ones in turn, stopping at the first mismatch.
pub open spec fn spec_eq(c: SpecCtx, form: Seq<SpecVal>, fuel: nat) -> SOut
    decreases fuel,
{
    if fuel == 0 {
        SOut::Fail(SpecErr::Exhausted, c)
    } else if form.len() < 2 {
        SOut::Fail(SpecErr::ArityMismatch { expected: 1, actual: 0 }, c)
    } else {
        match spec_eval(c, form[1], (fuel - 1) as nat) {
            SOut::Fail(e, c1) => SOut::Fail(e, c1),
            SOut::Done(refv, c1) => spec_eq_loop(c1, refv, form, 2, (fuel - 1) as nat),
        }
    }
}

/// The comparison run of `=`.
pub open spec fn spec_eq_loop(
    c: SpecCtx,
    refv: SpecVal,
    form: Seq<SpecVal>,
    i: int,
    fuel: nat,
) -> SOut
    decreases fuel,
{
    if fuel == 0 {
        SOut::Fail(SpecErr::Exhausted, c)
    } else if i >= form.len() {
        SOut::Done(SpecVal::Bool(true), c)
    } else {
        match spec_eval(c, form[i], (fuel - 1) as nat) {
            SOut::Fail(e, c1) => SOut::Fail(e, c1),
            SOut::Done(v, c1) => if !sv_eq(refv, v) {
                SOut::Done(SpecVal::Bool(false), c1)
            } else {
                spec_eq_loop(c1, refv, form, i + 1, (fuel - 1) as nat)
            },
        }
    }
}

/// `def`: exactly two unevaluated arguments; the first must literally be a
/// symbol, the second is evaluated; binds the name in the global scope and
/// returns `nil`.
pub open spec fn spec_def(c: SpecCtx, form: Seq<SpecVal>, fuel: nat) -> SOut
    decreases fuel,
{
    if fuel == 0 {
        SOut::Fail(SpecErr::Exhausted, c)
    } else if form.len() != 3 {
        SOut::Fail(
            SpecErr::ArityMismatch {
                expected: 2,
                actual: if form.len() >= 1 {
                    (form.len() - 1) as nat
                } else {
                    0
                },
            },
            c,
        )
    } else {
        match form[1] {
            SpecVal::Symbol(name) => match spec_eval(c, form[2], (fuel - 1) as nat) {
                SOut::Fail(e, c1) => SOut::Fail(e, c1),
                SOut::Done(v, c1) => SOut::Done(
                    SpecVal::Nil,
                    SpecCtx { globals: c1.globals.push((name, v)), ..c1 },
                ),
            },
            _ => SOut::Fail(SpecErr::MalformedForm, c),
        }
    }
}

/// `if`: two or three unevaluated arguments; evaluates the condition, then
/// exactly one branch; a missing else-branch yields `nil`.
pub open spec fn spec_if(c: SpecCtx, form: Seq<SpecVal>, fuel: nat) -> SOut
    decreases fuel,
{
    let n = form.len() as int - 1;
    if fuel == 0 {
        SOut::Fail(SpecErr::Exhausted, c)
    } else if n < 2 || n > 3 {
        SOut::Fail(
            SpecErr::ArityMismatch {
                expected: if n < 2 {
                    2
                } else {
                    3
                },
                actual: if n >= 0 {
                    n as nat
                } else {
                    0
                },
            },
            c,
        )
    } else {
        match spec_eval(c, form[1], (fuel - 1) as nat) {
            SOut::Fail(e, c1) => SOut::Fail(e, c1),
            SOut::Done(cv, c1) => if spec_truthy(cv) {
                spec_eval(c1, form[2], (fuel - 1) as nat)
            } else {
                if n == 3 {
                    spec_eval(c1, form[3], (fuel - 1) as nat)
                } else {
                    SOut::Done(SpecVal::Nil, c1)
                }
            },
        }
    }
}

/// `fn`: exactly two unevaluated arguments, a list of parameter symbols and a
/// body; yields a closure capturing the current local scope, under a fresh
/// numeric label; the body is not evaluated.
pub open spec fn spec_lambda(c: SpecCtx, form: Seq<SpecVal>, fuel: nat) -> SOut
    decreases fuel,
{
    if fuel == 0 {
        SOut::Fail(SpecErr::Exhausted, c)
    } else if form.len() != 3 {
        SOut::Fail(
            SpecErr::ArityMismatch {
                expected: 2,
                actual: if form.len() >= 1 {
                    (form.len() - 1) as nat
                } else {
                    0
                },
            },
            c,
        )
    } else {
        match form[1] {
            SpecVal::List(ps) => match spec_params_from(ps, 0) {
                Some(names) => SOut::Done(
                    SpecVal::Function(
                        SpecFun {
                            name: dec_chars(c.counter),
                            kind: SpecFnKind::Closure(
                                SpecClosure {
                                    params: names,
                                    body: Box::new(form[2]),
                                    captured: c.locals,
                                },
                            ),
                        },
                    ),
                    SpecCtx { counter: bump(c.counter), ..c },
                ),
                None => SOut::Fail(SpecErr::MalformedForm, c),
            },
            _ => SOut::Fail(SpecErr::MalformedForm, c),
        }
    }
}

/// `import`: exactly one argument, evaluated; it must be a string naming a
/// loaded source; evaluates that source's forms in order in the current
/// environment and returns `nil`.
pub open spec fn spec_import(c: SpecCtx, form: Seq<SpecVal>, fuel: nat) -> SOut
    decreases fuel,
{
    if fuel == 0 {
        SOut::Fail(SpecErr::Exhausted, c)
    } else if form.len() != 2 {
        SOut::Fail(
            SpecErr::ArityMismatch {
                expected: 1,
                actual: if form.len() >= 1 {
                    (form.len() - 1) as nat
                } else {
                    0
                },
            },
            c,
        )
    } else {
        match spec_eval(c, form[1], (fuel - 1) as nat) {
            SOut::Fail(e, c1) => SOut::Fail(e, c1),
            SOut::Done(pv, c1) => match pv {
                SpecVal::Str(path) => match lookup_source(c1.sources, path) {
                    Some(forms) => spec_run_forms(c1, forms, 0, (fuel - 1) as nat),
                    None => SOut::Fail(SpecErr::ImportFailure(path), c1),
                },
                _ => SOut::Fail(SpecErr::WrongType, c1),
            },
        }
    }
}

/// Evaluates the forms `forms[i..]` in order, discarding their values;
/// yields `nil`.
pub open spec fn spec_run_forms(c: SpecCtx, forms: Seq<SpecVal>, i: int, fuel: nat) -> SOut
    decreases fuel,
{
    if fuel == 0 {
        SOut::Fail(SpecErr::Exhausted, c)
    } else if i >= forms.len() {
        SOut::Done(SpecVal::Nil, c)
    } else {
        match spec_eval(c, forms[i], (fuel - 1) as nat) {
            SOut::Fail(e, c1) => SOut::Fail(e, c1),
            SOut::Done(v, c1) => spec_run_forms(c1, forms, i + 1, (fuel - 1) as nat),
        }
    }
}

/// `list`: evaluates every argument and yields the list of results.
pub open spec fn spec_make_list(c: SpecCtx, form: Seq<SpecVal>, fuel: nat) -> SOut
    decreases fuel,
{
    if fuel == 0 {
        SOut::Fail(SpecErr::Exhausted, c)
    } else {
        match spec_eval_args(c, form, 1, (fuel - 1) as nat) {
            AOut::AFail(e, c1) => SOut::Fail(e, c1),
            AOut::ADone(vs, c1) => SOut::Done(SpecVal::List(vs), c1),
        }
    }
}

/// `first`: one argument, which must evaluate to a non-empty list; yields
/// its head.
pub open spec fn spec_first(c: SpecCtx, form: Seq<SpecVal>, fuel: nat) -> SOut
    decreases fuel,
{
    if fuel == 0 {
        SOut::Fail(SpecErr::Exhausted, c)
    } else if form.len() != 2 {
        SOut::Fail(
            SpecErr::ArityMismatch {
                expected: 1,
                actual: if form.len() >= 1 {
                    (form.len() - 1) as nat
                } else {
                    0
                },
            },
            c,
        )
    } else {
        match spec_eval(c, form[1], (fuel - 1) as nat) {
            SOut::Fail(e, c1) => SOut::Fail(e, c1),
            SOut::Done(v, c1) => match v {
                SpecVal::List(es) => if es.len() == 0 {
                    SOut::Fail(SpecErr::EmptyListOperand, c1)
                } else {
                    SOut::Done(es[0], c1)
                },
                _ => SOut::Fail(SpecErr::WrongType, c1),
            },
        }
    }
}

/// `rest`: one argument, which must evaluate to a non-empty list; yields the
/// list without its head.
pub open spec fn spec_rest(c: SpecCtx, form: Seq<SpecVal>, fuel: nat) -> SOut
    decreases fuel,
{
    if fuel == 0 {
        SOut::Fail(SpecErr::Exhausted, c)
    } else if form.len() != 2 {
        SOut::Fail(
            SpecErr::ArityMismatch {
                expected: 1,
                actual: if form.len() >= 1 {
                    (form.len() - 1) as nat
                } else {
                    0
                },
            },
            c,
        )
    } else {
        match spec_eval(c, form[1], (fuel - 1) as nat) {
            SOut::Fail(e, c1) => SOut::Fail(e, c1),
            SOut::Done(v, c1) => match v {
                SpecVal::List(es) => if es.len() == 0 {
                    SOut::Fail(SpecErr::EmptyListOperand, c1)
                } else {
                    SOut::Done(SpecVal::List(es.subrange(1, es.len() as int)), c1)
                },
                _ => SOut::Fail(SpecErr::WrongType, c1),
            },
        }
    }
}

/// `cons`: two arguments, both evaluated; the second must be a list; yields
/// that list with the first value prepended.
pub open spec fn spec_cons(c: SpecCtx, form: Seq<SpecVal>, fuel: nat) -> SOut
    decreases fuel,
{
    if fuel == 0 {
        SOut::Fail(SpecErr::Exhausted, c)
    } else if form.len() != 3 {
        SOut::Fail(
            SpecErr::ArityMismatch {
                expected: 2,
                actual: if form.len() >= 1 {
                    (form.len() - 1) as nat
                } else {
                    0
                },
            },
            c,
        )
    } else {
        match spec_eval(c, form[1], (fuel - 1) as nat) {
            SOut::Fail(e, c1) => SOut::Fail(e, c1),
            SOut::Done(hv, c1) => match spec_eval(c1, form[2], (fuel - 1) as nat) {
                SOut::Fail(e, c2) => SOut::Fail(e, c2),
                SOut::Done(tv, c2) => match tv {
                    SpecVal::List(es) => SOut::Done(
                        SpecVal::List(Seq::empty().push(hv) + es),
                        c2,
                    ),
                    _ => SOut::Fail(SpecErr::WrongType, c2),
                },
            },
        }
    }
}

/// `empty?`: one argument, which must evaluate to a list; yields whether it
/// has no elements.
pub open spec fn spec_is_empty(c: SpecCtx, form: Seq<SpecVal>, fuel: nat) -> SOut
    decreases fuel,
{
    if fuel == 0 {
        SOut::Fail(SpecErr::Exhausted, c)
    } else if form.len() != 2 {
        SOut::Fail(
            SpecErr::ArityMismatch {
                expected: 1,
                actual: if form.len() >= 1 {
                    (form.len() - 1) as nat
                } else {
                    0
                },
            },
            c,
        )
    } else {
        match spec_eval(c, form[1], (fuel - 1) as nat) {
            SOut::Fail(e, c1) => SOut::Fail(e, c1),
            SOut::Done(v, c1) => match v {
                SpecVal::List(es) => SOut::Done(SpecVal::Bool(es.len() == 0), c1),
                _ => SOut::Fail(SpecErr::WrongType, c1),
            },
        }
    }
}

/// Applies a closure: checks arity, evaluates the arguments in the caller's
/// environment, and runs the trampoline; the caller's local scope is restored
/// afterwards, while global definitions and new closure labels persist.
pub open spec fn spec_apply_closure(c: SpecCtx, cl: SpecClosure, form: Seq<SpecVal>, fuel: nat) -> SOut
    decreases fuel,
{
    if fuel == 0 {
        SOut::Fail(SpecErr::Exhausted, c)
    } else if form.len() as int - 1 != cl.params.len() {
        SOut::Fail(
            SpecErr::ArityMismatch {
                expected: cl.params.len(),
                actual: if form.len() >= 1 {
                    (form.len() - 1) as nat
                } else {
                    0
                },
            },
            c,
        )
    } else {
        match spec_eval_args(c, form, 1, (fuel - 1) as nat) {
            AOut::AFail(e, c1) => SOut::Fail(e, SpecCtx { locals: c.locals, ..c1 }),
            AOut::ADone(vs, c1) => match spec_trampoline(c1, cl, vs, (fuel - 1) as nat) {
                SOut::Done(rv, c2) => SOut::Done(rv, SpecCtx { locals: c.locals, ..c2 }),
                SOut::Fail(e, c2) => SOut::Fail(e, SpecCtx { locals: c.locals, ..c2 }),
            },
        }
    }
}

/// The tail-call trampoline: binds the parameters over the captured scope,
/// evaluates the body, and loops — without consuming host stack — as long as
/// the body yields a `recur` list whose arguments, evaluated in the callee's
/// environment, rebind the parameters.
pub open spec fn spec_trampoline(c: SpecCtx, cl: SpecClosure, vs: Seq<SpecVal>, fuel: nat) -> SOut
    decreases fuel,
{
    if fuel == 0 {
        SOut::Fail(SpecErr::Exhausted, c)
    } else {
        let c_body = SpecCtx { locals: cl.captured + pairs(cl.params, vs), ..c };
        match spec_eval(c_body, *cl.body, (fuel - 1) as nat) {
            SOut::Fail(e, c2) => SOut::Fail(e, c2),
            SOut::Done(rv, c2) => if is_recur_form(rv) {
                let es = rv->List_0;
                if es.len() as int - 1 != cl.params.len() {
                    SOut::Fail(
                        SpecErr::ArityMismatch {
                            expected: cl.params.len(),
                            actual: (es.len() - 1) as nat,
                        },
                        c2,
                    )
                } else {
                    match spec_eval_args(c2, es, 1, (fuel - 1) as nat) {
                        AOut::AFail(e, c3) => SOut::Fail(e, c3),
                        AOut::ADone(vs2, c3) => spec_trampoline(c3, cl, vs2, (fuel - 1) as nat),
                    }
                }
            } else {
                SOut::Done(rv, c2)
            },
        }
    }
}

/// Evaluating the forms `form[i..]` yields one value per form.
pub proof fn lemma_eval_args_len(c: SpecCtx, form: Seq<SpecVal>, i: int, fuel: nat)
    ensures
        (match spec_eval_args(c, form, i, fuel) {
            AOut::ADone(vs, _) => i <= form.len() ==> vs.len() == form.len() - i,
            AOut::AFail(_, _) => true,
        }),
    decreases fuel,
{
    if fuel > 0 && i < form.len() {
        match spec_eval(c, form[i], (fuel - 1) as nat) {
            SOut::Done(v, c1) => {
                lemma_eval_args_len(c1, form, i + 1, (fuel - 1) as nat);
            },
            SOut::Fail(_, _) => {},
        }
    }
}

} // verus!
