//! Laws of the language, proved once and for all against the semantics in
//! `sem`: what `+`, `=`, `if` and `def` yield on every input, that a closure
//! reads the global scope current at its application, the arity rule for
//! closures, and the list round-trip algebra.

use vstd::prelude::*;

use crate::eval::initial_ctx;
use crate::eval::initial_globals;
use crate::sem::lookup_from;
use crate::sem::pairs;
use crate::sem::is_recur_form;
use crate::sem::spec_resolve;
use crate::sem::spec_truthy;
use crate::sem::spec_eval;
use crate::sem::spec_eval_args;
use crate::sem::sv_eq;
use crate::sem::sv_eq_seq;
use crate::sem::AOut;
use crate::sem::Bindings;
use crate::sem::SOut;
use crate::sem::SpecCtx;
use crate::sem::SpecErr;
use crate::sem::spec_apply_closure;
use crate::value::Builtin;
use crate::value::SpecClosure;
use crate::value::SpecFnKind;
use crate::value::SpecVal;

verus! {

broadcast use vstd::seq::axiom_seq_index_decreases, vstd::seq::axiom_seq_subrange_decreases;

/// Whether a name resolves, in this state, to the given native operation.
pub open spec fn binds_native(c: SpecCtx, name: Seq<char>, b: Builtin) -> bool {
    match spec_resolve(c, name) {
        Some(v) => match v {
            SpecVal::Function(f) => f.kind == SpecFnKind::Native(b),
            _ => false,
        },
        _ => false,
    }
}

/// Whether a value evaluates to itself: everything but symbols and lists.
pub open spec fn self_evaluating(v: SpecVal) -> bool {
    match v {
        SpecVal::Symbol(_) => false,
        SpecVal::List(_) => false,
        _ => true,
    }
}

/// A binding just pushed is what lookup finds for its name.
pub proof fn lemma_lookup_push_same(env: Bindings, n: Seq<char>, v: SpecVal)
    ensures
        lookup_from(env.push((n, v)), n) == Some(v),
{
}

/// A binding just pushed leaves every other name as it was.
pub proof fn lemma_lookup_push_other(env: Bindings, n: Seq<char>, v: SpecVal, m: Seq<char>)
    requires
        m != n,
    ensures
        lookup_from(env.push((n, v)), m) == lookup_from(env, m),
{
    assert(env.push((n, v)).drop_last() =~= env);
}

/// Structural equality is reflexive: every value is `=`-equal to itself.
/// With the exact contracts of `list`, `cons`, `first` and `rest`, this is
/// why a value built purely from those operations is `=`-equal to the list
/// literal it stands for.
pub proof fn lemma_sv_eq_reflexive(v: SpecVal)
    ensures
        sv_eq(v, v),
    decreases v, 0int,
{
    match v {
        SpecVal::List(xs) => {
            lemma_sv_eq_seq_reflexive(xs);
        },
        _ => {},
    }
}

/// Structural equality of lists is reflexive.
pub proof fn lemma_sv_eq_seq_reflexive(xs: Seq<SpecVal>)
    ensures
        sv_eq_seq(xs, xs),
    decreases xs, 1int,
{
    if xs.len() > 0 {
        lemma_sv_eq_reflexive(xs[0]);
        lemma_sv_eq_seq_reflexive(xs.subrange(1, xs.len() as int));
    }
}

/// What `cons` puts together, `first` and `rest` take apart: the list with
/// `x` in front of `vs` is non-empty, its head is `x`, and the list without
/// that head is `vs` again — the round trip behind compositions of the list
/// builtins.
pub proof fn lemma_list_round_trip(x: SpecVal, vs: Seq<SpecVal>)
    ensures
        (Seq::empty().push(x) + vs).len() > 0,
        (Seq::empty().push(x) + vs)[0] == x,
        (Seq::empty().push(x) + vs).subrange(1, (Seq::empty().push(x) + vs).len() as int) == vs,
        sv_eq(SpecVal::List(vs), SpecVal::List(vs)),
{
    assert((Seq::empty().push(x) + vs).subrange(1, (Seq::empty().push(x) + vs).len() as int)
        =~= vs);
    lemma_sv_eq_reflexive(SpecVal::List(vs));
}

/// For all 64-bit integers `a` and `b` whose sum stays in range, evaluating
/// `(+ a b)` yields exactly `a + b`, and leaves the state untouched.
pub proof fn lemma_plus_adds(c: SpecCtx, a: i64, b: i64, fuel: nat)
    requires
        binds_native(c, "+"@, Builtin::Add),
        i64::MIN <= a + b <= i64::MAX,
        fuel >= 5,
    ensures
        spec_eval(
            c,
            SpecVal::List(
                seq![SpecVal::Symbol("+"@), SpecVal::Integer(a), SpecVal::Integer(b)],
            ),
            fuel,
        ) == SOut::Done(SpecVal::Integer((a + b) as i64), c),
{
    reveal_strlit("+");
    reveal_strlit("recur");
    let es = seq![SpecVal::Symbol("+"@), SpecVal::Integer(a), SpecVal::Integer(b)];
    let f1 = (fuel - 1) as nat;
    let f2 = (fuel - 2) as nat;
    let f3 = (fuel - 3) as nat;
    let f4 = (fuel - 4) as nat;
    assert("+"@.len() == 1);
    assert("recur"@.len() == 5);
    assert("+"@ != "recur"@);
    assert(spec_eval(c, es[0], f1) == SOut::Done(spec_resolve(c, "+"@).unwrap(), c));
    assert(spec_eval(c, es[1], f3) == SOut::Done(SpecVal::Integer(a), c));
    assert(spec_eval(c, es[2], f4) == SOut::Done(SpecVal::Integer(b), c));
    assert(0i64.wrapping_add(a) == a);
    assert(a.wrapping_add(b) == (a + b) as i64);
    assert(crate::sem::spec_add_loop(c, es, 3, (a + b) as i64, f4) == SOut::Done(
        SpecVal::Integer((a + b) as i64),
        c,
    ));
    assert(crate::sem::spec_add_loop(c, es, 2, a, f3) == SOut::Done(
        SpecVal::Integer((a + b) as i64),
        c,
    ));
    assert(crate::sem::spec_add_loop(c, es, 1, 0i64, f2) == SOut::Done(
        SpecVal::Integer((a + b) as i64),
        c,
    ));
    let g = spec_resolve(c, "+"@).unwrap()->Function_0;
    assert(crate::sem::spec_apply(c, g, es, f1) == SOut::Done(
        SpecVal::Integer((a + b) as i64),
        c,
    ));
}

/// `(+)` with no arguments yields zero.
pub proof fn lemma_plus_empty(c: SpecCtx, fuel: nat)
    requires
        binds_native(c, "+"@, Builtin::Add),
        fuel >= 3,
    ensures
        spec_eval(c, SpecVal::List(seq![SpecVal::Symbol("+"@)]), fuel) == SOut::Done(
            SpecVal::Integer(0),
            c,
        ),
{
    reveal_strlit("+");
    reveal_strlit("recur");
    let es = seq![SpecVal::Symbol("+"@)];
    let f1 = (fuel - 1) as nat;
    let f2 = (fuel - 2) as nat;
    assert("+"@.len() == 1);
    assert("recur"@.len() == 5);
    assert("+"@ != "recur"@);
    assert(spec_eval(c, es[0], f1) == SOut::Done(spec_resolve(c, "+"@).unwrap(), c));
    assert(crate::sem::spec_add_loop(c, es, 1, 0i64, f2) == SOut::Done(SpecVal::Integer(0), c));
    let g = spec_resolve(c, "+"@).unwrap()->Function_0;
    assert(crate::sem::spec_apply(c, g, es, f1) == SOut::Done(SpecVal::Integer(0), c));
}

/// `(= a a)` is `true` for every self-evaluating value: comparing a value
/// with itself always succeeds.
pub proof fn lemma_eq_self(c: SpecCtx, v: SpecVal, fuel: nat)
    requires
        binds_native(c, "="@, Builtin::Equal),
        self_evaluating(v),
        fuel >= 5,
    ensures
        spec_eval(c, SpecVal::List(seq![SpecVal::Symbol("="@), v, v]), fuel) == SOut::Done(
            SpecVal::Bool(true),
            c,
        ),
{
    reveal_strlit("=");
    reveal_strlit("recur");
    let es = seq![SpecVal::Symbol("="@), v, v];
    let f1 = (fuel - 1) as nat;
    let f2 = (fuel - 2) as nat;
    let f3 = (fuel - 3) as nat;
    let f4 = (fuel - 4) as nat;
    assert("="@.len() == 1);
    assert("recur"@.len() == 5);
    assert("="@ != "recur"@);
    assert(spec_eval(c, es[0], f1) == SOut::Done(spec_resolve(c, "="@).unwrap(), c));
    assert(spec_eval(c, es[1], f3) == SOut::Done(v, c));
    assert(spec_eval(c, es[2], f4) == SOut::Done(v, c));
    lemma_sv_eq_reflexive(v);
    assert(crate::sem::spec_eq_loop(c, v, es, 3, f4) == SOut::Done(SpecVal::Bool(true), c));
    assert(crate::sem::spec_eq_loop(c, v, es, 2, f3) == SOut::Done(SpecVal::Bool(true), c));
    assert(crate::sem::spec_eq(c, es, f2) == SOut::Done(SpecVal::Bool(true), c));
    let g = spec_resolve(c, "="@).unwrap()->Function_0;
    assert(crate::sem::spec_apply(c, g, es, f1) == SOut::Done(SpecVal::Bool(true), c));
}

/// `(=)` with no arguments is an arity error.
pub proof fn lemma_eq_no_args(c: SpecCtx, fuel: nat)
    requires
        binds_native(c, "="@, Builtin::Equal),
        fuel >= 3,
    ensures
        spec_eval(c, SpecVal::List(seq![SpecVal::Symbol("="@)]), fuel) == SOut::Fail(
            SpecErr::ArityMismatch { expected: 1, actual: 0 },
            c,
        ),
{
    reveal_strlit("=");
    reveal_strlit("recur");
    let es = seq![SpecVal::Symbol("="@)];
    let f1 = (fuel - 1) as nat;
    assert("="@.len() == 1);
    assert("recur"@.len() == 5);
    assert("="@ != "recur"@);
    assert(spec_eval(c, es[0], f1) == SOut::Done(spec_resolve(c, "="@).unwrap(), c));
    let f2 = (fuel - 2) as nat;
    assert(crate::sem::spec_eq(c, es, f2) == SOut::Fail(
        SpecErr::ArityMismatch { expected: 1, actual: 0 },
        c,
    ));
    let g = spec_resolve(c, "="@).unwrap()->Function_0;
    assert(crate::sem::spec_apply(c, g, es, f1) == SOut::Fail(
        SpecErr::ArityMismatch { expected: 1, actual: 0 },
        c,
    ));
}

/// `if` evaluates its condition and then exactly one branch: the then-branch
/// unless the condition value is `false` or `nil` — every other value,
/// including zero and the empty list, selects the then-branch.
pub proof fn lemma_if_selects(c: SpecCtx, cond: SpecVal, t: SpecVal, e: SpecVal, fuel: nat)
    requires
        binds_native(c, "if"@, Builtin::Branch),
        self_evaluating(cond),
        fuel >= 4,
    ensures
        spec_eval(c, SpecVal::List(seq![SpecVal::Symbol("if"@), cond, t, e]), fuel) == (
        if spec_truthy(cond) {
            spec_eval(c, t, (fuel - 3) as nat)
        } else {
            spec_eval(c, e, (fuel - 3) as nat)
        }),
{
    reveal_strlit("if");
    reveal_strlit("recur");
    let es = seq![SpecVal::Symbol("if"@), cond, t, e];
    let f1 = (fuel - 1) as nat;
    let f2 = (fuel - 2) as nat;
    let f3 = (fuel - 3) as nat;
    assert("if"@.len() == 2);
    assert("recur"@.len() == 5);
    assert("if"@ != "recur"@);
    assert(spec_eval(c, es[0], f1) == SOut::Done(spec_resolve(c, "if"@).unwrap(), c));
    assert(spec_eval(c, es[1], f3) == SOut::Done(cond, c));
    let picked = if spec_truthy(cond) {
        spec_eval(c, t, f3)
    } else {
        spec_eval(c, e, f3)
    };
    assert(crate::sem::spec_if(c, es, f2) == picked);
    let g = spec_resolve(c, "if"@).unwrap()->Function_0;
    assert(crate::sem::spec_apply(c, g, es, f1) == picked);
}

/// `def` binds its evaluated second argument under the given symbol in the
/// global scope — and in nothing else — and yields `nil`.
pub proof fn lemma_def_binds(c: SpecCtx, s: Seq<char>, w: SpecVal, fuel: nat)
    requires
        binds_native(c, "def"@, Builtin::Define),
        self_evaluating(w),
        fuel >= 4,
    ensures
        spec_eval(c, SpecVal::List(seq![SpecVal::Symbol("def"@), SpecVal::Symbol(s), w]), fuel)
            == SOut::Done(SpecVal::Nil, SpecCtx { globals: c.globals.push((s, w)), ..c }),
        lookup_from(c.globals.push((s, w)), s) == Some(w),
{
    reveal_strlit("def");
    reveal_strlit("recur");
    let es = seq![SpecVal::Symbol("def"@), SpecVal::Symbol(s), w];
    let f1 = (fuel - 1) as nat;
    let f2 = (fuel - 2) as nat;
    let f3 = (fuel - 3) as nat;
    assert("def"@.len() == 3);
    assert("recur"@.len() == 5);
    assert("def"@ != "recur"@);
    assert(spec_eval(c, es[0], f1) == SOut::Done(spec_resolve(c, "def"@).unwrap(), c));
    assert(spec_eval(c, es[2], f3) == SOut::Done(w, c));
    assert(crate::sem::spec_def(c, es, f2) == SOut::Done(
        SpecVal::Nil,
        SpecCtx { globals: c.globals.push((s, w)), ..c },
    ));
    let g = spec_resolve(c, "def"@).unwrap()->Function_0;
    assert(crate::sem::spec_apply(c, g, es, f1) == SOut::Done(
        SpecVal::Nil,
        SpecCtx { globals: c.globals.push((s, w)), ..c },
    ));
    lemma_lookup_push_same(c.globals, s, w);
}

/// A closure does not freeze the global scope: applying a closure whose body
/// reads a symbol that its captured locals do not bind yields whatever the
/// globals bind that symbol to at application time.  A redefinition after
/// the closure was created is therefore visible to it.
pub proof fn lemma_closure_sees_current_globals(
    c: SpecCtx,
    cl: SpecClosure,
    h: SpecVal,
    s: Seq<char>,
    v: SpecVal,
    fuel: nat,
)
    requires
        cl.params.len() == 0,
        *cl.body == SpecVal::Symbol(s),
        lookup_from(cl.captured, s) is None,
        lookup_from(c.globals, s) == Some(v),
        !is_recur_form(v),
        fuel >= 3,
    ensures
        spec_apply_closure(c, cl, seq![h], fuel) == SOut::Done(v, c),
{
    let form = seq![h];
    let f1 = (fuel - 1) as nat;
    let f2 = (fuel - 2) as nat;
    assert(spec_eval_args(c, form, 1, f1) == AOut::ADone(Seq::empty(), c));
    let locs = cl.captured + pairs(cl.params, Seq::empty());
    assert(locs =~= cl.captured);
    let c_body = SpecCtx { locals: locs, ..c };
    assert(spec_eval(c_body, *cl.body, f2) == SOut::Done(v, c_body));
    assert(crate::sem::spec_trampoline(c, cl, Seq::empty(), f1) == SOut::Done(v, c_body));
    assert(SpecCtx { locals: c.locals, ..c_body } == c);
}

/// Applying a closure to the wrong number of arguments fails with an arity
/// error naming the expected and the actual count.
pub proof fn lemma_closure_arity(c: SpecCtx, cl: SpecClosure, form: Seq<SpecVal>, fuel: nat)
    requires
        fuel > 0,
        form.len() >= 1,
        form.len() - 1 != cl.params.len(),
    ensures
        spec_apply_closure(c, cl, form, fuel) == SOut::Fail(
            SpecErr::ArityMismatch { expected: cl.params.len(), actual: (form.len() - 1) as nat },
            c,
        ),
{
}

/// Any two forms whose evaluations yield structurally equal values — in
/// particular, any composition of the list builtins and the list literal it
/// stands for — compare `=`-equal.
pub proof fn lemma_eq_forms(
    c: SpecCtx,
    e1: SpecVal,
    e2: SpecVal,
    u: SpecVal,
    v: SpecVal,
    c1: SpecCtx,
    c2: SpecCtx,
    fuel: nat,
)
    requires
        binds_native(c, "="@, Builtin::Equal),
        spec_eval(c, e1, (fuel - 3) as nat) == SOut::Done(u, c1),
        spec_eval(c1, e2, (fuel - 4) as nat) == SOut::Done(v, c2),
        sv_eq(u, v),
        fuel >= 6,
    ensures
        spec_eval(c, SpecVal::List(seq![SpecVal::Symbol("="@), e1, e2]), fuel) == SOut::Done(
            SpecVal::Bool(true),
            c2,
        ),
{
    reveal_strlit("=");
    reveal_strlit("recur");
    let es = seq![SpecVal::Symbol("="@), e1, e2];
    let f1 = (fuel - 1) as nat;
    let f2 = (fuel - 2) as nat;
    let f3 = (fuel - 3) as nat;
    let f4 = (fuel - 4) as nat;
    assert("="@.len() == 1);
    assert("recur"@.len() == 5);
    assert("="@ != "recur"@);
    assert(spec_eval(c, es[0], f1) == SOut::Done(spec_resolve(c, "="@).unwrap(), c));
    assert(crate::sem::spec_eq_loop(c2, u, es, 3, f4) == SOut::Done(
        SpecVal::Bool(true),
        c2,
    ));
    assert(crate::sem::spec_eq_loop(c1, u, es, 2, f3) == SOut::Done(SpecVal::Bool(true), c2));
    assert(crate::sem::spec_eq(c, es, f2) == SOut::Done(SpecVal::Bool(true), c2));
    let g = spec_resolve(c, "="@).unwrap()->Function_0;
    assert(crate::sem::spec_apply(c, g, es, f1) == SOut::Done(SpecVal::Bool(true), c2));
}

/// Self-evaluating argument forms evaluate to themselves, in order, leaving
/// the state untouched.
pub proof fn lemma_eval_args_self(c: SpecCtx, form: Seq<SpecVal>, i: int, fuel: nat)
    requires
        0 <= i <= form.len(),
        forall|j: int| i <= j < form.len() ==> self_evaluating(#[trigger] form[j]),
        fuel >= form.len() - i + 1,
    ensures
        spec_eval_args(c, form, i, fuel) == AOut::ADone(
            form.subrange(i, form.len() as int),
            c,
        ),
    decreases form.len() - i,
{
    if i == form.len() {
        assert(form.subrange(i, form.len() as int) =~= Seq::<SpecVal>::empty());
    } else {
        let f1 = (fuel - 1) as nat;
        assert(spec_eval(c, form[i], f1) == SOut::Done(form[i], c));
        lemma_eval_args_self(c, form, i + 1, f1);
        assert(Seq::empty().push(form[i]) + form.subrange(i + 1, form.len() as int)
            =~= form.subrange(i, form.len() as int));
    }
}

/// `(list a1 ... an)` over self-evaluating arguments yields exactly the list
/// of those values, in order.
pub proof fn lemma_list_builds(c: SpecCtx, form: Seq<SpecVal>, fuel: nat)
    requires
        binds_native(c, "list"@, Builtin::MakeList),
        form.len() >= 1,
        form[0] == SpecVal::Symbol("list"@),
        forall|j: int| 1 <= j < form.len() ==> self_evaluating(#[trigger] form[j]),
        fuel >= form.len() + 4,
    ensures
        spec_eval(c, SpecVal::List(form), fuel) == SOut::Done(
            SpecVal::List(form.subrange(1, form.len() as int)),
            c,
        ),
{
    reveal_strlit("list");
    reveal_strlit("recur");
    let f1 = (fuel - 1) as nat;
    let f2 = (fuel - 2) as nat;
    let f3 = (fuel - 3) as nat;
    assert("list"@.len() == 4);
    assert("recur"@.len() == 5);
    assert("list"@ != "recur"@);
    assert(spec_eval(c, form[0], f1) == SOut::Done(spec_resolve(c, "list"@).unwrap(), c));
    lemma_eval_args_self(c, form, 1, f3);
    assert(crate::sem::spec_make_list(c, form, f2) == SOut::Done(
        SpecVal::List(form.subrange(1, form.len() as int)),
        c,
    ));
    let g = spec_resolve(c, "list"@).unwrap()->Function_0;
    assert(crate::sem::spec_apply(c, g, form, f1) == SOut::Done(
        SpecVal::List(form.subrange(1, form.len() as int)),
        c,
    ));
}

/// Lookup finds the value at the last binding of a name.
pub proof fn lemma_lookup_index(env: Bindings, name: Seq<char>, k: int)
    requires
        0 <= k < env.len(),
        env[k].0 == name,
        forall|j: int| k < j < env.len() ==> (#[trigger] env[j]).0 != name,
    ensures
        lookup_from(env, name) == Some(env[k].1),
    decreases env.len(),
{
    if env.last().0 == name {
        assert(k == env.len() - 1);
    } else {
        let p = env.drop_last();
        assert(k < env.len() - 1);
        lemma_lookup_index(p, name, k);
    }
}

/// Every law above holds in particular of the environment `Context::new`
/// sets up: each builtin name resolves to its native operation there.
pub proof fn lemma_initial_bindings()
    ensures
        binds_native(initial_ctx(), "def"@, Builtin::Define),
        binds_native(initial_ctx(), "if"@, Builtin::Branch),
        binds_native(initial_ctx(), "fn"@, Builtin::Lambda),
        binds_native(initial_ctx(), "import"@, Builtin::Import),
        binds_native(initial_ctx(), "+"@, Builtin::Add),
        binds_native(initial_ctx(), "="@, Builtin::Equal),
        binds_native(initial_ctx(), "list"@, Builtin::MakeList),
        binds_native(initial_ctx(), "first"@, Builtin::First),
        binds_native(initial_ctx(), "rest"@, Builtin::Rest),
        binds_native(initial_ctx(), "cons"@, Builtin::Cons),
        binds_native(initial_ctx(), "empty?"@, Builtin::IsEmpty),
        spec_resolve(initial_ctx(), "nil"@) == Some(SpecVal::Nil),
        spec_resolve(initial_ctx(), "true"@) == Some(SpecVal::Bool(true)),
        spec_resolve(initial_ctx(), "false"@) == Some(SpecVal::Bool(false)),
{
    reveal_strlit("nil");
    reveal_strlit("true");
    reveal_strlit("false");
    reveal_strlit("def");
    reveal_strlit("if");
    reveal_strlit("fn");
    reveal_strlit("import");
    reveal_strlit("+");
    reveal_strlit("=");
    reveal_strlit("list");
    reveal_strlit("first");
    reveal_strlit("rest");
    reveal_strlit("cons");
    reveal_strlit("empty?");
    let g = initial_globals();
    assert(g.len() == 14);
    assert("nil"@.len() == 3);
    assert("nil"@[0] == 'n');
    assert("true"@.len() == 4);
    assert("true"@[0] == 't');
    assert("false"@.len() == 5);
    assert("false"@[0] == 'f');
    assert("def"@.len() == 3);
    assert("def"@[0] == 'd');
    assert("if"@.len() == 2);
    assert("if"@[0] == 'i');
    assert("fn"@.len() == 2);
    assert("fn"@[0] == 'f');
    assert("import"@.len() == 6);
    assert("import"@[0] == 'i');
    assert("+"@.len() == 1);
    assert("+"@[0] == '+');
    assert("="@.len() == 1);
    assert("="@[0] == '=');
    assert("list"@.len() == 4);
    assert("list"@[0] == 'l');
    assert("first"@.len() == 5);
    assert("first"@[0] == 'f');
    assert("rest"@.len() == 4);
    assert("rest"@[0] == 'r');
    assert("cons"@.len() == 4);
    assert("cons"@[0] == 'c');
    assert("empty?"@.len() == 6);
    assert("empty?"@[0] == 'e');
    assert("false"@[1] == 'a');
    assert("first"@[1] == 'i');
    assert(lookup_from(Seq::empty(), "nil"@) is None);
    assert forall|j: int| 0 < j < g.len() implies (#[trigger] g[j]).0 != "nil"@ by {
            if j == 1 {
                assert(g[1].0 != "nil"@);
            }
            if j == 2 {
                assert(g[2].0 != "nil"@);
            }
            if j == 3 {
                assert(g[3].0 != "nil"@);
            }
            if j == 4 {
                assert(g[4].0 != "nil"@);
            }
            if j == 5 {
                assert(g[5].0 != "nil"@);
            }
            if j == 6 {
                assert(g[6].0 != "nil"@);
            }
            if j == 7 {
                assert(g[7].0 != "nil"@);
            }
            if j == 8 {
                assert(g[8].0 != "nil"@);
            }
            if j == 9 {
                assert(g[9].0 != "nil"@);
            }
            if j == 10 {
                assert(g[10].0 != "nil"@);
            }
            if j == 11 {
                assert(g[11].0 != "nil"@);
            }
            if j == 12 {
                assert(g[12].0 != "nil"@);
            }
            if j == 13 {
                assert(g[13].0 != "nil"@);
            }
    }
    lemma_lookup_index(g, "nil"@, 0);
    assert(lookup_from(Seq::empty(), "true"@) is None);
    assert forall|j: int| 1 < j < g.len() implies (#[trigger] g[j]).0 != "true"@ by {
            if j == 2 {
                assert(g[2].0 != "true"@);
            }
            if j == 3 {
                assert(g[3].0 != "true"@);
            }
            if j == 4 {
                assert(g[4].0 != "true"@);
            }
            if j == 5 {
                assert(g[5].0 != "true"@);
            }
            if j == 6 {
                assert(g[6].0 != "true"@);
            }
            if j == 7 {
                assert(g[7].0 != "true"@);
            }
            if j == 8 {
                assert(g[8].0 != "true"@);
            }
            if j == 9 {
                assert(g[9].0 != "true"@);
            }
            if j == 10 {
                assert(g[10].0 != "true"@);
            }
            if j == 11 {
                assert(g[11].0 != "true"@);
            }
            if j == 12 {
                assert(g[12].0 != "true"@);
            }
            if j == 13 {
                assert(g[13].0 != "true"@);
            }
    }
    lemma_lookup_index(g, "true"@, 1);
    assert(lookup_from(Seq::empty(), "false"@) is None);
    assert forall|j: int| 2 < j < g.len() implies (#[trigger] g[j]).0 != "false"@ by {
            if j == 3 {
                assert(g[3].0 != "false"@);
            }
            if j == 4 {
                assert(g[4].0 != "false"@);
            }
            if j == 5 {
                assert(g[5].0 != "false"@);
            }
            if j == 6 {
                assert(g[6].0 != "false"@);
            }
            if j == 7 {
                assert(g[7].0 != "false"@);
            }
            if j == 8 {
                assert(g[8].0 != "false"@);
            }
            if j == 9 {
                assert(g[9].0 != "false"@);
            }
            if j == 10 {
                assert(g[10].0 != "false"@);
            }
            if j == 11 {
                assert(g[11].0 != "false"@);
            }
            if j == 12 {
                assert(g[12].0 != "false"@);
            }
            if j == 13 {
                assert(g[13].0 != "false"@);
            }
    }
    lemma_lookup_index(g, "false"@, 2);
    assert(lookup_from(Seq::empty(), "def"@) is None);
    assert forall|j: int| 3 < j < g.len() implies (#[trigger] g[j]).0 != "def"@ by {
            if j == 4 {
                assert(g[4].0 != "def"@);
            }
            if j == 5 {
                assert(g[5].0 != "def"@);
            }
            if j == 6 {
                assert(g[6].0 != "def"@);
            }
            if j == 7 {
                assert(g[7].0 != "def"@);
            }
            if j == 8 {
                assert(g[8].0 != "def"@);
            }
            if j == 9 {
                assert(g[9].0 != "def"@);
            }
            if j == 10 {
                assert(g[10].0 != "def"@);
            }
            if j == 11 {
                assert(g[11].0 != "def"@);
            }
            if j == 12 {
                assert(g[12].0 != "def"@);
            }
            if j == 13 {
                assert(g[13].0 != "def"@);
            }
    }
    lemma_lookup_index(g, "def"@, 3);
    assert(lookup_from(Seq::empty(), "if"@) is None);
    assert forall|j: int| 4 < j < g.len() implies (#[trigger] g[j]).0 != "if"@ by {
            if j == 5 {
                assert(g[5].0 != "if"@);
            }
            if j == 6 {
                assert(g[6].0 != "if"@);
            }
            if j == 7 {
                assert(g[7].0 != "if"@);
            }
            if j == 8 {
                assert(g[8].0 != "if"@);
            }
            if j == 9 {
                assert(g[9].0 != "if"@);
            }
            if j == 10 {
                assert(g[10].0 != "if"@);
            }
            if j == 11 {
                assert(g[11].0 != "if"@);
            }
            if j == 12 {
                assert(g[12].0 != "if"@);
            }
            if j == 13 {
                assert(g[13].0 != "if"@);
            }
    }
    lemma_lookup_index(g, "if"@, 4);
    assert(lookup_from(Seq::empty(), "fn"@) is None);
    assert forall|j: int| 5 < j < g.len() implies (#[trigger] g[j]).0 != "fn"@ by {
            if j == 6 {
                assert(g[6].0 != "fn"@);
            }
            if j == 7 {
                assert(g[7].0 != "fn"@);
            }
            if j == 8 {
                assert(g[8].0 != "fn"@);
            }
            if j == 9 {
                assert(g[9].0 != "fn"@);
            }
            if j == 10 {
                assert(g[10].0 != "fn"@);
            }
            if j == 11 {
                assert(g[11].0 != "fn"@);
            }
            if j == 12 {
                assert(g[12].0 != "fn"@);
            }
            if j == 13 {
                assert(g[13].0 != "fn"@);
            }
    }
    lemma_lookup_index(g, "fn"@, 5);
    assert(lookup_from(Seq::empty(), "import"@) is None);
    assert forall|j: int| 6 < j < g.len() implies (#[trigger] g[j]).0 != "import"@ by {
            if j == 7 {
                assert(g[7].0 != "import"@);
            }
            if j == 8 {
                assert(g[8].0 != "import"@);
            }
            if j == 9 {
                assert(g[9].0 != "import"@);
            }
            if j == 10 {
                assert(g[10].0 != "import"@);
            }
            if j == 11 {
                assert(g[11].0 != "import"@);
            }
            if j == 12 {
                assert(g[12].0 != "import"@);
            }
            if j == 13 {
                assert(g[13].0 != "import"@);
            }
    }
    lemma_lookup_index(g, "import"@, 6);
    assert(lookup_from(Seq::empty(), "+"@) is None);
    assert forall|j: int| 7 < j < g.len() implies (#[trigger] g[j]).0 != "+"@ by {
            if j == 8 {
                assert(g[8].0 != "+"@);
            }
            if j == 9 {
                assert(g[9].0 != "+"@);
            }
            if j == 10 {
                assert(g[10].0 != "+"@);
            }
            if j == 11 {
                assert(g[11].0 != "+"@);
            }
            if j == 12 {
                assert(g[12].0 != "+"@);
            }
            if j == 13 {
                assert(g[13].0 != "+"@);
            }
    }
    lemma_lookup_index(g, "+"@, 7);
    assert(lookup_from(Seq::empty(), "="@) is None);
    assert forall|j: int| 8 < j < g.len() implies (#[trigger] g[j]).0 != "="@ by {
            if j == 9 {
                assert(g[9].0 != "="@);
            }
            if j == 10 {
                assert(g[10].0 != "="@);
            }
            if j == 11 {
                assert(g[11].0 != "="@);
            }
            if j == 12 {
                assert(g[12].0 != "="@);
            }
            if j == 13 {
                assert(g[13].0 != "="@);
            }
    }
    lemma_lookup_index(g, "="@, 8);
    assert(lookup_from(Seq::empty(), "list"@) is None);
    assert forall|j: int| 9 < j < g.len() implies (#[trigger] g[j]).0 != "list"@ by {
            if j == 10 {
                assert(g[10].0 != "list"@);
            }
            if j == 11 {
                assert(g[11].0 != "list"@);
            }
            if j == 12 {
                assert(g[12].0 != "list"@);
            }
            if j == 13 {
                assert(g[13].0 != "list"@);
            }
    }
    lemma_lookup_index(g, "list"@, 9);
    assert(lookup_from(Seq::empty(), "first"@) is None);
    assert forall|j: int| 10 < j < g.len() implies (#[trigger] g[j]).0 != "first"@ by {
            if j == 11 {
                assert(g[11].0 != "first"@);
            }
            if j == 12 {
                assert(g[12].0 != "first"@);
            }
            if j == 13 {
                assert(g[13].0 != "first"@);
            }
    }
    lemma_lookup_index(g, "first"@, 10);
    assert(lookup_from(Seq::empty(), "rest"@) is None);
    assert forall|j: int| 11 < j < g.len() implies (#[trigger] g[j]).0 != "rest"@ by {
            if j == 12 {
                assert(g[12].0 != "rest"@);
            }
            if j == 13 {
                assert(g[13].0 != "rest"@);
            }
    }
    lemma_lookup_index(g, "rest"@, 11);
    assert(lookup_from(Seq::empty(), "cons"@) is None);
    assert forall|j: int| 12 < j < g.len() implies (#[trigger] g[j]).0 != "cons"@ by {
            if j == 13 {
                assert(g[13].0 != "cons"@);
            }
    }
    lemma_lookup_index(g, "cons"@, 12);
    assert(lookup_from(Seq::empty(), "empty?"@) is None);
    lemma_lookup_index(g, "empty?"@, 13);
}

} // verus!
