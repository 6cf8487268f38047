//! The tagged value flowing through the whole interpreter, together with its
//! mathematical model (`SpecVal`) and structural equality.

use vstd::prelude::*;

verus! {

broadcast use vstd::std_specs::vec::axiom_vec_index_decreases, vstd::std_specs::vec::axiom_vec_decreases_to_view, vstd::seq::axiom_seq_index_decreases, vstd::seq::axiom_seq_subrange_decreases;

/// The fixed registry of native operations and special forms.
#[derive(Clone, Copy, PartialEq, Eq, Structural, Debug)]
pub enum Builtin {
    /// `+`: sums evaluated integer arguments.
    Add,
    /// `=`: structural equality against the first argument.
    Equal,
    /// `def`: binds a symbol in the global scope.
    Define,
    /// `if`: evaluates one of two branches.
    Branch,
    /// `fn`: builds a closure from a parameter list and a body.
    Lambda,
    /// `import`: evaluates the forms of a loaded source file.
    Import,
    /// `list`: builds a list of the evaluated arguments.
    MakeList,
    /// `first`: head of a non-empty list.
    First,
    /// `rest`: a non-empty list without its head.
    Rest,
    /// `cons`: prepends a value to a list.
    Cons,
    /// `empty?`: whether a list has no elements.
    IsEmpty,
}

/// A user closure: parameter symbols, the unevaluated body, and a snapshot of
/// the local bindings in effect at definition time.  The global scope is not
/// captured; applying the closure reads the globals current at the call.
#[derive(Debug)]
pub struct Closure {
    pub params: Vec<String>,
    pub body: Box<Value>,
    pub captured: Vec<(String, Value)>,
}

/// What a `Function` does when applied: a native builtin or a user closure.
#[derive(Debug)]
pub enum FnKind {
    Native(Builtin),
    Closure(Closure),
}

/// A callable value.  The name is an identity and debug label only: two
/// functions are `=`-equal exactly when their names are equal.
#[derive(Debug)]
pub struct Function {
    pub name: String,
    pub kind: FnKind,
}

/// The tagged union the interpreter works on.  A `List` is used uniformly for
/// code (an unevaluated form) and for runtime data.
#[derive(Debug)]
pub enum Value {
    Bool(bool),
    Nil,
    Integer(i64),
    List(Vec<Value>),
    Function(Function),
    Symbol(String),
    Str(String),
}

/// Mathematical model of a `Value`: text as `Seq<char>`, lists as `Seq`.
pub enum SpecVal {
    Bool(bool),
    Nil,
    Integer(i64),
    List(Seq<SpecVal>),
    Function(SpecFun),
    Symbol(Seq<char>),
    Str(Seq<char>),
}

/// Model of a `Closure`.
pub struct SpecClosure {
    pub params: Seq<Seq<char>>,
    pub body: Box<SpecVal>,
    pub captured: Seq<(Seq<char>, SpecVal)>,
}

/// Model of an `FnKind`.
pub enum SpecFnKind {
    Native(Builtin),
    Closure(SpecClosure),
}

/// Model of a `Function`.
pub struct SpecFun {
    pub name: Seq<char>,
    pub kind: SpecFnKind,
}

/// Models of the elements of a list of values, in order.
pub open spec fn model_seq(es: Seq<Value>) -> Seq<SpecVal>
    decreases es,
{
    if es.len() <= 0 {
        Seq::empty()
    } else {
        Seq::empty().push(es[0].model()) + model_seq(es.subrange(1, es.len() as int))
    }
}

/// Models of a list of bindings: each name with the model of its value.
pub open spec fn model_bindings(bs: Seq<(String, Value)>) -> Seq<(Seq<char>, SpecVal)>
    decreases bs,
    via model_bindings_via
{
    if bs.len() <= 0 {
        Seq::empty()
    } else {
        Seq::empty().push((bs[0].0@, bs[0].1.model())) + model_bindings(
            bs.subrange(1, bs.len() as int),
        )
    }
}

#[via_fn]
proof fn model_bindings_via(bs: Seq<(String, Value)>) {
    if bs.len() > 0 {
        assert(decreases_to!(bs => bs[0]));
    }
}

/// Views of a list of parameter symbols.
pub open spec fn model_params(ps: Seq<String>) -> Seq<Seq<char>>
    decreases ps,
{
    if ps.len() <= 0 {
        Seq::empty()
    } else {
        Seq::empty().push(ps[0]@) + model_params(ps.subrange(1, ps.len() as int))
    }
}

impl Value {
    /// The mathematical value this `Value` stands for.
    pub open spec fn model(self) -> SpecVal
        decreases self,
    {
        match self {
            Value::Bool(b) => SpecVal::Bool(b),
            Value::Nil => SpecVal::Nil,
            Value::Integer(i) => SpecVal::Integer(i),
            Value::List(es) => SpecVal::List(model_seq(es@)),
            Value::Function(f) => SpecVal::Function(f.model()),
            Value::Symbol(s) => SpecVal::Symbol(s@),
            Value::Str(s) => SpecVal::Str(s@),
        }
    }
}

impl Function {
    /// The mathematical value this `Function` stands for.
    pub open spec fn model(self) -> SpecFun
        decreases self,
    {
        SpecFun {
            name: self.name@,
            kind: match self.kind {
                FnKind::Native(b) => SpecFnKind::Native(b),
                FnKind::Closure(c) => SpecFnKind::Closure(c.model()),
            },
        }
    }
}

impl Closure {
    /// The mathematical value this `Closure` stands for.
    pub open spec fn model(self) -> SpecClosure
        decreases self,
    {
        SpecClosure {
            params: model_params(self.params@),
            body: Box::new((*self.body).model()),
            captured: model_bindings(self.captured@),
        }
    }
}

/// The model of a list of values has one element per value: the model of the
/// value at the same position.
pub proof fn lemma_model_seq(es: Seq<Value>)
    ensures
        model_seq(es).len() == es.len(),
        forall|i: int| 0 <= i < es.len() ==> #[trigger] model_seq(es)[i] == es[i].model(),
    decreases es.len(),
{
    if es.len() > 0 {
        let tail = es.subrange(1, es.len() as int);
        lemma_model_seq(tail);
        assert forall|i: int| 0 <= i < es.len() implies #[trigger] model_seq(es)[i]
            == es[i].model() by {
            if i > 0 {
                assert(model_seq(es)[i] == model_seq(tail)[i - 1]);
                assert(tail[i - 1] == es[i]);
            }
        }
    }
}

/// The model of a binding list keeps each name with the model of its value.
pub proof fn lemma_model_bindings(bs: Seq<(String, Value)>)
    ensures
        model_bindings(bs).len() == bs.len(),
        forall|i: int|
            0 <= i < bs.len() ==> #[trigger] model_bindings(bs)[i] == (bs[i].0@, bs[i].1.model()),
    decreases bs.len(),
{
    if bs.len() > 0 {
        let tail = bs.subrange(1, bs.len() as int);
        lemma_model_bindings(tail);
        assert forall|i: int| 0 <= i < bs.len() implies #[trigger] model_bindings(bs)[i] == (
        bs[i].0@,
        bs[i].1.model(),
        ) by {
            if i > 0 {
                assert(model_bindings(bs)[i] == model_bindings(tail)[i - 1]);
                assert(tail[i - 1] == bs[i]);
            }
        }
    }
}

/// The model of a parameter list is the view of each symbol in order.
pub proof fn lemma_model_params(ps: Seq<String>)
    ensures
        model_params(ps).len() == ps.len(),
        forall|i: int| 0 <= i < ps.len() ==> #[trigger] model_params(ps)[i] == ps[i]@,
    decreases ps.len(),
{
    if ps.len() > 0 {
        let tail = ps.subrange(1, ps.len() as int);
        lemma_model_params(tail);
        assert forall|i: int| 0 <= i < ps.len() implies #[trigger] model_params(ps)[i]
            == ps[i]@ by {
            if i > 0 {
                assert(model_params(ps)[i] == model_params(tail)[i - 1]);
                assert(tail[i - 1] == ps[i]);
            }
        }
    }
}

/// Models of the loaded sources: each path with the models of its forms.
pub open spec fn model_sources(ss: Seq<(String, Vec<Value>)>) -> Seq<(Seq<char>, Seq<SpecVal>)>
    decreases ss,
    via model_sources_via
{
    if ss.len() <= 0 {
        Seq::empty()
    } else {
        Seq::empty().push((ss[0].0@, model_seq(ss[0].1@))) + model_sources(
            ss.subrange(1, ss.len() as int),
        )
    }
}

#[via_fn]
proof fn model_sources_via(ss: Seq<(String, Vec<Value>)>) {
    if ss.len() > 0 {
        assert(decreases_to!(ss => ss[0]));
    }
}

/// The model of the loaded sources keeps each path with its forms' models.
pub proof fn lemma_model_sources(ss: Seq<(String, Vec<Value>)>)
    ensures
        model_sources(ss).len() == ss.len(),
        forall|i: int|
            0 <= i < ss.len() ==> #[trigger] model_sources(ss)[i] == (
            ss[i].0@,
            model_seq(ss[i].1@),
            ),
    decreases ss.len(),
{
    if ss.len() > 0 {
        let tail = ss.subrange(1, ss.len() as int);
        lemma_model_sources(tail);
        assert forall|i: int| 0 <= i < ss.len() implies #[trigger] model_sources(ss)[i] == (
        ss[i].0@,
        model_seq(ss[i].1@),
        ) by {
            if i > 0 {
                assert(model_sources(ss)[i] == model_sources(tail)[i - 1]);
                assert(tail[i - 1] == ss[i]);
            }
        }
    }
}

/// Pushing a value onto a list pushes its model onto the list's model.
pub proof fn lemma_model_seq_push(es: Seq<Value>, v: Value)
    ensures
        model_seq(es.push(v)) == model_seq(es).push(v.model()),
{
    lemma_model_seq(es);
    lemma_model_seq(es.push(v));
    assert(model_seq(es.push(v)) =~= model_seq(es).push(v.model()));
}

/// Inserting a value at the front prepends its model.
pub proof fn lemma_model_seq_insert0(es: Seq<Value>, v: Value)
    ensures
        model_seq(es.insert(0, v)) == Seq::empty().push(v.model()) + model_seq(es),
{
    lemma_model_seq(es);
    lemma_model_seq(es.insert(0, v));
    assert(model_seq(es.insert(0, v)) =~= Seq::empty().push(v.model()) + model_seq(es));
}

/// Removing the front value drops the front of the model.
pub proof fn lemma_model_seq_remove0(es: Seq<Value>)
    requires
        es.len() > 0,
    ensures
        model_seq(es.remove(0)) == model_seq(es).subrange(1, model_seq(es).len() as int),
{
    lemma_model_seq(es);
    lemma_model_seq(es.remove(0));
    assert(model_seq(es.remove(0)) =~= model_seq(es).subrange(1, model_seq(es).len() as int));
}

/// Pushing a binding pushes its model.
pub proof fn lemma_model_bindings_push(bs: Seq<(String, Value)>, p: (String, Value))
    ensures
        model_bindings(bs.push(p)) == model_bindings(bs).push((p.0@, p.1.model())),
{
    lemma_model_bindings(bs);
    lemma_model_bindings(bs.push(p));
    assert(model_bindings(bs.push(p)) =~= model_bindings(bs).push((p.0@, p.1.model())));
}

/// Inserting a symbol at the front of a parameter list prepends its view.
pub proof fn lemma_model_params_insert0(ss: Seq<String>, s: String)
    ensures
        model_params(ss.insert(0, s)) == Seq::empty().push(s@) + model_params(ss),
{
    lemma_model_params(ss);
    lemma_model_params(ss.insert(0, s));
    assert(model_params(ss.insert(0, s)) =~= Seq::empty().push(s@) + model_params(ss));
}

/// Concatenating parameter lists concatenates their models.
pub proof fn lemma_model_params_append(a: Seq<String>, b: Seq<String>)
    ensures
        model_params(a + b) == model_params(a) + model_params(b),
{
    lemma_model_params(a);
    lemma_model_params(b);
    lemma_model_params(a + b);
    assert(model_params(a + b) =~= model_params(a) + model_params(b));
}

/// Pushing a source pushes its model.
pub proof fn lemma_model_sources_push(ss: Seq<(String, Vec<Value>)>, p: (String, Vec<Value>))
    ensures
        model_sources(ss.push(p)) == model_sources(ss).push((p.0@, model_seq(p.1@))),
{
    lemma_model_sources(ss);
    lemma_model_sources(ss.push(p));
    assert(model_sources(ss.push(p)) =~= model_sources(ss).push((p.0@, model_seq(p.1@))));
}

/// Clones every element of a list of values, preserving each model.
pub(crate) fn clone_value_vec(es: &Vec<Value>) -> (res: Vec<Value>)
    ensures
        res@.len() == es@.len(),
        forall|i: int| 0 <= i < es@.len() ==> #[trigger] res@[i].model() == es@[i].model(),
    decreases es,
{
    let mut out: Vec<Value> = Vec::new();
    let mut i: usize = 0;
    while i < es.len()
        invariant
            i <= es@.len(),
            out@.len() == i,
            forall|j: int| 0 <= j < i ==> #[trigger] out@[j].model() == es@[j].model(),
        decreases es@.len() - i,
    {
        out.push(es[i].clone());
        i = i + 1;
    }
    out
}

/// Clones a captured-bindings list, preserving each name and each model.
pub(crate) fn clone_binding_vec(bs: &Vec<(String, Value)>) -> (res: Vec<(String, Value)>)
    ensures
        res@.len() == bs@.len(),
        forall|i: int|
            0 <= i < bs@.len() ==> (#[trigger] res@[i].0)@ == bs@[i].0@ && res@[i].1.model()
                == bs@[i].1.model(),
    decreases bs,
{
    let mut out: Vec<(String, Value)> = Vec::new();
    let mut i: usize = 0;
    while i < bs.len()
        invariant
            i <= bs@.len(),
            out@.len() == i,
            forall|j: int|
                0 <= j < i ==> (#[trigger] out@[j].0)@ == bs@[j].0@ && out@[j].1.model()
                    == bs@[j].1.model(),
        decreases bs@.len() - i,
    {
        let pair = (bs[i].0.clone(), bs[i].1.clone());
        out.push(pair);
        i = i + 1;
    }
    out
}

/// Clones a parameter list, preserving each symbol.
pub(crate) fn clone_string_vec(ss: &Vec<String>) -> (res: Vec<String>)
    ensures
        res@.len() == ss@.len(),
        forall|i: int| 0 <= i < ss@.len() ==> (#[trigger] res@[i])@ == ss@[i]@,
{
    let mut out: Vec<String> = Vec::new();
    let mut i: usize = 0;
    while i < ss.len()
        invariant
            i <= ss@.len(),
            out@.len() == i,
            forall|j: int| 0 <= j < i ==> (#[trigger] out@[j])@ == ss@[j]@,
        decreases ss@.len() - i,
    {
        out.push(ss[i].clone());
        i = i + 1;
    }
    out
}

impl Clone for Value {
    /// A clone stands for the same mathematical value.
    fn clone(&self) -> (res: Self)
        ensures
            res.model() == self.model(),
        decreases self,
    {
        match self {
            Value::Bool(b) => Value::Bool(*b),
            Value::Nil => Value::Nil,
            Value::Integer(i) => Value::Integer(*i),
            Value::List(es) => {
                let out = clone_value_vec(es);
                proof {
                    lemma_model_seq(out@);
                    lemma_model_seq(es@);
                    assert(model_seq(out@) =~= model_seq(es@));
                }
                Value::List(out)
            },
            Value::Function(f) => Value::Function(f.clone()),
            Value::Symbol(s) => Value::Symbol(s.clone()),
            Value::Str(s) => Value::Str(s.clone()),
        }
    }
}

impl Clone for Function {
    /// A clone stands for the same mathematical value.
    fn clone(&self) -> (res: Self)
        ensures
            res.model() == self.model(),
        decreases self,
    {
        Function {
            name: self.name.clone(),
            kind: match &self.kind {
                FnKind::Native(b) => FnKind::Native(*b),
                FnKind::Closure(c) => FnKind::Closure(c.clone()),
            },
        }
    }
}

impl Clone for Closure {
    /// A clone stands for the same mathematical value.
    fn clone(&self) -> (res: Self)
        ensures
            res.model() == self.model(),
        decreases self,
    {
        let params = clone_string_vec(&self.params);
        let body = Box::new((*self.body).clone());
        let captured = clone_binding_vec(&self.captured);
        let res = Closure { params, body, captured };
        proof {
            lemma_model_params(res.params@);
            lemma_model_params(self.params@);
            assert(model_params(res.params@) =~= model_params(self.params@));
            lemma_model_bindings(res.captured@);
            lemma_model_bindings(self.captured@);
            assert(model_bindings(res.captured@) =~= model_bindings(self.captured@));
        }
        res
    }
}

} // verus!
