use vstd::prelude::*;
use crate::lang::library::Lib;
use crate::lang::scalar::Scalar;
use crate::lang::term::{Level, Term, TermM, term_m};
use crate::lang::value_type::{Ty, ValueType, ty_of};
use crate::lang::typing::{complex_ty, value_ty, lemma_values_ty};

verus! {

/// Why evaluation stopped without a value.  Apart from `DepthExhausted`,
/// these arise only from terms that elaboration would have rejected.
#[derive(Clone, Copy, PartialEq, Eq, Debug)]
pub enum EvalError {
    /// A variable index beyond the environment.
    VarNotFound,
    /// A condition that is not a boolean.
    NotBool,
    /// A built-in or array applied to an operand of the wrong shape.
    BadArgument,
    /// Closure calls nested deeper than the depth allowed.
    DepthExhausted,
}

/// The model of an evaluation result.
pub open spec fn result_m<N>(r: Result<Value<N>, EvalError>) -> Result<ValueM<N>, EvalError> {
    match r {
        Ok(v) => Ok(v@),
        Err(e) => Err(e),
    }
}

impl EvalError {
    /// A description of the error.
    pub fn message(&self) -> (r: String) {
        match self {
            EvalError::VarNotFound => String::from_str("variable not found"),
            EvalError::NotBool => String::from_str("condition is not a boolean"),
            EvalError::BadArgument => String::from_str("built-in applied to an argument of the wrong shape"),
            EvalError::DepthExhausted => String::from_str("calls nested too deeply"),
        }
    }
}

/// An array handed to a program as a function from index to sample.
#[derive(PartialEq, Debug)]
pub enum Extern<N> {
    FloatArray(Vec<N>),
    ComplexArray(Vec<(N, N)>),
}

/// The model of an `Extern`.
pub enum ExternM<N> {
    FloatArray(Seq<N>),
    ComplexArray(Seq<(N, N)>),
}

impl<N> View for Extern<N> {
    type V = ExternM<N>;

    open spec fn view(&self) -> ExternM<N> {
        match self {
            Extern::FloatArray(v) => ExternM::FloatArray(v@),
            Extern::ComplexArray(v) => ExternM::ComplexArray(v@),
        }
    }
}

/// The environment stack: the innermost binding is last.
pub type Env<N> = Vec<Value<N>>;

/// A function value: its body, its own copy of the environment it was
/// created in, and its parameter's name (for display).
#[derive(PartialEq, Debug)]
pub struct Closure<N>(pub Box<Term<N>>, pub Env<N>, pub String);

/// Runtime values.  `Var` (a parameter not yet supplied), `Apply` (an
/// application that cannot be reduced yet) and `Alt` (a choice whose
/// condition is not known yet) arise only during normalization.
#[derive(PartialEq, Debug)]
pub enum Value<N> {
    Int(i32),
    Float(N),
    Bool(bool),
    Lib(Lib<N>),
    Var(Level),
    Tuple(Vec<Value<N>>),
    Extern(Extern<N>),
    Apply(Box<Value<N>>, Vec<Value<N>>),
    Func(Box<ValueType>, Closure<N>),
    Alt(Box<Value<N>>, Box<Value<N>>, Box<Value<N>>),
}

/// The model of a value.
pub enum ValueM<N> {
    Int(i32),
    Float(N),
    Bool(bool),
    Lib(Lib<N>),
    Var(Level),
    Tuple(Seq<ValueM<N>>),
    Extern(ExternM<N>),
    Apply(Box<ValueM<N>>, Seq<ValueM<N>>),
    Func(Ty, TermM<N>, Seq<ValueM<N>>, Seq<char>),
    Alt(Box<ValueM<N>>, Box<ValueM<N>>, Box<ValueM<N>>),
}

pub open spec fn value_m<N>(v: Value<N>) -> ValueM<N>
    decreases v, 1nat,
{
    match v {
        Value::Int(i) => ValueM::Int(i),
        Value::Float(x) => ValueM::Float(x),
        Value::Bool(b) => ValueM::Bool(b),
        Value::Lib(l) => ValueM::Lib(l),
        Value::Var(l) => ValueM::Var(l),
        Value::Tuple(vs) => ValueM::Tuple(values_m(vs@)),
        Value::Extern(e) => ValueM::Extern(e@),
        Value::Apply(f, args) => ValueM::Apply(Box::new(value_m(*f)), values_m(args@)),
        Value::Func(p, c) => ValueM::Func(ty_of(*p), term_m(*c.0), values_m(c.1@), c.2@),
        Value::Alt(c, a, b) => ValueM::Alt(Box::new(value_m(*c)), Box::new(value_m(*a)), Box::new(value_m(*b))),
    }
}

/// The models of a sequence of values.
pub open spec fn values_m<N>(vs: Seq<Value<N>>) -> Seq<ValueM<N>>
    decreases vs, 0nat,
{
    Seq::new(vs.len(), |i: int| if 0 <= i < vs.len() { value_m(vs[i]) } else { ValueM::Bool(false) })
}

impl<N> View for Value<N> {
    type V = ValueM<N>;

    open spec fn view(&self) -> ValueM<N> {
        value_m(*self)
    }
}

/// Whether a built-in reads the resource, so that only evaluation, which
/// holds one, may resolve it.
pub open spec fn lib_is_symbol<N>(l: Lib<N>) -> bool {
    l is Fft || l is Beat || l is Sec
}

/// A value is symbolic when it holds a parameter not yet supplied, a stuck
/// application, a pending choice or a resource reader, anywhere in its
/// tuple structure.  No built-in computes on a symbolic operand.
pub open spec fn is_symbolic<N>(v: ValueM<N>) -> bool
    decreases v, 1nat, 0nat,
{
    match v {
        ValueM::Var(_) => true,
        ValueM::Apply(_, _) => true,
        ValueM::Alt(_, _, _) => true,
        ValueM::Lib(l) => lib_is_symbol(l),
        ValueM::Tuple(vs) => any_symbolic(vs, vs.len()),
        _ => false,
    }
}

/// Whether one of the first `n` values is symbolic.
pub open spec fn any_symbolic<N>(vs: Seq<ValueM<N>>, n: nat) -> bool
    decreases vs, 0nat, n,
{
    if n == 0 || n > vs.len() {
        false
    } else {
        any_symbolic(vs, (n - 1) as nat) || is_symbolic(vs[n - 1])
    }
}

/// Copies of a sequence of values, equal to them in the model.
pub fn copy_values<N: Scalar>(vs: &Vec<Value<N>>) -> (r: Vec<Value<N>>)
    ensures
        values_m(r@) == values_m(vs@),
    decreases vs, 1nat,
{
    let mut out: Vec<Value<N>> = Vec::new();
    let mut i: usize = 0;
    while i < vs.len()
        invariant
            i <= vs@.len(),
            out@.len() == i,
            forall|j: int| 0 <= j < i ==> (#[trigger] out@[j])@ == vs@[j]@,
        decreases vs@.len() - i,
    {
        proof {
            assert(decreases_to!(vs => vs[i as int]));
        }
        let c = vs[i].copy();
        out.push(c);
        i = i + 1;
    }
    assert(values_m(out@) =~= values_m(vs@));
    out
}

impl<N: Scalar> Value<N> {
    /// A copy of the value, equal to it in the model.  A closure's copy has
    /// its own copy of the captured environment.
    pub fn copy(&self) -> (r: Value<N>)
        ensures
            r@ == self@,
        decreases self, 0nat,
    {
        match self {
            Value::Int(i) => Value::Int(*i),
            Value::Float(x) => Value::Float(*x),
            Value::Bool(b) => Value::Bool(*b),
            Value::Lib(l) => Value::Lib(*l),
            Value::Var(l) => Value::Var(*l),
            Value::Tuple(vs) => {
                proof {
                    assert(decreases_to!(*self => *vs));
                }
                let out = copy_values(vs);
                Value::Tuple(out)
            },
            Value::Extern(e) => Value::Extern(e.copy()),
            Value::Apply(f, args) => {
                let g = f.copy();
                proof {
                    assert(decreases_to!(*self => *args));
                }
                let out = copy_values(args);
                Value::Apply(Box::new(g), out)
            },
            Value::Func(p, c) => {
                proof {
                    assert(decreases_to!(*self => *c));
                    assert(decreases_to!(*c => c.1));
                }
                let env = copy_values(&c.1);
                Value::Func(Box::new(p.copy()), Closure(Box::new(c.0.copy()), env, c.2.clone()))
            },
            Value::Alt(c, a, b) => Value::Alt(Box::new(c.copy()), Box::new(a.copy()), Box::new(b.copy())),
        }
    }
}

impl<N: Scalar> Extern<N> {
    /// A copy of the array.
    pub fn copy(&self) -> (r: Extern<N>)
        ensures
            r@ == self@,
    {
        match self {
            Extern::FloatArray(v) => {
                let mut out: Vec<N> = Vec::new();
                let mut i: usize = 0;
                while i < v.len()
                    invariant
                        i <= v@.len(),
                        out@ == v@.subrange(0, i as int),
                    decreases v@.len() - i,
                {
                    out.push(v[i]);
                    i = i + 1;
                    proof {
                        assert(out@ =~= v@.subrange(0, i as int));
                    }
                }
                assert(out@ =~= v@);
                Extern::FloatArray(out)
            },
            Extern::ComplexArray(v) => {
                let mut out: Vec<(N, N)> = Vec::new();
                let mut i: usize = 0;
                while i < v.len()
                    invariant
                        i <= v@.len(),
                        out@ == v@.subrange(0, i as int),
                    decreases v@.len() - i,
                {
                    out.push(v[i]);
                    i = i + 1;
                    proof {
                        assert(out@ =~= v@.subrange(0, i as int));
                    }
                }
                assert(out@ =~= v@);
                Extern::ComplexArray(out)
            },
        }
    }
}


pub proof fn lemma_values_m<N>(vs: Seq<Value<N>>)
    ensures
        values_m(vs).len() == vs.len(),
        forall|i: int| 0 <= i < vs.len() ==> #[trigger] values_m(vs)[i] == vs[i]@,
{
}

pub proof fn lemma_value_member_decreases<N>(v: Value<N>, i: int)
    requires
        v is Tuple,
        0 <= i < v->Tuple_0@.len(),
    ensures
        decreases_to!(v => v->Tuple_0@[i]),
{
    assert(decreases_to!(v => v->Tuple_0));
    assert(decreases_to!(v->Tuple_0 => v->Tuple_0[i]));
}

/// A symbolic member among the first `n` stays among the first `m >= n`.
pub proof fn lemma_any_symbolic_grows<N>(vs: Seq<ValueM<N>>, n: nat)
    requires
        n <= vs.len(),
        any_symbolic(vs, n),
    ensures
        any_symbolic(vs, vs.len()),
    decreases vs.len() - n,
{
    if n < vs.len() {
        lemma_any_symbolic_grows(vs, n + 1);
    }
}

/// A value of type `Float` is a number.
pub proof fn lemma_float_typed<N>(v: ValueM<N>)
    requires
        value_ty(v) == Some(Ty::Float),
    ensures
        v is Int || v is Float,
{
}

/// A value of type `(Float, Float)` is a pair of numbers.
pub proof fn lemma_complex_typed<N>(v: ValueM<N>)
    requires
        value_ty(v) == Some(complex_ty()),
    ensures
        v is Tuple,
        v->Tuple_0.len() == 2,
        v->Tuple_0[0] is Int || v->Tuple_0[0] is Float,
        v->Tuple_0[1] is Int || v->Tuple_0[1] is Float,
{
    let vs = v->Tuple_0;
    lemma_values_ty(vs, vs.len());
    assert(value_ty(v)->0->Tuple_0 == complex_ty()->Tuple_0);
    assert(complex_ty()->Tuple_0[0] == Ty::Float);
    assert(complex_ty()->Tuple_0[1] == Ty::Float);
    lemma_float_typed(vs[0]);
    lemma_float_typed(vs[1]);
}

/// A number (`Float` or `Int`) is never symbolic.
pub proof fn lemma_typed_number_not_symbolic<N>(v: ValueM<N>)
    requires
        value_ty(v) == Some(Ty::Float) || value_ty(v) == Some(complex_ty()),
    ensures
        !is_symbolic(v),
{
    if value_ty(v) == Some(Ty::Float) {
        lemma_float_typed(v);
    } else {
        lemma_complex_typed(v);
        let vs = v->Tuple_0;
        assert(!is_symbolic(vs[0]));
        assert(!is_symbolic(vs[1]));
        reveal_with_fuel(any_symbolic, 3);
        assert(!any_symbolic(vs, 0));
        assert(!any_symbolic(vs, 1));
        assert(!any_symbolic(vs, 2));
    }
}

impl<N: Scalar> Value<N> {
    /// Whether the value is symbolic; see `is_symbolic`.
    pub fn is_symbol(&self) -> (r: bool)
        ensures
            r == is_symbolic(self@),
        decreases self,
    {
        match self {
            Value::Var(_) => true,
            Value::Apply(_, _) => true,
            Value::Alt(_, _, _) => true,
            Value::Lib(l) => l.is_symbol(),
            Value::Tuple(xs) => {
                let mut i: usize = 0;
                while i < xs.len()
                    invariant
                        i <= xs@.len(),
                        *self == Value::Tuple(*xs),
                        !any_symbolic(values_m(xs@), i as nat),
                    decreases xs@.len() - i,
                {
                    proof {
                        lemma_value_member_decreases(*self, i as int);
                        lemma_values_m(xs@);
                    }
                    if xs[i].is_symbol() {
                        proof {
                            lemma_any_symbolic_grows(values_m(xs@), (i + 1) as nat);
                        }
                        return true;
                    }
                    i = i + 1;
                }
                proof {
                    lemma_values_m(xs@);
                }
                false
            },
            _ => false,
        }
    }
}

} // verus!
