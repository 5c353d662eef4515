use vstd::prelude::*;
use crate::lang::scalar::Scalar;
use crate::lang::resource::Resource;
use crate::lang::typing::{complex_ty, func_ty, lib_ty, value_ty, values_ty, lemma_values_ty};
use crate::lang::value::{
    EvalError, Value, ValueM, value_m, result_m, is_symbolic, lib_is_symbol, lemma_complex_typed, lemma_float_typed,
    lemma_typed_number_not_symbolic, lemma_values_m,
};
use crate::lang::value_type::{Ty, ValueType, lemma_tuple_view};

verus! {

/// The built-in functions.  A binary operator applied to its first operand
/// becomes the same operator with that operand captured (`Add` and `3.0`
/// give `Add1(3.0)`; with an integer operand, `AddI`), so that partial
/// application needs no closure.  `Fft`, `Beat` and `Sec` read the resource
/// supplied at evaluation time.
#[derive(Clone, Copy, PartialEq, Debug)]
pub enum Lib<N> {
    Fft,
    Beat,
    Sec,
    Add,
    Sub,
    Mul,
    Div,
    Mod,
    Sin,
    Cos,
    Re,
    Im,
    Norm,
    Angle,
    Polar,
    Lt,
    Le,
    Gt,
    Ge,
    Add1(N),
    Sub1(N),
    Mul1(N),
    Div1(N),
    Mod1(N),
    Lt1(N),
    Le1(N),
    Gt1(N),
    Ge1(N),
    AddI(i32),
    SubI(i32),
    MulI(i32),
    DivI(i32),
    ModI(i32),
    LtI(i32),
    LeI(i32),
    GtI(i32),
    GeI(i32),
}


/// The built-in that a binary operator becomes once given its first
/// operand: the operand is captured in the tag.
pub open spec fn curried<N>(l: Lib<N>, a: ValueM<N>) -> Option<Lib<N>> {
    match a {
        ValueM::Float(x) => match l {
            Lib::Add => Some(Lib::Add1(x)),
            Lib::Sub => Some(Lib::Sub1(x)),
            Lib::Mul => Some(Lib::Mul1(x)),
            Lib::Div => Some(Lib::Div1(x)),
            Lib::Mod => Some(Lib::Mod1(x)),
            Lib::Lt => Some(Lib::Lt1(x)),
            Lib::Le => Some(Lib::Le1(x)),
            Lib::Gt => Some(Lib::Gt1(x)),
            Lib::Ge => Some(Lib::Ge1(x)),
            _ => None,
        },
        ValueM::Int(i) => match l {
            Lib::Add => Some(Lib::AddI(i)),
            Lib::Sub => Some(Lib::SubI(i)),
            Lib::Mul => Some(Lib::MulI(i)),
            Lib::Div => Some(Lib::DivI(i)),
            Lib::Mod => Some(Lib::ModI(i)),
            Lib::Lt => Some(Lib::LtI(i)),
            Lib::Le => Some(Lib::LeI(i)),
            Lib::Gt => Some(Lib::GtI(i)),
            Lib::Ge => Some(Lib::GeI(i)),
            _ => None,
        },
        _ => None,
    }
}

/// The parameter and result types of a built-in of function type.
pub open spec fn lib_param<N>(l: Lib<N>) -> Ty {
    *lib_ty(l)->Func_0
}

pub open spec fn lib_result<N>(l: Lib<N>) -> Ty {
    *lib_ty(l)->Func_1
}

/// The result of applying a built-in in normalization: a stuck application
/// when either side is symbolic, the curried tag for a binary operator's
/// first operand, and otherwise a value of the built-in's result type.
pub open spec fn papply_typed<N>(l: Lib<N>, a: ValueM<N>, r: Result<Value<N>, EvalError>) -> bool {
    &&& (is_symbolic(a) || lib_is_symbol(l)) ==> r is Ok && r->Ok_0@ == ValueM::Apply(
        Box::new(ValueM::Lib(l)),
        seq![a],
    )
    &&& (!is_symbolic(a) && !lib_is_symbol(l) && curried(l, a) is Some) ==> r is Ok && r->Ok_0@
        == ValueM::Lib(curried(l, a)->0)
    &&& (!lib_is_symbol(l) && lib_ty(l) is Func && value_ty(a) == Some(lib_param(l))) ==> r is Ok
        && value_ty(r->Ok_0@) == Some(lib_result(l))
    &&& r is Err ==> r == Err::<Value<N>, EvalError>(EvalError::BadArgument)
}

/// The number that a numeric model stands for.
pub open spec fn num_m<N: Scalar>(v: ValueM<N>) -> N {
    match v {
        ValueM::Int(i) => N::from_int_spec(i),
        ValueM::Float(x) => x,
        _ => N::zero_spec(),
    }
}

/// A built-in of type `Float -> Float` or `Float -> Bool` (not a binary
/// operator awaiting its first operand) applied to a number: the
/// operation named in `Scalar`.  Integer operators on integers compute in
/// wrapping integer arithmetic; division or remainder by zero gives zero.
pub open spec fn number_spec<N: Scalar>(l: Lib<N>, a: ValueM<N>) -> Option<ValueM<N>> {
    let f = num_m(a);
    let z = N::zero_spec();
    match (l, a) {
        (Lib::AddI(x), ValueM::Int(i)) => Some(ValueM::Int(x.wrapping_add(i))),
        (Lib::SubI(x), ValueM::Int(i)) => Some(ValueM::Int(x.wrapping_sub(i))),
        (Lib::MulI(x), ValueM::Int(i)) => Some(ValueM::Int(x.wrapping_mul(i))),
        (Lib::DivI(x), ValueM::Int(i)) => Some(
            ValueM::Float(if i == 0 { z } else { N::from_int_spec(x).divide_spec(f) }),
        ),
        (Lib::ModI(x), ValueM::Int(i)) => Some(
            ValueM::Int(
                match x.checked_rem(i) {
                    Some(m) => m,
                    None => 0,
                },
            ),
        ),
        (Lib::LtI(x), ValueM::Int(i)) => Some(ValueM::Bool(x < i)),
        (Lib::LeI(x), ValueM::Int(i)) => Some(ValueM::Bool(x <= i)),
        (Lib::GtI(x), ValueM::Int(i)) => Some(ValueM::Bool(x > i)),
        (Lib::GeI(x), ValueM::Int(i)) => Some(ValueM::Bool(x >= i)),
        _ => match l {
            Lib::Sin => Some(ValueM::Float(f.sin_spec())),
            Lib::Cos => Some(ValueM::Float(f.cos_spec())),
            Lib::Add1(x) => Some(ValueM::Float(x.plus_spec(f))),
            Lib::Sub1(x) => Some(ValueM::Float(x.minus_spec(f))),
            Lib::Mul1(x) => Some(ValueM::Float(x.times_spec(f))),
            Lib::Div1(x) => Some(ValueM::Float(if f.is_zero_spec() { z } else { x.divide_spec(f) })),
            Lib::Mod1(x) => Some(ValueM::Float(if f.is_zero_spec() { z } else { x.remainder_spec(f) })),
            Lib::Lt1(x) => Some(ValueM::Bool(x.less_spec(f))),
            Lib::Le1(x) => Some(ValueM::Bool(x.less_eq_spec(f))),
            Lib::Gt1(x) => Some(ValueM::Bool(f.less_spec(x))),
            Lib::Ge1(x) => Some(ValueM::Bool(f.less_eq_spec(x))),
            Lib::AddI(x) => Some(ValueM::Float(N::from_int_spec(x).plus_spec(f))),
            Lib::SubI(x) => Some(ValueM::Float(N::from_int_spec(x).minus_spec(f))),
            Lib::MulI(x) => Some(ValueM::Float(N::from_int_spec(x).times_spec(f))),
            Lib::DivI(x) => Some(ValueM::Float(if f.is_zero_spec() { z } else { N::from_int_spec(x).divide_spec(f) })),
            Lib::ModI(x) => Some(ValueM::Float(if f.is_zero_spec() { z } else { N::from_int_spec(x).remainder_spec(f) })),
            Lib::LtI(x) => Some(ValueM::Bool(N::from_int_spec(x).less_spec(f))),
            Lib::LeI(x) => Some(ValueM::Bool(N::from_int_spec(x).less_eq_spec(f))),
            Lib::GtI(x) => Some(ValueM::Bool(f.less_spec(N::from_int_spec(x)))),
            Lib::GeI(x) => Some(ValueM::Bool(f.less_eq_spec(N::from_int_spec(x)))),
            _ => None,
        },
    }
}

/// A complex-number helper applied to a pair of numbers `(x, y)`:
/// `re` gives `x`, `im` gives `y`, `norm` gives `sqrt(x*x + y*y)`, `angle`
/// gives `atan2(y, x)`, and `polar` reads the pair as norm and angle and
/// gives `(x*cos(y), x*sin(y))`.
pub open spec fn pair_spec<N: Scalar>(l: Lib<N>, a: ValueM<N>) -> Option<ValueM<N>> {
    match a {
        ValueM::Tuple(vs) => if vs.len() == 2 && (vs[0] is Int || vs[0] is Float) && (vs[1] is Int
            || vs[1] is Float) {
            let x = num_m(vs[0]);
            let y = num_m(vs[1]);
            match l {
                Lib::Re => Some(ValueM::Float(x)),
                Lib::Im => Some(ValueM::Float(y)),
                Lib::Norm => Some(ValueM::Float(x.times_spec(x).plus_spec(y.times_spec(y)).sqrt_spec())),
                Lib::Angle => Some(ValueM::Float(y.atan2_spec(x))),
                Lib::Polar => Some(
                    ValueM::Tuple(seq![ValueM::Float(x.times_spec(y.cos_spec())), ValueM::Float(x.times_spec(y.sin_spec()))]),
                ),
                _ => None,
            }
        } else {
            None
        },
        _ => None,
    }
}

/// Applying a built-in in normalization: a stuck application when either
/// side is symbolic, the curried tag for a binary operator's first
/// operand, a complex helper on a pair, an operation on a number, and
/// `BadArgument` for any other operand.
pub open spec fn papply_spec<N: Scalar>(l: Lib<N>, a: ValueM<N>) -> Result<ValueM<N>, EvalError> {
    if is_symbolic(a) || lib_is_symbol(l) {
        Ok(ValueM::Apply(Box::new(ValueM::Lib(l)), seq![a]))
    } else if curried(l, a) is Some {
        Ok(ValueM::Lib(curried(l, a)->0))
    } else if a is Tuple {
        match pair_spec(l, a) {
            Some(v) => Ok(v),
            None => Err(EvalError::BadArgument),
        }
    } else if a is Int || a is Float {
        match number_spec(l, a) {
            Some(v) => Ok(v),
            None => Err(EvalError::BadArgument),
        }
    } else {
        Err(EvalError::BadArgument)
    }
}

/// The number that a numeric value stands for.
fn number<N: Scalar>(v: &Value<N>) -> (r: Option<N>)
    ensures
        r is Some <==> (v is Int || v is Float),
        v is Float ==> r == Some(v->Float_0),
        r is Some ==> r->0 == num_m(v@),
{
    match v {
        Value::Float(x) => Some(*x),
        Value::Int(i) => Some(N::from_int(*i)),
        _ => None,
    }
}

impl<N: Scalar> Lib<N> {
    /// Whether the built-in reads the resource; see `lib_is_symbol`.
    pub fn is_symbol(&self) -> (r: bool)
        ensures
            r == lib_is_symbol(*self),
    {
        match self {
            Lib::Fft | Lib::Beat | Lib::Sec => true,
            _ => false,
        }
    }

    fn curry(&self, arg: &Value<N>) -> (r: Option<Lib<N>>)
        ensures
            r == curried(*self, arg@),
    {
        match arg {
            Value::Float(x) => {
                let x = *x;
                match self {
                    Lib::Add => Some(Lib::Add1(x)),
                    Lib::Sub => Some(Lib::Sub1(x)),
                    Lib::Mul => Some(Lib::Mul1(x)),
                    Lib::Div => Some(Lib::Div1(x)),
                    Lib::Mod => Some(Lib::Mod1(x)),
                    Lib::Lt => Some(Lib::Lt1(x)),
                    Lib::Le => Some(Lib::Le1(x)),
                    Lib::Gt => Some(Lib::Gt1(x)),
                    Lib::Ge => Some(Lib::Ge1(x)),
                    _ => None,
                }
            },
            Value::Int(i) => {
                let i = *i;
                match self {
                    Lib::Add => Some(Lib::AddI(i)),
                    Lib::Sub => Some(Lib::SubI(i)),
                    Lib::Mul => Some(Lib::MulI(i)),
                    Lib::Div => Some(Lib::DivI(i)),
                    Lib::Mod => Some(Lib::ModI(i)),
                    Lib::Lt => Some(Lib::LtI(i)),
                    Lib::Le => Some(Lib::LeI(i)),
                    Lib::Gt => Some(Lib::GtI(i)),
                    Lib::Ge => Some(Lib::GeI(i)),
                    _ => None,
                }
            },
            _ => None,
        }
    }

    /// A built-in of type `Float -> Float` or `Float -> Bool` (other than a
    /// curried one) applied to a number.
    fn apply_number(&self, arg: &Value<N>) -> (r: Option<Value<N>>)
        requires
            arg is Int || arg is Float,
        ensures
            (lib_ty(*self) is Func && lib_param(*self) == Ty::Float && curried(*self, arg@) is None
                && !lib_is_symbol(*self)) ==> r is Some && value_ty(r->0@) == Some(lib_result(*self)),
            r is Some <==> number_spec(*self, arg@) is Some,
            r matches Some(v) ==> number_spec(*self, arg@) == Some(v@),
    {
        let f = match number(arg) {
            Some(f) => f,
            None => { return None; },
        };
        let zero = N::zero();
        match (self, arg) {
            (Lib::AddI(x), Value::Int(i)) => Some(Value::Int(x.wrapping_add(*i))),
            (Lib::SubI(x), Value::Int(i)) => Some(Value::Int(x.wrapping_sub(*i))),
            (Lib::MulI(x), Value::Int(i)) => Some(Value::Int(x.wrapping_mul(*i))),
            (Lib::DivI(x), Value::Int(i)) => Some(Value::Float(
                if *i == 0 { zero } else { N::from_int(*x).divide(&f) },
            )),
            (Lib::ModI(x), Value::Int(i)) => Some(Value::Int(
                match x.checked_rem(*i) {
                    Some(m) => m,
                    None => 0,
                },
            )),
            (Lib::LtI(x), Value::Int(i)) => Some(Value::Bool(*x < *i)),
            (Lib::LeI(x), Value::Int(i)) => Some(Value::Bool(*x <= *i)),
            (Lib::GtI(x), Value::Int(i)) => Some(Value::Bool(*x > *i)),
            (Lib::GeI(x), Value::Int(i)) => Some(Value::Bool(*x >= *i)),
            _ => {
                match self {
                    Lib::Sin => Some(Value::Float(f.sin())),
                    Lib::Cos => Some(Value::Float(f.cos())),
                    Lib::Add1(x) => Some(Value::Float(x.plus(&f))),
                    Lib::Sub1(x) => Some(Value::Float(x.minus(&f))),
                    Lib::Mul1(x) => Some(Value::Float(x.times(&f))),
                    Lib::Div1(x) => Some(Value::Float(if f.is_zero() { zero } else { x.divide(&f) })),
                    Lib::Mod1(x) => Some(Value::Float(if f.is_zero() { zero } else { x.remainder(&f) })),
                    Lib::Lt1(x) => Some(Value::Bool(x.less(&f))),
                    Lib::Le1(x) => Some(Value::Bool(x.less_eq(&f))),
                    Lib::Gt1(x) => Some(Value::Bool(f.less(x))),
                    Lib::Ge1(x) => Some(Value::Bool(f.less_eq(x))),
                    Lib::AddI(x) => Some(Value::Float(N::from_int(*x).plus(&f))),
                    Lib::SubI(x) => Some(Value::Float(N::from_int(*x).minus(&f))),
                    Lib::MulI(x) => Some(Value::Float(N::from_int(*x).times(&f))),
                    Lib::DivI(x) => Some(Value::Float(if f.is_zero() { zero } else { N::from_int(*x).divide(&f) })),
                    Lib::ModI(x) => Some(Value::Float(if f.is_zero() { zero } else { N::from_int(*x).remainder(&f) })),
                    Lib::LtI(x) => Some(Value::Bool(N::from_int(*x).less(&f))),
                    Lib::LeI(x) => Some(Value::Bool(N::from_int(*x).less_eq(&f))),
                    Lib::GtI(x) => Some(Value::Bool(f.less(&N::from_int(*x)))),
                    Lib::GeI(x) => Some(Value::Bool(f.less_eq(&N::from_int(*x)))),
                    _ => None,
                }
            },
        }
    }

    /// A complex-number helper applied to a pair of numbers.
    fn apply_pair(&self, arg: &Value<N>) -> (r: Option<Value<N>>)
        ensures
            (lib_ty(*self) is Func && lib_param(*self) == complex_ty() && value_ty(arg@) == Some(complex_ty()))
                ==> r is Some && value_ty(r->0@) == Some(lib_result(*self)),
            r is Some <==> pair_spec(*self, arg@) is Some,
            r matches Some(v) ==> pair_spec(*self, arg@) == Some(v@),
    {
        proof {
            if value_ty(arg@) == Some(complex_ty()) {
                lemma_complex_typed(arg@);
            }
        }
        let xs = match arg {
            Value::Tuple(xs) => xs,
            _ => { return None; },
        };
        proof {
            lemma_values_m(xs@);
        }
        if xs.len() != 2 {
            return None;
        }
        let a = match number(&xs[0]) {
            Some(a) => a,
            None => { return None; },
        };
        let b = match number(&xs[1]) {
            Some(b) => b,
            None => { return None; },
        };
        match self {
            Lib::Re => Some(Value::Float(a)),
            Lib::Im => Some(Value::Float(b)),
            Lib::Norm => Some(Value::Float(a.times(&a).plus(&b.times(&b)).sqrt())),
            Lib::Angle => Some(Value::Float(b.atan2(&a))),
            Lib::Polar => {
                let re = a.times(&b.cos());
                let im = a.times(&b.sin());
                let mut parts: Vec<Value<N>> = Vec::new();
                parts.push(Value::Float(re));
                parts.push(Value::Float(im));
                let r = Value::Tuple(parts);
                proof {
                    lemma_values_m(parts@);
                    reveal_with_fuel(value_m, 2);
                    let vs = r@->Tuple_0;
                    assert(vs =~= seq![ValueM::Float(re), ValueM::Float(im)]);
                    assert(vs.len() == 2);
                    assert(value_ty(vs[0]) == Some(Ty::Float));
                    assert(value_ty(vs[1]) == Some(Ty::Float));
                    lemma_values_ty(vs, 2);
                    assert(values_ty(vs, 2)->0 =~= complex_ty()->Tuple_0);
                }
                Some(r)
            },
            _ => None,
        }
    }

    /// Applies the built-in during normalization; see `papply_typed`.
    pub fn papply(self, arg: Value<N>) -> (r: Result<Value<N>, EvalError>)
        ensures
            papply_typed(self, arg@, r),
            result_m(r) == papply_spec(self, arg@),
    {
        if arg.is_symbol() || self.is_symbol() {
            let ghost a = arg;
            proof {
                if !lib_is_symbol(self) && lib_ty(self) is Func && value_ty(arg@) == Some(lib_param(self)) {
                    lemma_typed_number_not_symbolic(arg@);
                }
            }
            let mut args: Vec<Value<N>> = Vec::new();
            args.push(arg);
            let r = Value::Apply(Box::new(Value::Lib(self)), args);
            proof {
                lemma_values_m(args@);
                reveal_with_fuel(value_m, 2);
                assert(r@->Apply_1 =~= seq![a@]);
                assert(r@ == ValueM::Apply(Box::new(ValueM::Lib(self)), seq![a@]));
            }
            return Ok(r);
        }
        if let Some(c) = self.curry(&arg) {
            return Ok(Value::Lib(c));
        }
        proof {
            if lib_ty(self) is Func && value_ty(arg@) == Some(lib_param(self)) {
                if lib_param(self) == Ty::Float {
                    lemma_float_typed(arg@);
                }
            }
        }
        if let Value::Tuple(_) = arg {
            match self.apply_pair(&arg) {
                Some(v) => Ok(v),
                None => Err(EvalError::BadArgument),
            }
        } else if let Some(v) = (match arg {
            Value::Int(_) | Value::Float(_) => self.apply_number(&arg),
            _ => None,
        }) {
            Ok(v)
        } else {
            Err(EvalError::BadArgument)
        }
    }
}

/// `Float -> r`, `(Float, Float)` and the like, built as values.
pub(crate) fn func_type(p: ValueType, r: ValueType) -> (t: ValueType)
    ensures
        t@ == func_ty(p@, r@),
{
    ValueType::Func(Box::new(p), Box::new(r))
}

pub(crate) fn complex_type() -> (t: ValueType)
    ensures
        t@ == complex_ty(),
{
    let mut parts: Vec<ValueType> = Vec::new();
    parts.push(ValueType::Float);
    parts.push(ValueType::Float);
    let t = ValueType::Tuple(parts);
    proof {
        lemma_tuple_view(t);
        assert(t@->Tuple_0 =~= complex_ty()->Tuple_0);
    }
    t
}

impl<N: Scalar> Lib<N> {
    /// The built-in's type; see `lib_ty`.
    pub fn value_type(&self) -> (r: ValueType)
        ensures
            r@ == lib_ty(*self),
    {
        match self {
            Lib::Fft => func_type(ValueType::Float, complex_type()),
            Lib::Beat | Lib::Sec => ValueType::Float,
            Lib::Add | Lib::Sub | Lib::Mul | Lib::Div | Lib::Mod => func_type(
                ValueType::Float,
                func_type(ValueType::Float, ValueType::Float),
            ),
            Lib::Lt | Lib::Le | Lib::Gt | Lib::Ge => func_type(
                ValueType::Float,
                func_type(ValueType::Float, ValueType::Bool),
            ),
            Lib::Add1(_) | Lib::Sub1(_) | Lib::Mul1(_) | Lib::Div1(_) | Lib::Mod1(_) => func_type(
                ValueType::Float,
                ValueType::Float,
            ),
            Lib::AddI(_) | Lib::SubI(_) | Lib::MulI(_) | Lib::DivI(_) | Lib::ModI(_) => func_type(
                ValueType::Float,
                ValueType::Float,
            ),
            Lib::Lt1(_) | Lib::Le1(_) | Lib::Gt1(_) | Lib::Ge1(_) => func_type(ValueType::Float, ValueType::Bool),
            Lib::LtI(_) | Lib::LeI(_) | Lib::GtI(_) | Lib::GeI(_) => func_type(ValueType::Float, ValueType::Bool),
            Lib::Sin | Lib::Cos => func_type(ValueType::Float, ValueType::Float),
            Lib::Re | Lib::Im | Lib::Norm | Lib::Angle => func_type(complex_type(), ValueType::Float),
            Lib::Polar => func_type(complex_type(), complex_type()),
        }
    }
}

} // verus!
