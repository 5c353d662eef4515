use vstd::prelude::*;
use crate::lang::scalar::Scalar;
use crate::lang::typing::{complex_ty, func_ty, value_ty, values_ty, lemma_values_ty};
use crate::lang::value::{EvalError, Extern, ExternM, Value, ValueM, value_m, lemma_values_m, result_m};
use crate::lang::value_type::Ty;

verus! {

/// The raised-cosine blend of `lower` and `upper` at `fraction`:
/// `lower + (upper - lower) * w` with `w = (1 - cos(fraction * pi)) / 2`,
/// which runs from 0 at `fraction = 0` to 1 at `fraction = 1` with zero
/// slope at both ends.
pub open spec fn blend_spec<N: Scalar>(lower: N, upper: N, fraction: N) -> N {
    let w = N::one_spec().minus_spec(fraction.times_spec(N::pi_spec()).cos_spec()).times_spec(N::half_spec());
    lower.plus_spec(upper.minus_spec(lower).times_spec(w))
}

/// See `blend_spec`.
pub fn blend<N: Scalar>(lower: &N, upper: &N, fraction: &N) -> (r: N)
    ensures
        r == blend_spec(*lower, *upper, *fraction),
{
    let w = N::one().minus(&fraction.times(&N::pi()).cos()).times(&N::half());
    lower.plus(&upper.minus(lower).times(&w))
}

/// Reading a real array at a numeric index: an integer index in range
/// reads its cell; a fractional one whose floor and ceiling are in range
/// blends those cells at its fractional part; anything else reads zero.
pub open spec fn lookup_real_spec<N: Scalar>(values: Seq<N>, index: ValueM<N>) -> N {
    match index {
        ValueM::Int(i) => if 0 <= i < values.len() { values[i as int] } else { N::zero_spec() },
        ValueM::Float(x) => {
            let lo = x.floor_index_spec();
            let hi = x.ceil_index_spec();
            if lo >= values.len() || hi >= values.len() {
                N::zero_spec()
            } else {
                blend_spec(values[lo as int], values[hi as int], x.fract_spec())
            }
        },
        _ => N::zero_spec(),
    }
}

/// Reading an array of complex numbers as `lookup_real_spec` reads a real
/// one, real and imaginary parts alike; zero is the pair of zeros.
pub open spec fn lookup_complex_spec<N: Scalar>(values: Seq<(N, N)>, index: ValueM<N>) -> (N, N) {
    match index {
        ValueM::Int(i) => if 0 <= i < values.len() { values[i as int] } else { (N::zero_spec(), N::zero_spec()) },
        ValueM::Float(x) => {
            let lo = x.floor_index_spec();
            let hi = x.ceil_index_spec();
            if lo >= values.len() || hi >= values.len() {
                (N::zero_spec(), N::zero_spec())
            } else {
                let f = x.fract_spec();
                (
                    blend_spec(values[lo as int].0, values[hi as int].0, f),
                    blend_spec(values[lo as int].1, values[hi as int].1, f),
                )
            }
        },
        _ => (N::zero_spec(), N::zero_spec()),
    }
}

/// The model of a complex number: the pair of its parts.
pub open spec fn complex_m<N>(c: (N, N)) -> ValueM<N> {
    ValueM::Tuple(seq![ValueM::Float(c.0), ValueM::Float(c.1)])
}

/// Applying an array to an index: a numeric index reads it (see the
/// lookups); anything else is `BadArgument`.
pub open spec fn extern_apply_spec<N: Scalar>(e: ExternM<N>, a: ValueM<N>) -> Result<ValueM<N>, EvalError> {
    if a is Int || a is Float {
        match e {
            ExternM::FloatArray(v) => Ok(ValueM::Float(lookup_real_spec(v, a))),
            ExternM::ComplexArray(v) => Ok(complex_m(lookup_complex_spec(v, a))),
        }
    } else {
        Err(EvalError::BadArgument)
    }
}

/// Where a numeric index reads an array of `len` cells: `Some(Ok(i))` for
/// the cell of an integer index, `Some(Err((lo, hi)))` for the two cells
/// that a fractional index falls between, `None` when the index is past the
/// end (or negative, for an integer).
fn locate<N: Scalar>(index: &Value<N>, len: usize) -> (r: Option<Result<usize, (usize, usize)>>)
    requires
        index is Int || index is Float,
    ensures
        *index matches Value::Int(i) ==> ((0 <= i < len) <==> r is Some) && (r is Some ==> r == Some(
            Ok::<usize, (usize, usize)>(i as usize),
        )),
        r matches Some(Err((lo, hi))) ==> lo < len && hi < len,
        r matches Some(Ok(i)) ==> i < len,
        r matches Some(Err(_)) ==> index is Float,
        *index matches Value::Float(x) ==> ((r is None <==> (x.floor_index_spec() >= len || x.ceil_index_spec()
            >= len)) && (r is Some ==> r == Some(Err::<usize, (usize, usize)>((x.floor_index_spec(), x.ceil_index_spec()))))),
{
    match index {
        Value::Int(i) => {
            if *i < 0 || *i as usize >= len {
                None
            } else {
                Some(Ok(*i as usize))
            }
        },
        _ => {
            let x = match index {
                Value::Float(x) => *x,
                _ => N::zero(),
            };
            let lo = x.floor_index();
            let hi = x.ceil_index();
            if lo >= len || hi >= len {
                None
            } else {
                Some(Err((lo, hi)))
            }
        },
    }
}

/// The fractional part of a numeric index.
fn fraction_of<N: Scalar>(index: &Value<N>) -> (r: N)
    ensures
        *index matches Value::Float(x) ==> r == x.fract_spec(),
{
    match index {
        Value::Float(x) => x.fract(),
        _ => N::zero(),
    }
}

/// Reads a real array at a numeric index: the cell itself for an integer
/// index in range, the raised-cosine blend of the neighbouring cells for a
/// fractional one, and zero past the end.
pub fn lookup_real<N: Scalar>(values: &Vec<N>, index: &Value<N>) -> (r: N)
    requires
        index is Int || index is Float,
    ensures
        *index matches Value::Int(i) ==> 0 <= i < values@.len() ==> r == values@[i as int],
        r == lookup_real_spec(values@, index@),
{
    match locate(index, values.len()) {
        None => N::zero(),
        Some(Ok(i)) => values[i],
        Some(Err((lo, hi))) => blend(&values[lo], &values[hi], &fraction_of(index)),
    }
}

/// Reads an array of complex numbers as `lookup_real` reads a real one,
/// blending real and imaginary parts alike.
pub fn lookup_complex<N: Scalar>(values: &Vec<(N, N)>, index: &Value<N>) -> (r: (N, N))
    requires
        index is Int || index is Float,
    ensures
        *index matches Value::Int(i) ==> 0 <= i < values@.len() ==> r == values@[i as int],
        r == lookup_complex_spec(values@, index@),
{
    match locate(index, values.len()) {
        None => (N::zero(), N::zero()),
        Some(Ok(i)) => values[i],
        Some(Err((lo, hi))) => {
            let f = fraction_of(index);
            let (lre, lim) = values[lo];
            let (ure, uim) = values[hi];
            (blend(&lre, &ure, &f), blend(&lim, &uim, &f))
        },
    }
}

/// The value of a complex number: the pair of its parts.
pub fn complex_value<N: Scalar>(c: (N, N)) -> (r: Value<N>)
    ensures
        r@ == ValueM::<N>::Tuple(seq![ValueM::Float(c.0), ValueM::Float(c.1)]),
        value_ty(r@) == Some(complex_ty()),
{
    let mut parts: Vec<Value<N>> = Vec::new();
    parts.push(Value::Float(c.0));
    parts.push(Value::Float(c.1));
    let r = Value::Tuple(parts);
    proof {
        lemma_values_m(parts@);
        reveal_with_fuel(value_m, 2);
        assert(r@->Tuple_0 =~= seq![ValueM::Float(c.0), ValueM::Float(c.1)]);
        let vs = r@->Tuple_0;
        assert(value_ty(vs[0]) == Some(Ty::Float));
        assert(value_ty(vs[1]) == Some(Ty::Float));
        lemma_values_ty(vs, 2);
        assert(values_ty(vs, 2)->0 =~= complex_ty()->Tuple_0);
    }
    r
}

/// The type of an array read as a function of its index.
pub open spec fn extern_ty<N>(e: ExternM<N>) -> Ty {
    match e {
        ExternM::FloatArray(_) => func_ty(Ty::Float, Ty::Float),
        ExternM::ComplexArray(_) => func_ty(Ty::Float, complex_ty()),
    }
}

impl<N: Scalar> Extern<N> {
    /// Reads the array at a numeric index (see `lookup_real` and
    /// `lookup_complex`); a complex cell is read as the pair of its parts.
    pub fn apply(&self, arg: &Value<N>) -> (r: Result<Value<N>, EvalError>)
        ensures
            (arg is Int || arg is Float) ==> r is Ok && value_ty(r->Ok_0@) == Some(*extern_ty(self@)->Func_1),
            !(arg is Int || arg is Float) ==> r == Err::<Value<N>, EvalError>(EvalError::BadArgument),
            result_m(r) == extern_apply_spec(self@, arg@),
            *arg matches Value::Int(i) ==> (*self matches Extern::FloatArray(v) ==> (0 <= i < v@.len()
                ==> r->Ok_0@ == ValueM::<N>::Float(v@[i as int]))),
            *arg matches Value::Int(i) ==> (*self matches Extern::ComplexArray(v) ==> (0 <= i < v@.len()
                ==> r->Ok_0@ == ValueM::<N>::Tuple(
                seq![ValueM::Float(v@[i as int].0), ValueM::Float(v@[i as int].1)],
            ))),
    {
        match arg {
            Value::Int(_) | Value::Float(_) => {},
            _ => { return Err(EvalError::BadArgument); },
        }
        match self {
            Extern::FloatArray(v) => Ok(Value::Float(lookup_real(v, arg))),
            Extern::ComplexArray(v) => Ok(complex_value(lookup_complex(v, arg))),
        }
    }
}

} // verus!
