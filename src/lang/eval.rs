use vstd::prelude::*;
use crate::lang::external::{complex_value, lookup_complex, complex_m, lookup_complex_spec, extern_apply_spec};
use crate::lang::library::{Lib, lib_param, lib_result, papply_typed, papply_spec};
use crate::lang::resource::Resource;
use crate::lang::scalar::Scalar;
use crate::lang::term::{Term, TermM, lemma_term_tuple_view, lemma_term_member_decreases, terms_m};
use crate::lang::typing::{
    func_ty, lib_ty, term_ty, terms_ty, value_ty, values_ty, lemma_terms_ty, lemma_values_ty,
};
use crate::lang::value::{
    Closure, Env, EvalError, Value, ValueM, copy_values, lemma_float_typed, lemma_values_m, value_m,
    values_m,
};
use crate::lang::value_type::{Ty, ty_of};
use crate::lang::term::term_m;
use crate::lang::value::result_m;
use crate::lang::elaborate::{elaborates, fits};
use crate::lang::term::Level;

verus! {

/// How deeply closure calls may nest in one evaluation.
pub const CALL_DEPTH: u64 = 1_000_000;

/// The types of an environment's values, bottom up, when each has one.
pub open spec fn env_ctx<N>(env: Seq<Value<N>>) -> Option<Seq<Ty>> {
    values_ty(values_m(env), env.len())
}

/// What evaluating a term of type `T` (in the types `ctx` of the
/// environment) may give: a value of type `T`, or running out of call
/// depth.  Nothing is promised of an ill-typed term.
pub open spec fn eval_typed<N>(ctx: Option<Seq<Ty>>, t: TermM<N>, r: Result<Value<N>, EvalError>) -> bool {
    (ctx is Some && term_ty(ctx->0, t) is Some) ==> match r {
        Ok(v) => value_ty(v@) == term_ty(ctx->0, t),
        Err(e) => e == EvalError::DepthExhausted,
    }
}

/// What applying a function value of type `P -> R` to a value of type `P`
/// may give: a value of type `R`, or running out of call depth.
pub open spec fn apply_typed<N>(f: ValueM<N>, a: ValueM<N>, r: Result<Value<N>, EvalError>) -> bool {
    (value_ty(f) is Some && value_ty(f)->0 is Func && value_ty(a) == Some(*value_ty(f)->0->Func_0))
        ==> match r {
        Ok(v) => value_ty(v@) == Some(*value_ty(f)->0->Func_1),
        Err(e) => e == EvalError::DepthExhausted,
    }
}

/// The types of values pushed one on another.
pub proof fn lemma_env_ctx_push<N>(env: Seq<Value<N>>, v: Value<N>)
    ensures
        values_m(env.push(v)) == values_m(env).push(v@),
        (env_ctx(env) is Some && value_ty(v@) is Some) ==> env_ctx(env.push(v)) == Some(
            env_ctx(env)->0.push(value_ty(v@)->0),
        ),
{
    lemma_values_m(env);
    lemma_values_m(env.push(v));
    assert(values_m(env.push(v)) =~= values_m(env).push(v@));
    let vs = values_m(env);
    let ws = vs.push(v@);
    lemma_values_ty(vs, vs.len());
    lemma_values_ty(ws, vs.len());
    lemma_values_ty(ws, ws.len());
    if env_ctx(env) is Some && value_ty(v@) is Some {
        assert forall|i: int| 0 <= i < vs.len() implies (#[trigger] value_ty(ws[i])) is Some by {
            assert(ws[i] == vs[i]);
        }
        let a = values_ty(ws, ws.len())->0;
        let b = env_ctx(env)->0.push(value_ty(v@)->0);
        assert(value_ty(ws[vs.len() as int]) == value_ty(v@));
        assert forall|i: int| 0 <= i < ws.len() implies a[i] == b[i] by {
            if i < vs.len() {
                assert(ws[i] == vs[i]);
                assert(value_ty(ws[i]) == Some(a[i]));
                assert(value_ty(vs[i]) == Some(env_ctx(env)->0[i]));
            } else {
                assert(value_ty(ws[i]) == Some(a[i]));
            }
        }
        assert(a =~= b);
    }
}

/// A value of function type is a closure, a built-in or an array.
pub proof fn lemma_func_typed<N>(v: ValueM<N>)
    requires
        value_ty(v) is Some,
        value_ty(v)->0 is Func,
    ensures
        v is Func || v is Lib || v is Extern,
{
}

/// Applying a built-in during evaluation: the spectral-bin reader reads
/// the resource's frame at a numeric index (see `lookup_complex_spec`);
/// `Beat` and `Sec` are values, not functions; every other built-in
/// behaves as in normalization (`papply_spec`).
pub open spec fn lib_apply_spec<N: Scalar>(l: Lib<N>, a: ValueM<N>, res: Resource<N>) -> Result<ValueM<N>, EvalError> {
    match l {
        Lib::Fft => if a is Int || a is Float {
            Ok(complex_m(lookup_complex_spec(res.fft@, a)))
        } else {
            Err(EvalError::BadArgument)
        },
        Lib::Beat | Lib::Sec => Err(EvalError::BadArgument),
        _ => papply_spec(l, a),
    }
}

/// Evaluation of a term in an environment (innermost binding last) with a
/// resource, closure calls nesting at most `depth` deep.  Literals are
/// themselves; `Var(k)` is the `k`-th value from the top; `beat` and `sec`
/// read the resource; a function captures the environment; a tuple
/// evaluates its members left to right; an application evaluates the
/// function, then the argument, then applies (`apply_spec`); `let` pushes
/// the bound value for its body; a conditional evaluates its condition and
/// then only the branch it selects.  The first error met is the result.
pub open spec fn eval_spec<N: Scalar>(t: TermM<N>, env: Seq<ValueM<N>>, res: Resource<N>, depth: u64) -> Result<
    ValueM<N>,
    EvalError,
>
    decreases depth, 1nat, t, 0nat,
{
    match t {
        TermM::Float(x) => Ok(ValueM::Float(x)),
        TermM::Bool(b) => Ok(ValueM::Bool(b)),
        TermM::Var(k) => if k < env.len() {
            Ok(env[env.len() - 1 - k])
        } else {
            Err(EvalError::VarNotFound)
        },
        TermM::Lib(l) => match l {
            Lib::Beat => Ok(ValueM::Float(res.beat)),
            Lib::Sec => Ok(ValueM::Float(res.second)),
            _ => Ok(ValueM::Lib(l)),
        },
        TermM::Tuple(ts) => match evals_spec(ts, env, res, depth, ts.len()) {
            Ok(vs) => Ok(ValueM::Tuple(vs)),
            Err(e) => Err(e),
        },
        TermM::Apply(f, a) => match eval_spec(*f, env, res, depth) {
            Ok(fv) => match eval_spec(*a, env, res, depth) {
                Ok(av) => apply_spec(fv, av, res, depth),
                Err(e) => Err(e),
            },
            Err(e) => Err(e),
        },
        TermM::Func(p, n, b) => Ok(ValueM::Func(p, *b, env, n)),
        TermM::Let(_, _, v, b) => match eval_spec(*v, env, res, depth) {
            Ok(x) => eval_spec(*b, env.push(x), res, depth),
            Err(e) => Err(e),
        },
        TermM::Alt(c, a, b) => match eval_spec(*c, env, res, depth) {
            Ok(ValueM::Bool(true)) => eval_spec(*a, env, res, depth),
            Ok(ValueM::Bool(false)) => eval_spec(*b, env, res, depth),
            Ok(_) => Err(EvalError::NotBool),
            Err(e) => Err(e),
        },
    }
}

/// The first `n` terms evaluated left to right.
pub open spec fn evals_spec<N: Scalar>(ts: Seq<TermM<N>>, env: Seq<ValueM<N>>, res: Resource<N>, depth: u64, n: nat) -> Result<
    Seq<ValueM<N>>,
    EvalError,
>
    decreases depth, 1nat, ts, n,
{
    if n == 0 || n > ts.len() {
        Ok(Seq::empty())
    } else {
        match evals_spec(ts, env, res, depth, (n - 1) as nat) {
            Ok(vs) => match eval_spec(ts[n - 1], env, res, depth) {
                Ok(v) => Ok(vs.push(v)),
                Err(e) => Err(e),
            },
            Err(e) => Err(e),
        }
    }
}

/// Applying a value to an argument during evaluation: a closure evaluates
/// its body on its own environment with the argument pushed (one level of
/// `depth`, and `DepthExhausted` when none is left); a built-in follows
/// `lib_apply_spec`; an array is read (`extern_apply_spec`); a stuck
/// application takes one more argument; anything else becomes a stuck
/// application of one argument.
pub open spec fn apply_spec<N: Scalar>(f: ValueM<N>, a: ValueM<N>, res: Resource<N>, depth: u64) -> Result<
    ValueM<N>,
    EvalError,
>
    decreases depth, 0nat, f, 0nat,
{
    match f {
        ValueM::Func(_, body, cenv, _) => if depth == 0 {
            Err(EvalError::DepthExhausted)
        } else {
            eval_spec(body, cenv.push(a), res, (depth - 1) as u64)
        },
        ValueM::Lib(l) => lib_apply_spec(l, a, res),
        ValueM::Extern(e) => extern_apply_spec(e, a),
        ValueM::Apply(g, args) => Ok(ValueM::Apply(g, args.push(a))),
        _ => Ok(ValueM::Apply(Box::new(f), seq![a])),
    }
}

/// An error among the first `n` terms stays the error of every longer
/// prefix.
pub proof fn lemma_evals_err<N: Scalar>(ts: Seq<TermM<N>>, env: Seq<ValueM<N>>, res: Resource<N>, depth: u64, n: nat, m: nat)
    requires
        n <= m <= ts.len(),
        evals_spec(ts, env, res, depth, n) is Err,
    ensures
        evals_spec(ts, env, res, depth, m) == evals_spec(ts, env, res, depth, n),
    decreases m - n,
{
    if n < m {
        lemma_evals_err(ts, env, res, depth, n, (m - 1) as nat);
    }
}

/// The runtime shape that a type asks of a value: a number for `Float`, a
/// boolean for `Bool`, a tuple of the same arity for a tuple type, and
/// something applicable for a function type.
pub open spec fn has_shape<N>(v: ValueM<N>, t: Ty) -> bool {
    match t {
        Ty::Float => v is Int || v is Float,
        Ty::Bool => v is Bool,
        Ty::Tuple(ts) => v is Tuple && v->Tuple_0.len() == ts.len(),
        Ty::Func(_, _) => v is Func || v is Lib || v is Extern,
    }
}

/// A value of a type has the shape of that type.
pub proof fn lemma_typed_shape<N>(v: ValueM<N>, t: Ty)
    requires
        value_ty(v) == Some(t),
    ensures
        has_shape(v, t),
{
    if let ValueM::Tuple(vs) = v {
        lemma_values_ty(vs, vs.len());
    }
}

/// Type soundness.  A term that elaboration accepted with type `ty` in a
/// context, evaluated (to `r`) on an environment whose values have the
/// types that the context gives their levels, yields a value of type `ty`,
/// hence of the shape `ty` describes; the only other outcome is running
/// out of call depth.
pub proof fn lemma_type_soundness<N>(
    c: Seq<(Seq<char>, Level, Ty)>,
    env_len: Level,
    t: TermM<N>,
    ty: Ty,
    env: Seq<Value<N>>,
    r: Result<Value<N>, EvalError>,
)
    requires
        elaborates(c, env_len, t, ty),
        env_ctx(env) is Some,
        fits(c, env_len, env_ctx(env)->0),
        eval_typed(env_ctx(env), t, r),
    ensures
        r matches Ok(v) ==> value_ty(v@) == Some(ty) && has_shape(v@, ty),
        r is Err ==> r == Err::<Value<N>, EvalError>(EvalError::DepthExhausted),
{
    assert(term_ty(env_ctx(env)->0, t) == Some(ty));
    if let Ok(v) = r {
        lemma_typed_shape(v@, ty);
    }
}

/// Evaluates a term in an environment, reading resources from `res`.
/// Closure calls may nest `depth` deep.  The environment is left as it
/// was; a well-typed term gives a value of its type.
pub fn eval<N: Scalar>(term: &Term<N>, env: &mut Env<N>, res: &Resource<N>, depth: u64) -> (r: Result<
    Value<N>,
    EvalError,
>)
    ensures
        final(env)@ == old(env)@,
        eval_typed(env_ctx(old(env)@), term@, r),
        result_m(r) == eval_spec(term@, values_m(old(env)@), *res, depth),
    decreases depth, 1nat, term,
{
    let ghost env0 = env@;
    proof {
        lemma_values_m(env@);
        lemma_values_ty(values_m(env@), env@.len() as nat);
    }
    match term {
        Term::Float(x) => Ok(Value::Float(*x)),
        Term::Bool(b) => Ok(Value::Bool(*b)),
        Term::Var(v) => {
            if *v < env.len() {
                let k = env.len() - 1 - *v;
                let r = env[k].copy();
                proof {
                    assert(values_m(env@)[k as int] == env@[k as int]@);
                    assert(eval_typed(env_ctx(env0), term@, Ok::<Value<N>, EvalError>(r)));
                }
                Ok(r)
            } else {
                Err(EvalError::VarNotFound)
            }
        },
        Term::Lib(l) => {
            let r = match l {
                Lib::Beat => Value::Float(res.beat),
                Lib::Sec => Value::Float(res.second),
                _ => Value::Lib(*l),
            };
            proof {
                assert(eval_typed(env_ctx(env0), term@, Ok::<Value<N>, EvalError>(r)));
            }
            Ok(r)
        },
        Term::Tuple(ts) => {
            let ghost ctx = env_ctx(env@);
            let ghost tm = terms_m(ts@);
            proof {
                lemma_term_tuple_view(*term);
                if ctx is Some {
                    lemma_terms_ty(ctx->0, tm, tm.len());
                }
            }
            let mut out: Vec<Value<N>> = Vec::new();
            let mut i: usize = 0;
            proof {
                assert(values_m(out@) =~= Seq::<ValueM<N>>::empty());
            }
            while i < ts.len()
                invariant
                    i <= ts@.len(),
                    *term == Term::Tuple(*ts),
                    tm == terms_m(ts@),
                    env@ == env0,
                    old(env)@ == env0,
                    ctx == env_ctx(env0),
                    out@.len() == i,
                    evals_spec(tm, values_m(env0), *res, depth, i as nat) == Ok::<Seq<ValueM<N>>, EvalError>(values_m(out@)),
                    (ctx is Some && terms_ty(ctx->0, tm, tm.len()) is Some) ==> forall|j: int|
                        0 <= j < i ==> value_ty((#[trigger] out@[j])@) == term_ty(ctx->0, tm[j]),
                decreases ts@.len() - i,
            {
                proof {
                    lemma_term_member_decreases(*term, i as int);
                    if ctx is Some {
                        lemma_terms_ty(ctx->0, tm, tm.len());
                    }
                    lemma_term_tuple_view(*term);
                    if ctx is Some && term_ty(ctx->0, term@) is Some {
                        assert(terms_ty(ctx->0, tm, tm.len()) is Some);
                        assert(tm[i as int] == ts@[i as int]@);
                        assert(term_ty(ctx->0, tm[i as int]) is Some);
                    }
                }
                let v = match eval(&ts[i], env, res, depth) {
                    Ok(v) => v,
                    Err(e) => {
                        proof {
                            lemma_term_tuple_view(*term);
                            assert(tm[i as int] == ts@[i as int]@);
                            lemma_evals_err(tm, values_m(env0), *res, depth, (i + 1) as nat, tm.len());
                        }
                        return Err(e);
                    },
                };
                proof {
                    lemma_term_tuple_view(*term);
                    assert(tm[i as int] == ts@[i as int]@);
                    lemma_env_ctx_push(out@, v);
                }
                out.push(v);
                i = i + 1;
            }
            let r = Value::Tuple(out);
            proof {
                lemma_term_tuple_view(*term);
                assert(r@ == ValueM::Tuple(values_m(out@)));
            }
            proof {
                if ctx is Some && terms_ty(ctx->0, tm, tm.len()) is Some {
                    let vs = values_m(out@);
                    lemma_values_m(out@);
                    let tys = terms_ty(ctx->0, tm, tm.len())->0;
                    assert forall|j: int| 0 <= j < vs.len() implies (#[trigger] value_ty(vs[j])) is Some by {
                        assert(vs[j] == out@[j]@);
                    }
                    lemma_values_ty(vs, vs.len());
                    assert forall|j: int| 0 <= j < vs.len() implies values_ty(vs, vs.len())->0[j] == tys[j] by {
                        assert(vs[j] == out@[j]@);
                    }
                    assert(values_ty(vs, vs.len())->0 =~= tys);
                    assert(r@ == ValueM::Tuple(vs));
                    assert(value_ty(r@) == Some(Ty::Tuple(tys)));
                    assert(term@ == TermM::Tuple(tm));
                    assert(term_ty(ctx->0, term@) == Some(Ty::Tuple(tys)));
                }
            }
            Ok(r)
        },
        Term::Apply(f, a) => {
            let fv = match eval(f, env, res, depth) {
                Ok(v) => v,
                Err(e) => { return Err(e); },
            };
            let av = match eval(a, env, res, depth) {
                Ok(v) => v,
                Err(e) => { return Err(e); },
            };
            fv.apply(av, res, depth)
        },
        Term::Func(p, n, b) => {
            let captured = copy_values(env);
            let r = Value::Func(Box::new(p.copy()), Closure(Box::new(b.copy()), captured, n.clone()));
            proof {
                lemma_values_m(captured@);
                assert(values_m(captured@).len() == env@.len());
                assert(eval_typed(env_ctx(env0), term@, Ok::<Value<N>, EvalError>(r)));
            }
            Ok(r)
        },
        Term::Let(_, _, v, b) => {
            let x = match eval(v, env, res, depth) {
                Ok(x) => x,
                Err(e) => { return Err(e); },
            };
            proof {
                lemma_env_ctx_push(env@, x);
            }
            env.push(x);
            let r = eval(b, env, res, depth);
            env.pop();
            proof {
                assert(env@ =~= env0);
            }
            r
        },
        Term::Alt(c, a, b) => {
            let cv = match eval(c, env, res, depth) {
                Ok(v) => v,
                Err(e) => { return Err(e); },
            };
            match cv {
                Value::Bool(true) => eval(a, env, res, depth),
                Value::Bool(false) => eval(b, env, res, depth),
                _ => Err(EvalError::NotBool),
            }
        },
    }
}

impl<N: Scalar> Closure<N> {
    /// Calls the closure: evaluates its body with the argument pushed on its
    /// captured environment.
    pub fn apply(self, arg: Value<N>, res: &Resource<N>, depth: u64) -> (r: Result<Value<N>, EvalError>)
        ensures
            (env_ctx(self.1@) is Some && value_ty(arg@) is Some) ==> eval_typed(
                Some(env_ctx(self.1@)->0.push(value_ty(arg@)->0)),
                (*self.0)@,
                r,
            ),
            result_m(r) == eval_spec((*self.0)@, values_m(self.1@).push(arg@), *res, depth),
        decreases depth, 2nat, self,
    {
        let Closure(body, mut env, _) = self;
        proof {
            lemma_env_ctx_push(env@, arg);
        }
        env.push(arg);
        eval(&body, &mut env, res, depth)
    }

    /// Calls the closure in place: pushes the argument on the captured
    /// environment, evaluates the body, and pops it again.
    pub fn apply_ref(&mut self, arg: Value<N>, res: &Resource<N>, depth: u64) -> (r: Result<Value<N>, EvalError>)
        ensures
            final(self).0 == old(self).0,
            final(self).1@ == old(self).1@,
            final(self).2 == old(self).2,
            (env_ctx(old(self).1@) is Some && value_ty(arg@) is Some) ==> eval_typed(
                Some(env_ctx(old(self).1@)->0.push(value_ty(arg@)->0)),
                (*old(self).0)@,
                r,
            ),
            result_m(r) == eval_spec((*old(self).0)@, values_m(old(self).1@).push(arg@), *res, depth),
    {
        proof {
            lemma_env_ctx_push(self.1@, arg);
        }
        let ghost env0 = self.1@;
        self.1.push(arg);
        let r = eval(&self.0, &mut self.1, res, depth);
        self.1.pop();
        proof {
            assert(self.1@ =~= env0);
        }
        r
    }
}

impl<N: Scalar> Lib<N> {
    /// Applies the built-in during evaluation: the spectral-bin reader
    /// reads the resource (see `lookup_complex`); `Beat` and `Sec` are not
    /// functions; every other built-in behaves as in normalization.
    pub fn apply(&self, arg: Value<N>, res: &Resource<N>) -> (r: Result<Value<N>, EvalError>)
        ensures
            (!(*self is Beat || *self is Sec) && lib_ty(*self) is Func && value_ty(arg@) == Some(lib_param(*self)))
                ==> r is Ok && value_ty(r->Ok_0@) == Some(lib_result(*self)),
            (*self is Fft) ==> (arg matches Value::Int(i) ==> (0 <= i < res.fft@.len() ==> r is Ok && r->Ok_0@
                == ValueM::<N>::Tuple(
                seq![ValueM::Float(res.fft@[i as int].0), ValueM::Float(res.fft@[i as int].1)],
            ))),
            !(*self is Fft || *self is Beat || *self is Sec) ==> papply_typed(*self, arg@, r),
            result_m(r) == lib_apply_spec(*self, arg@, *res),
    {
        match self {
            Lib::Fft => {
                proof {
                    if value_ty(arg@) == Some(Ty::Float) {
                        lemma_float_typed(arg@);
                    }
                }
                match arg {
                    Value::Int(_) | Value::Float(_) => Ok(complex_value(lookup_complex(&res.fft, &arg))),
                    _ => Err(EvalError::BadArgument),
                }
            },
            Lib::Beat | Lib::Sec => Err(EvalError::BadArgument),
            _ => self.papply(arg),
        }
    }
}

impl<N: Scalar> Value<N> {
    /// Applies a function value to an argument during evaluation: a
    /// closure is called, a built-in or array computes, a stuck application
    /// takes one more argument, and anything else becomes stuck.
    pub fn apply(self, arg: Value<N>, res: &Resource<N>, depth: u64) -> (r: Result<Value<N>, EvalError>)
        ensures
            apply_typed(self@, arg@, r),
            result_m(r) == apply_spec(self@, arg@, *res, depth),
        decreases depth, 0nat, self,
    {
        let ghost f = self@;
        proof {
            lemma_values_m(seq![arg]);
        }
        match self {
            Value::Func(p, c) => {
                if depth == 0 {
                    return Err(EvalError::DepthExhausted);
                }
                proof {
                    lemma_values_m(c.1@);
                    assert(f == ValueM::Func(ty_of(*p), term_m(*c.0), values_m(c.1@), c.2@));
                }
                c.apply(arg, res, depth - 1)
            },
            Value::Lib(l) => l.apply(arg, res),
            Value::Extern(e) => {
                proof {
                    if value_ty(arg@) == Some(Ty::Float) {
                        lemma_float_typed(arg@);
                    }
                }
                e.apply(&arg)
            },
            Value::Apply(g, mut args) => {
                proof {
                    lemma_env_ctx_push(args@, arg);
                }
                let ghost a0 = args@;
                args.push(arg);
                let r = Value::Apply(g, args);
                proof {
                    assert(r@ == ValueM::Apply(Box::new((*g)@), values_m(a0).push(arg@)));
                }
                Ok(r)
            },
            other => {
                proof {
                    if value_ty(other@) is Some && value_ty(other@)->0 is Func {
                        lemma_func_typed(other@);
                    }
                }
                let ghost o = other@;
                let ghost a = arg@;
                let mut args: Vec<Value<N>> = Vec::new();
                args.push(arg);
                let r = Value::Apply(Box::new(other), args);
                proof {
                    lemma_values_m(args@);
                    assert(values_m(args@) =~= seq![a]);
                    assert(r@ == ValueM::Apply(Box::new(o), seq![a]));
                }
                Ok(r)
            },
        }
    }
}

impl<N: Scalar> Value<N> {
    /// Applies a function value in place, leaving it as it was: a closure
    /// is called on its own environment (push, evaluate, pop) without a
    /// copy.  Otherwise as `apply`.
    pub fn apply_ref(&mut self, arg: Value<N>, res: &Resource<N>, depth: u64) -> (r: Result<Value<N>, EvalError>)
        ensures
            final(self)@ == old(self)@,
            apply_typed(old(self)@, arg@, r),
            result_m(r) == apply_spec(old(self)@, arg@, *res, depth),
    {
        let ghost f = self@;
        match self {
            Value::Func(_, c) => {
                if depth == 0 {
                    return Err(EvalError::DepthExhausted);
                }
                proof {
                    lemma_values_m(c.1@);
                }
                let r = c.apply_ref(arg, res, depth - 1);
                proof {
                    assert(self@ == f);
                }
                r
            },
            Value::Lib(l) => l.apply(arg, res),
            Value::Extern(e) => {
                proof {
                    if value_ty(arg@) == Some(Ty::Float) {
                        lemma_float_typed(arg@);
                    }
                }
                e.apply(&arg)
            },
            _ => {
                proof {
                    if value_ty(self@) is Some && value_ty(self@)->0 is Func {
                        lemma_func_typed(self@);
                    }
                }
                let me = self.copy();
                me.apply(arg, res, depth)
            },
        }
    }

    /// Applies a function value to each index of `start..end` in turn
    /// (as integers), as when filling one spectral frame or audio block.
    pub fn collect(&mut self, start: usize, end: usize, res: &Resource<N>) -> (r: Result<Vec<Value<N>>, EvalError>)
        requires
            end <= 0x7fff_ffff,
        ensures
            final(self)@ == old(self)@,
            r matches Ok(vs) ==> vs@.len() == if start <= end { end - start } else { 0 },
            r matches Ok(vs) ==> forall|k: int| 0 <= k < vs@.len() ==> apply_spec(old(self)@, ValueM::Int((start + k) as i32), *res, CALL_DEPTH)
                == Ok::<ValueM<N>, EvalError>((#[trigger] vs@[k])@),
            r matches Err(e) ==> exists|k: int| start <= k < end && #[trigger] apply_spec(old(self)@, ValueM::Int(k as i32), *res, CALL_DEPTH)
                == Err::<ValueM<N>, EvalError>(e),
            (value_ty(old(self)@) is Some && value_ty(old(self)@)->0 is Func && *value_ty(old(self)@)->0->Func_0
                == Ty::Float) ==> match r {
                Ok(vs) => forall|k: int| 0 <= k < vs@.len() ==> value_ty((#[trigger] vs@[k])@) == Some(
                    *value_ty(old(self)@)->0->Func_1,
                ),
                Err(e) => e == EvalError::DepthExhausted,
            },
    {
        let ghost f = self@;
        let mut out: Vec<Value<N>> = Vec::new();
        let mut i = start;
        while i < end
            invariant
                self@ == f,
                f == old(self)@,
                start <= end ==> start <= i <= end,
                end <= 0x7fff_ffff,
                out@.len() == if i >= start { i - start } else { 0 },
                start > end ==> i == start,
                forall|k: int| 0 <= k < out@.len() ==> apply_spec(f, ValueM::Int((start + k) as i32), *res, CALL_DEPTH)
                    == Ok::<ValueM<N>, EvalError>((#[trigger] out@[k])@),
                (value_ty(f) is Some && value_ty(f)->0 is Func && *value_ty(f)->0->Func_0 == Ty::Float) ==> forall|k: int|
                    0 <= k < out@.len() ==> value_ty((#[trigger] out@[k])@) == Some(*value_ty(f)->0->Func_1),
            decreases end - i,
        {
            let v = match self.apply_ref(Value::Int(i as i32), res, CALL_DEPTH) {
                Ok(v) => v,
                Err(e) => {
                    proof {
                        assert(apply_spec(f, ValueM::Int(i as i32), *res, CALL_DEPTH) == Err::<ValueM<N>, EvalError>(e));
                    }
                    return Err(e);
                },
            };
            out.push(v);
            i = i + 1;
        }
        Ok(out)
    }
}

} // verus!
