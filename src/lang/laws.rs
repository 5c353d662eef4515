use vstd::prelude::*;
use crate::lang::eval::{apply_spec, eval_spec};
use crate::lang::library::{Lib, papply_spec};
use crate::lang::quote::{papply_value_spec, peval_spec, quote_args_spec, quote_spec, simp_spec};
use crate::lang::resource::Resource;
use crate::lang::scalar::Scalar;
use crate::lang::term::TermM;
use crate::lang::value::{EvalError, ValueM, is_symbolic, lib_is_symbol};
use crate::lang::value_type::Ty;

verus! {

/// Dead-branch elimination: normalizing a conditional whose condition is
/// the literal `true` is normalizing its first branch; with `false`, its
/// second.
pub proof fn lemma_dead_branch<N: Scalar>(a: TermM<N>, b: TermM<N>, depth: u64)
    ensures
        simp_spec(TermM::Alt(Box::new(TermM::Bool(true)), Box::new(a), Box::new(b)), depth) == simp_spec(a, depth),
        simp_spec(TermM::Alt(Box::new(TermM::Bool(false)), Box::new(a), Box::new(b)), depth) == simp_spec(b, depth),
{
    let env = Seq::<ValueM<N>>::empty();
    assert(peval_spec(TermM::<N>::Bool(true), env, depth) == Ok::<ValueM<N>, EvalError>(ValueM::Bool(true)));
    assert(peval_spec(TermM::<N>::Bool(false), env, depth) == Ok::<ValueM<N>, EvalError>(ValueM::Bool(false)));
}

/// Evaluation of a conditional is the evaluation of the branch that its
/// condition selects, and of that branch only.
pub proof fn lemma_eval_selects_branch<N: Scalar>(
    c: TermM<N>,
    a: TermM<N>,
    b: TermM<N>,
    env: Seq<ValueM<N>>,
    res: Resource<N>,
    depth: u64,
    cond: bool,
)
    requires
        eval_spec(c, env, res, depth) == Ok::<ValueM<N>, EvalError>(ValueM::Bool(cond)),
    ensures
        eval_spec(TermM::Alt(Box::new(c), Box::new(a), Box::new(b)), env, res, depth) == if cond {
            eval_spec(a, env, res, depth)
        } else {
            eval_spec(b, env, res, depth)
        },
{
}

/// Curry-cache correctness: `add` applied to `x` is the tag `Add1(x)`, no
/// closure; that tag applied to `y` is the sum; and evaluating
/// `add(x)(y)` gives the same sum, in any environment and resource.
pub proof fn lemma_curried_add<N: Scalar>(x: N, y: N, env: Seq<ValueM<N>>, res: Resource<N>, depth: u64)
    ensures
        papply_spec(Lib::Add, ValueM::Float(x)) == Ok::<ValueM<N>, EvalError>(ValueM::Lib(Lib::Add1(x))),
        papply_spec(Lib::Add1(x), ValueM::Float(y)) == Ok::<ValueM<N>, EvalError>(ValueM::Float(x.plus_spec(y))),
        eval_spec(
            TermM::Apply(
                Box::new(TermM::Apply(Box::new(TermM::Lib(Lib::Add)), Box::new(TermM::Float(x)))),
                Box::new(TermM::Float(y)),
            ),
            env,
            res,
            depth,
        ) == Ok::<ValueM<N>, EvalError>(ValueM::Float(x.plus_spec(y))),
{
    let inner = TermM::Apply(Box::new(TermM::Lib(Lib::Add)), Box::new(TermM::Float(x)));
    assert(eval_spec(TermM::<N>::Lib(Lib::Add), env, res, depth) == Ok::<ValueM<N>, EvalError>(ValueM::Lib(Lib::Add)));
    assert(eval_spec(TermM::<N>::Float(x), env, res, depth) == Ok::<ValueM<N>, EvalError>(ValueM::Float(x)));
    assert(apply_spec(ValueM::Lib(Lib::Add), ValueM::Float(x), res, depth) == Ok::<ValueM<N>, EvalError>(ValueM::Lib(Lib::Add1(x))));
    assert(eval_spec(inner, env, res, depth) == Ok::<ValueM<N>, EvalError>(ValueM::Lib(Lib::Add1(x))));
    assert(eval_spec(TermM::<N>::Float(y), env, res, depth) == Ok::<ValueM<N>, EvalError>(ValueM::Float(y)));
    assert(apply_spec(ValueM::Lib(Lib::Add1(x)), ValueM::Float(y), res, depth) == Ok::<ValueM<N>, EvalError>(ValueM::Float(x.plus_spec(y))));
}

/// Resource reads are deferred: normalization never applies a resource
/// reader, whatever its argument; the application stays as a stuck value.
pub proof fn lemma_resource_deferred<N: Scalar>(l: Lib<N>, a: ValueM<N>, depth: u64)
    requires
        lib_is_symbol(l),
    ensures
        papply_value_spec(ValueM::Lib(l), a, depth) == Ok::<ValueM<N>, EvalError>(
            ValueM::Apply(Box::new(ValueM::Lib(l)), seq![a]),
        ),
{
}

/// A stuck application applied to one more argument stays stuck, with the
/// argument appended, in evaluation and in normalization alike.
pub proof fn lemma_stuck_application_grows<N: Scalar>(
    g: ValueM<N>,
    args: Seq<ValueM<N>>,
    a: ValueM<N>,
    res: Resource<N>,
    depth: u64,
)
    ensures
        apply_spec(ValueM::Apply(Box::new(g), args), a, res, depth) == Ok::<ValueM<N>, EvalError>(
            ValueM::Apply(Box::new(g), args.push(a)),
        ),
        papply_value_spec(ValueM::Apply(Box::new(g), args), a, depth) == Ok::<ValueM<N>, EvalError>(
            ValueM::Apply(Box::new(g), args.push(a)),
        ),
{
}

} // verus!

verus! {

/// Resource reads survive normalization under a binder: a function whose
/// body reads a resource at its parameter normalizes to the same read,
/// under an unnamed binder, left for evaluation to resolve.
pub proof fn lemma_read_under_binder_survives<N: Scalar>(p: Ty, n: Seq<char>, l: Lib<N>, depth: u64)
    requires
        lib_is_symbol(l),
        depth >= 1,
    ensures
        simp_spec(
            TermM::Func(p, n, Box::new(TermM::Apply(Box::new(TermM::Lib(l)), Box::new(TermM::Var(0))))),
            depth,
        ) == Ok::<TermM<N>, EvalError>(
            TermM::Func(p, Seq::empty(), Box::new(TermM::Apply(Box::new(TermM::Lib(l)), Box::new(TermM::Var(0))))),
        ),
{
    let body = TermM::Apply(Box::new(TermM::<N>::Lib(l)), Box::new(TermM::Var(0)));
    let t = TermM::Func(p, n, Box::new(body));
    let empty = Seq::<ValueM<N>>::empty();
    let f = ValueM::Func(p, body, empty, n);
    assert(peval_spec(t, empty, depth) == Ok::<ValueM<N>, EvalError>(f));
    let env = empty.push(ValueM::Var(0));
    let d = (depth - 1) as u64;
    assert(peval_spec(TermM::<N>::Lib(l), env, d) == Ok::<ValueM<N>, EvalError>(ValueM::Lib(l)));
    assert(env[0] == ValueM::<N>::Var(0));
    assert(peval_spec(TermM::<N>::Var(0), env, d) == Ok::<ValueM<N>, EvalError>(ValueM::Var(0)));
    assert(is_symbolic(ValueM::<N>::Var(0)));
    let stuck = ValueM::Apply(Box::new(ValueM::Lib(l)), seq![ValueM::<N>::Var(0)]);
    assert(papply_value_spec(ValueM::Lib(l), ValueM::Var(0), d) == Ok::<ValueM<N>, EvalError>(stuck));
    assert(peval_spec(body, env, d) == Ok::<ValueM<N>, EvalError>(stuck));
    assert(quote_spec(1, ValueM::<N>::Lib(l), d) == Ok::<TermM<N>, EvalError>(TermM::Lib(l)));
    assert(quote_spec(1, ValueM::<N>::Var(0), d) == Ok::<TermM<N>, EvalError>(TermM::Var(0)));
    let args = seq![ValueM::<N>::Var(0)];
    assert(quote_args_spec(1, TermM::Lib(l), args, d, 0) == Ok::<TermM<N>, EvalError>(TermM::Lib(l)));
    assert(quote_args_spec(1, TermM::Lib(l), args, d, 1) == Ok::<TermM<N>, EvalError>(body));
    assert(quote_spec(1, stuck, d) == Ok::<TermM<N>, EvalError>(body));
}

} // verus!
