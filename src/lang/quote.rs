use vstd::prelude::*;
use crate::lang::library::{Lib, papply_typed, papply_spec};
use crate::lang::external::extern_apply_spec;
use crate::lang::eval::lemma_env_ctx_push;
use crate::lang::value::result_m;
use crate::lang::value_type::{Ty, ty_of};
use crate::lang::scalar::Scalar;
use crate::lang::term::{term_m, Term, TermM, lemma_term_member_decreases, lemma_term_tuple_view, terms_m};
use crate::lang::value::{
    Closure, Env, EvalError, Value, ValueM, copy_values, is_symbolic, lib_is_symbol, lemma_value_member_decreases,
    lemma_values_m, value_m, values_m,
};

verus! {

/// The function at the head of a chain of applications.
pub open spec fn term_head<N>(t: TermM<N>) -> TermM<N>
    decreases t,
{
    match t {
        TermM::Apply(f, _) => term_head(*f),
        _ => t,
    }
}

/// The function at the head of a stuck application.
pub open spec fn value_head<N>(v: ValueM<N>) -> ValueM<N> {
    match v {
        ValueM::Apply(f, _) => *f,
        _ => v,
    }
}

/// Partial evaluation ahead of time, with no resource: as `eval_spec`,
/// except that built-ins follow `papply_spec` (no computation on symbolic
/// operands, resource readers left unapplied), an array is read only at a
/// known index, and a conditional whose condition is not a boolean keeps
/// both branches, each partially evaluated, as a pending choice.  A
/// boolean condition keeps only the branch it selects.
pub open spec fn peval_spec<N: Scalar>(t: TermM<N>, env: Seq<ValueM<N>>, depth: u64) -> Result<ValueM<N>, EvalError>
    decreases depth, 1nat, t, 0nat,
{
    match t {
        TermM::Float(x) => Ok(ValueM::Float(x)),
        TermM::Bool(b) => Ok(ValueM::Bool(b)),
        TermM::Var(k) => if k < env.len() {
            Ok(env[env.len() - 1 - k])
        } else {
            Err(EvalError::VarNotFound)
        },
        TermM::Lib(l) => Ok(ValueM::Lib(l)),
        TermM::Tuple(ts) => match pevals_spec(ts, env, depth, ts.len()) {
            Ok(vs) => Ok(ValueM::Tuple(vs)),
            Err(e) => Err(e),
        },
        TermM::Apply(f, a) => match peval_spec(*f, env, depth) {
            Ok(fv) => match peval_spec(*a, env, depth) {
                Ok(av) => papply_value_spec(fv, av, depth),
                Err(e) => Err(e),
            },
            Err(e) => Err(e),
        },
        TermM::Func(p, n, b) => Ok(ValueM::Func(p, *b, env, n)),
        TermM::Let(_, _, v, b) => match peval_spec(*v, env, depth) {
            Ok(x) => peval_spec(*b, env.push(x), depth),
            Err(e) => Err(e),
        },
        TermM::Alt(c, a, b) => match peval_spec(*c, env, depth) {
            Ok(ValueM::Bool(true)) => peval_spec(*a, env, depth),
            Ok(ValueM::Bool(false)) => peval_spec(*b, env, depth),
            Ok(cv) => match peval_spec(*a, env, depth) {
                Ok(av) => match peval_spec(*b, env, depth) {
                    Ok(bv) => Ok(ValueM::Alt(Box::new(cv), Box::new(av), Box::new(bv))),
                    Err(e) => Err(e),
                },
                Err(e) => Err(e),
            },
            Err(e) => Err(e),
        },
    }
}

/// The first `n` terms partially evaluated left to right.
pub open spec fn pevals_spec<N: Scalar>(ts: Seq<TermM<N>>, env: Seq<ValueM<N>>, depth: u64, n: nat) -> Result<
    Seq<ValueM<N>>,
    EvalError,
>
    decreases depth, 1nat, ts, n,
{
    if n == 0 || n > ts.len() {
        Ok(Seq::empty())
    } else {
        match pevals_spec(ts, env, depth, (n - 1) as nat) {
            Ok(vs) => match peval_spec(ts[n - 1], env, depth) {
                Ok(v) => Ok(vs.push(v)),
                Err(e) => Err(e),
            },
            Err(e) => Err(e),
        }
    }
}

/// Applying a value in normalization: a closure partially evaluates its
/// body with the argument pushed (one level of `depth`); a built-in follows
/// `papply_spec`; an array is read at a known index and is stuck on a
/// symbolic one; a stuck application takes one more argument; anything
/// else becomes stuck.
pub open spec fn papply_value_spec<N: Scalar>(f: ValueM<N>, a: ValueM<N>, depth: u64) -> Result<ValueM<N>, EvalError>
    decreases depth, 0nat, f, 0nat,
{
    match f {
        ValueM::Func(_, body, cenv, _) => if depth == 0 {
            Err(EvalError::DepthExhausted)
        } else {
            peval_spec(body, cenv.push(a), (depth - 1) as u64)
        },
        ValueM::Lib(l) => papply_spec(l, a),
        ValueM::Extern(e) => if is_symbolic(a) {
            Ok(ValueM::Apply(Box::new(f), seq![a]))
        } else {
            extern_apply_spec(e, a)
        },
        ValueM::Apply(g, args) => Ok(ValueM::Apply(g, args.push(a))),
        _ => Ok(ValueM::Apply(Box::new(f), seq![a])),
    }
}

pub proof fn lemma_pevals_err<N: Scalar>(ts: Seq<TermM<N>>, env: Seq<ValueM<N>>, depth: u64, n: nat, m: nat)
    requires
        n <= m <= ts.len(),
        pevals_spec(ts, env, depth, n) is Err,
    ensures
        pevals_spec(ts, env, depth, m) == pevals_spec(ts, env, depth, n),
    decreases m - n,
{
    if n < m {
        lemma_pevals_err(ts, env, depth, n, (m - 1) as nat);
    }
}

/// Partially evaluates a term ahead of time, with no resource: built-ins
/// compute only on known operands, resource readers stay unresolved, a
/// condition known to be a boolean keeps only the branch it selects, and
/// an unknown one keeps both branches, each normalized.  The environment
/// is left as it was.
pub fn peval<N: Scalar>(term: &Term<N>, env: &mut Env<N>, depth: u64) -> (r: Result<Value<N>, EvalError>)
    ensures
        final(env)@ == old(env)@,
        term@ matches TermM::Float(x) ==> r == Ok::<Value<N>, EvalError>(Value::Float(x)),
        term@ matches TermM::Bool(b) ==> r == Ok::<Value<N>, EvalError>(Value::Bool(b)),
        term@ matches TermM::Lib(l) ==> r == Ok::<Value<N>, EvalError>(Value::Lib(l)),
        term@ matches TermM::Var(k) ==> (k < old(env)@.len() <==> r is Ok) && (r is Ok ==> r->Ok_0@
            == old(env)@[old(env)@.len() - 1 - k]@) && (r is Err ==> r == Err::<Value<N>, EvalError>(
            EvalError::VarNotFound,
        )),
        term@ matches TermM::Apply(f, _) ==> (*f matches TermM::Lib(l) ==> (lib_is_symbol(l) ==> (r is Ok
            ==> r->Ok_0@ is Apply && value_head(r->Ok_0@) == ValueM::<N>::Lib(l)))),
        term@ matches TermM::Func(p, n, b) ==> r is Ok && r->Ok_0@ == ValueM::Func(p, *b, values_m(old(env)@), n),
        result_m(r) == peval_spec(term@, values_m(old(env)@), depth),
    decreases depth, 1nat, term,
{
    let ghost env0 = env@;
    proof {
        lemma_values_m(env@);
    }
    match term {
        Term::Float(x) => Ok(Value::Float(*x)),
        Term::Bool(b) => Ok(Value::Bool(*b)),
        Term::Var(v) => {
            if *v < env.len() {
                Ok(env[env.len() - 1 - *v].copy())
            } else {
                Err(EvalError::VarNotFound)
            }
        },
        Term::Lib(l) => Ok(Value::Lib(*l)),
        Term::Tuple(ts) => {
            let ghost tm = terms_m(ts@);
            let mut out: Vec<Value<N>> = Vec::new();
            let mut i: usize = 0;
            proof {
                assert(values_m(out@) =~= Seq::<ValueM<N>>::empty());
            }
            while i < ts.len()
                invariant
                    i <= ts@.len(),
                    *term == Term::Tuple(*ts),
                    tm == terms_m(ts@),
                    env@ == env0,
                    old(env)@ == env0,
                    pevals_spec(tm, values_m(env0), depth, i as nat) == Ok::<Seq<ValueM<N>>, EvalError>(values_m(out@)),
                decreases ts@.len() - i,
            {
                proof {
                    lemma_term_member_decreases(*term, i as int);
                    assert(tm[i as int] == ts@[i as int]@);
                }
                let v = match peval(&ts[i], env, depth) {
                    Ok(v) => v,
                    Err(e) => {
                        proof {
                            lemma_term_tuple_view(*term);
                            lemma_pevals_err(tm, values_m(env0), depth, (i + 1) as nat, tm.len());
                        }
                        return Err(e);
                    },
                };
                proof {
                    lemma_env_ctx_push(out@, v);
                }
                out.push(v);
                i = i + 1;
            }
            let r = Value::Tuple(out);
            proof {
                lemma_term_tuple_view(*term);
                assert(r@ == ValueM::Tuple(values_m(out@)));
            }
            Ok(r)
        },
        Term::Apply(f, a) => {
            let fv = match peval(f, env, depth) {
                Ok(v) => v,
                Err(e) => { return Err(e); },
            };
            let av = match peval(a, env, depth) {
                Ok(v) => v,
                Err(e) => { return Err(e); },
            };
            let r = fv.papply(av, depth);
            proof {
                if let TermM::Lib(l) = (**f)@ {
                    if lib_is_symbol(l) {
                        lemma_values_m(seq![av]);
                    }
                }
            }
            r
        },
        Term::Func(p, n, b) => {
            let captured = copy_values(env);
            let r = Value::Func(Box::new(p.copy()), Closure(Box::new(b.copy()), captured, n.clone()));
            proof {
                assert(r@ == ValueM::Func((**p)@, (**b)@, values_m(captured@), n@));
            }
            Ok(r)
        },
        Term::Let(_, _, v, b) => {
            let x = match peval(v, env, depth) {
                Ok(x) => x,
                Err(e) => { return Err(e); },
            };
            proof {
                lemma_env_ctx_push(env@, x);
            }
            env.push(x);
            let r = peval(b, env, depth);
            env.pop();
            proof {
                assert(env@ =~= env0);
            }
            r
        },
        Term::Alt(c, a, b) => {
            let cv = match peval(c, env, depth) {
                Ok(v) => v,
                Err(e) => { return Err(e); },
            };
            match cv {
                Value::Bool(true) => peval(a, env, depth),
                Value::Bool(false) => peval(b, env, depth),
                other => {
                    let av = match peval(a, env, depth) {
                        Ok(v) => v,
                        Err(e) => { return Err(e); },
                    };
                    let bv = match peval(b, env, depth) {
                        Ok(v) => v,
                        Err(e) => { return Err(e); },
                    };
                    Ok(Value::Alt(Box::new(other), Box::new(av), Box::new(bv)))
                },
            }
        },
    }
}

/// Partially evaluates a closure's body in the environment it owns (with
/// the argument already pushed), consuming both.
pub fn peval_closure<N: Scalar>(term: Term<N>, env: Env<N>, depth: u64) -> (r: Result<Value<N>, EvalError>)
    ensures
        term@ matches TermM::Float(x) ==> r == Ok::<Value<N>, EvalError>(Value::Float(x)),
        term@ matches TermM::Bool(b) ==> r == Ok::<Value<N>, EvalError>(Value::Bool(b)),
        term@ matches TermM::Var(k) ==> (k < env@.len() <==> r is Ok) && (r is Ok ==> r->Ok_0@ == env@[env@.len()
            - 1 - k]@),
        result_m(r) == peval_spec(term@, values_m(env@), depth),
    decreases depth, 2nat, term,
{
    let mut env = env;
    peval(&term, &mut env, depth)
}

impl<N: Scalar> Closure<N> {
    /// Calls the closure during normalization: partially evaluates its body
    /// with the argument pushed on its captured environment.
    pub fn papply(self, arg: Value<N>, depth: u64) -> (r: Result<Value<N>, EvalError>)
        ensures
            (*self.0)@ matches TermM::Var(0) ==> r is Ok && r->Ok_0@ == arg@,
            result_m(r) == peval_spec((*self.0)@, values_m(self.1@).push(arg@), depth),
        decreases depth, 3nat, self,
    {
        let Closure(body, mut env, _) = self;
        proof {
            lemma_env_ctx_push(env@, arg);
        }
        env.push(arg);
        peval_closure(*body, env, depth)
    }
}

impl<N: Scalar> Value<N> {
    /// Applies a value to an argument during normalization: a closure is
    /// called, a built-in follows `Lib::papply`, an array is read only at a
    /// known index, a stuck application takes one more argument, and
    /// anything else becomes stuck.
    pub fn papply(self, arg: Value<N>, depth: u64) -> (r: Result<Value<N>, EvalError>)
        ensures
            self@ matches ValueM::Lib(l) ==> papply_typed(l, arg@, r),
            self is Apply ==> r is Ok && r->Ok_0@ is Apply && value_head(r->Ok_0@) == value_head(self@),
            (self is Extern && is_symbolic(arg@)) ==> r is Ok && r->Ok_0@ is Apply,
            result_m(r) == papply_value_spec(self@, arg@, depth),
        decreases depth, 0nat, self,
    {
        let ghost f = self@;
        let ghost a = arg@;
        match self {
            Value::Func(p, c) => {
                if depth == 0 {
                    return Err(EvalError::DepthExhausted);
                }
                proof {
                    assert(f == ValueM::Func(ty_of(*p), term_m(*c.0), values_m(c.1@), c.2@));
                }
                c.papply(arg, depth - 1)
            },
            Value::Lib(l) => l.papply(arg),
            Value::Extern(e) => {
                if arg.is_symbol() {
                    let mut args: Vec<Value<N>> = Vec::new();
                    args.push(arg);
                    let r = Value::Apply(Box::new(Value::Extern(e)), args);
                    proof {
                        lemma_values_m(args@);
                        assert(values_m(args@) =~= seq![a]);
                        assert(r@ == ValueM::Apply(Box::new(f), seq![a]));
                    }
                    Ok(r)
                } else {
                    e.apply(&arg)
                }
            },
            Value::Apply(g, mut args) => {
                proof {
                    lemma_env_ctx_push(args@, arg);
                }
                let ghost a0 = args@;
                args.push(arg);
                let r = Value::Apply(g, args);
                proof {
                    assert(r@ == ValueM::Apply(Box::new((*g)@), values_m(a0).push(a)));
                }
                Ok(r)
            },
            other => {
                let ghost o = other@;
                let mut args: Vec<Value<N>> = Vec::new();
                args.push(arg);
                let r = Value::Apply(Box::new(other), args);
                proof {
                    lemma_values_m(args@);
                    assert(values_m(args@) =~= seq![a]);
                    assert(r@ == ValueM::Apply(Box::new(o), seq![a]));
                }
                Ok(r)
            },
        }
    }
}

/// Turns a value back into a term, `level` binders deep.  A function is
/// probed with a fresh variable for its parameter and its body is quoted
/// one level deeper; a stuck application becomes nested applications of
/// its head; a pending choice becomes a conditional; an integer becomes a
/// number literal.  Arrays have no term.
pub fn quote<N: Scalar>(level: usize, val: Value<N>, depth: u64) -> (r: Result<Term<N>, EvalError>)
    ensures
        quote_shape(level, val@, r),
        term_result_m(r) == quote_spec(level, val@, depth),
{
    quote_ref(level, &val, depth)
}

/// What quoting `v` at `level` gives, where it is fixed: a literal for a
/// literal, the de Bruijn index of a level below `level`, a stuck
/// application on a built-in headed by that built-in, and no term for an
/// array or a level not below `level`.
pub open spec fn quote_shape<N>(level: usize, v: ValueM<N>, r: Result<Term<N>, EvalError>) -> bool {
    &&& v matches ValueM::Float(x) ==> r == Ok::<Term<N>, EvalError>(Term::Float(x))
    &&& v matches ValueM::Bool(b) ==> r == Ok::<Term<N>, EvalError>(Term::Bool(b))
    &&& v matches ValueM::Lib(l) ==> r == Ok::<Term<N>, EvalError>(Term::Lib(l))
    &&& v matches ValueM::Var(i) ==> (i < level <==> r is Ok) && (r is Ok ==> r == Ok::<Term<N>, EvalError>(
        Term::Var((level - i - 1) as usize),
    ))
    &&& v is Extern ==> r == Err::<Term<N>, EvalError>(EvalError::BadArgument)
    &&& (v is Apply && r is Ok) ==> (value_head(v) matches ValueM::Lib(l) ==> term_head(r->Ok_0@)
        == TermM::<N>::Lib(l))
    &&& v matches ValueM::Func(p, _, _, _) ==> (r is Ok ==> r->Ok_0@ is Func && r->Ok_0@->Func_0 == p
        && r->Ok_0@->Func_1 == Seq::<char>::empty())
    &&& (v is Alt && r is Ok) ==> r->Ok_0@ is Alt
    &&& v matches ValueM::Tuple(vs) ==> (r is Ok ==> r->Ok_0@ is Tuple && r->Ok_0@->Tuple_0.len() == vs.len())
}

/// The model of a quoting result.
pub open spec fn term_result_m<N>(r: Result<Term<N>, EvalError>) -> Result<TermM<N>, EvalError> {
    match r {
        Ok(t) => Ok(t@),
        Err(e) => Err(e),
    }
}

/// Turning a value back into a term, `level` binders deep: literals are
/// themselves (an integer becomes a number literal); a variable's level
/// becomes its de Bruijn index; a function is probed with a fresh variable
/// `Var(level)` for its parameter, partially evaluated, and its body quoted
/// one level deeper, under an unnamed binder; a stuck application becomes
/// nested applications of its quoted head to its quoted arguments in order;
/// a pending choice becomes a conditional; a tuple a tuple.  Arrays have no
/// term; a variable not below `level` is unbound.
pub open spec fn quote_spec<N: Scalar>(level: usize, v: ValueM<N>, depth: u64) -> Result<TermM<N>, EvalError>
    decreases depth, v, 1nat, 0nat,
{
    match v {
        ValueM::Float(x) => Ok(TermM::Float(x)),
        ValueM::Int(i) => Ok(TermM::Float(N::from_int_spec(i))),
        ValueM::Bool(b) => Ok(TermM::Bool(b)),
        ValueM::Lib(l) => Ok(TermM::Lib(l)),
        ValueM::Var(i) => if i < level {
            Ok(TermM::Var((level - i - 1) as usize))
        } else {
            Err(EvalError::VarNotFound)
        },
        ValueM::Extern(_) => Err(EvalError::BadArgument),
        ValueM::Func(p, body, cenv, _) => if depth == 0 || level == usize::MAX {
            Err(EvalError::DepthExhausted)
        } else {
            match peval_spec(body, cenv.push(ValueM::Var(level)), (depth - 1) as u64) {
                Ok(probed) => match quote_spec((level + 1) as usize, probed, (depth - 1) as u64) {
                    Ok(b) => Ok(TermM::Func(p, Seq::empty(), Box::new(b))),
                    Err(e) => Err(e),
                },
                Err(e) => Err(e),
            }
        },
        ValueM::Apply(f, args) => match quote_spec(level, *f, depth) {
            Ok(h) => quote_args_spec(level, h, args, depth, args.len()),
            Err(e) => Err(e),
        },
        ValueM::Alt(c, a, b) => match quote_spec(level, *c, depth) {
            Ok(ct) => match quote_spec(level, *a, depth) {
                Ok(at) => match quote_spec(level, *b, depth) {
                    Ok(bt) => Ok(TermM::Alt(Box::new(ct), Box::new(at), Box::new(bt))),
                    Err(e) => Err(e),
                },
                Err(e) => Err(e),
            },
            Err(e) => Err(e),
        },
        ValueM::Tuple(vs) => match quotes_spec(level, vs, depth, vs.len()) {
            Ok(ts) => Ok(TermM::Tuple(ts)),
            Err(e) => Err(e),
        },
    }
}

/// `head` applied, in order, to the first `n` arguments quoted.
pub open spec fn quote_args_spec<N: Scalar>(level: usize, head: TermM<N>, args: Seq<ValueM<N>>, depth: u64, n: nat) -> Result<
    TermM<N>,
    EvalError,
>
    decreases depth, args, 0nat, n,
{
    if n == 0 || n > args.len() {
        Ok(head)
    } else {
        match quote_args_spec(level, head, args, depth, (n - 1) as nat) {
            Ok(t) => match quote_spec(level, args[n - 1], depth) {
                Ok(a) => Ok(TermM::Apply(Box::new(t), Box::new(a))),
                Err(e) => Err(e),
            },
            Err(e) => Err(e),
        }
    }
}

/// The first `n` values quoted, left to right.
pub open spec fn quotes_spec<N: Scalar>(level: usize, vs: Seq<ValueM<N>>, depth: u64, n: nat) -> Result<Seq<TermM<N>>, EvalError>
    decreases depth, vs, 0nat, n,
{
    if n == 0 || n > vs.len() {
        Ok(Seq::empty())
    } else {
        match quotes_spec(level, vs, depth, (n - 1) as nat) {
            Ok(ts) => match quote_spec(level, vs[n - 1], depth) {
                Ok(t) => Ok(ts.push(t)),
                Err(e) => Err(e),
            },
            Err(e) => Err(e),
        }
    }
}

pub proof fn lemma_quote_args_err<N: Scalar>(level: usize, head: TermM<N>, args: Seq<ValueM<N>>, depth: u64, n: nat, m: nat)
    requires
        n <= m <= args.len(),
        quote_args_spec(level, head, args, depth, n) is Err,
    ensures
        quote_args_spec(level, head, args, depth, m) == quote_args_spec(level, head, args, depth, n),
    decreases m - n,
{
    if n < m {
        lemma_quote_args_err(level, head, args, depth, n, (m - 1) as nat);
    }
}

pub proof fn lemma_quotes_err<N: Scalar>(level: usize, vs: Seq<ValueM<N>>, depth: u64, n: nat, m: nat)
    requires
        n <= m <= vs.len(),
        quotes_spec(level, vs, depth, n) is Err,
    ensures
        quotes_spec(level, vs, depth, m) == quotes_spec(level, vs, depth, n),
    decreases m - n,
{
    if n < m {
        lemma_quotes_err(level, vs, depth, n, (m - 1) as nat);
    }
}

/// Normalization of a closed term: partial evaluation in the empty
/// environment, then quoting at level 0.
pub open spec fn simp_spec<N: Scalar>(t: TermM<N>, depth: u64) -> Result<TermM<N>, EvalError> {
    match peval_spec(t, Seq::empty(), depth) {
        Ok(v) => quote_spec(0, v, depth),
        Err(e) => Err(e),
    }
}

fn quote_ref<N: Scalar>(level: usize, val: &Value<N>, depth: u64) -> (r: Result<Term<N>, EvalError>)
    ensures
        quote_shape(level, val@, r),
        term_result_m(r) == quote_spec(level, val@, depth),
    decreases depth, val,
{
    match val {
        Value::Float(x) => Ok(Term::Float(*x)),
        Value::Int(i) => Ok(Term::Float(N::from_int(*i))),
        Value::Bool(b) => Ok(Term::Bool(*b)),
        Value::Lib(l) => Ok(Term::Lib(*l)),
        Value::Var(i) => {
            if *i < level {
                Ok(Term::Var(level - *i - 1))
            } else {
                Err(EvalError::VarNotFound)
            }
        },
        Value::Extern(_) => Err(EvalError::BadArgument),
        Value::Func(p, c) => {
            if depth == 0 || level == usize::MAX {
                return Err(EvalError::DepthExhausted);
            }
            let own = Closure(Box::new(c.0.copy()), copy_values(&c.1), c.2.clone());
            proof {
                lemma_values_m(c.1@);
                assert(val@ == ValueM::Func(ty_of(**p), term_m(*c.0), values_m(c.1@), c.2@));
            }
            let probed = match own.papply(Value::Var(level), depth - 1) {
                Ok(v) => v,
                Err(e) => { return Err(e); },
            };
            let body = match quote_ref(level + 1, &probed, depth - 1) {
                Ok(t) => t,
                Err(e) => { return Err(e); },
            };
            let t = Term::Func(Box::new(p.copy()), String::new(), Box::new(body));
            proof {
                assert(t@->Func_1 =~= Seq::<char>::empty());
            }
            Ok(t)
        },
        Value::Apply(f, args) => {
            let mut result = match quote_ref(level, f, depth) {
                Ok(t) => t,
                Err(e) => { return Err(e); },
            };
            let ghost h = result@;
            let ghost am = values_m(args@);
            proof {
                lemma_values_m(args@);
                assert(val@ == ValueM::Apply(Box::new((**f)@), am));
            }
            let mut i: usize = 0;
            while i < args.len()
                invariant
                    *val == Value::Apply(*f, *args),
                    am == values_m(args@),
                    am.len() == args@.len(),
                    forall|j: int| 0 <= j < args@.len() ==> #[trigger] am[j] == args@[j]@,
                    quote_args_spec(level, h, am, depth, i as nat) == Ok::<TermM<N>, EvalError>(result@),
                        quote_spec(level, val@, depth) == quote_args_spec(level, h, am, depth, am.len()),
                    i <= args@.len(),
                    (**f)@ matches ValueM::Lib(l) ==> term_head(result@) == TermM::<N>::Lib(l),
                decreases args@.len() - i,
            {
                proof {
                    assert(decreases_to!(*val => val->Apply_1));
                    assert(decreases_to!(val->Apply_1 => val->Apply_1[i as int]));
                }
                let t = match quote_ref(level, &args[i], depth) {
                    Ok(t) => t,
                    Err(e) => {
                        proof {
                            assert(am[i as int] == args@[i as int]@);
                            lemma_quote_args_err(level, h, am, depth, (i + 1) as nat, am.len());
                        }
                        return Err(e);
                    },
                };
                proof {
                    assert(am[i as int] == args@[i as int]@);
                }
                result = Term::Apply(Box::new(result), Box::new(t));
                i = i + 1;
            }
            proof {
                assert(value_head(val@) == (**f)@);
            }
            Ok(result)
        },
        Value::Alt(c, a, b) => {
            let ct = match quote_ref(level, c, depth) {
                Ok(t) => t,
                Err(e) => { return Err(e); },
            };
            let at = match quote_ref(level, a, depth) {
                Ok(t) => t,
                Err(e) => { return Err(e); },
            };
            let bt = match quote_ref(level, b, depth) {
                Ok(t) => t,
                Err(e) => { return Err(e); },
            };
            Ok(Term::Alt(Box::new(ct), Box::new(at), Box::new(bt)))
        },
        Value::Tuple(vs) => {
            let mut out: Vec<Term<N>> = Vec::new();
            let mut i: usize = 0;
            let ghost vm = values_m(vs@);
            proof {
                lemma_values_m(vs@);
                assert(terms_m(out@) =~= Seq::<TermM<N>>::empty());
            }
            while i < vs.len()
                invariant
                    *val == Value::Tuple(*vs),
                    vm == values_m(vs@),
                    vm.len() == vs@.len(),
                    forall|j: int| 0 <= j < vs@.len() ==> #[trigger] vm[j] == vs@[j]@,
                    quotes_spec(level, vm, depth, i as nat) == Ok::<Seq<TermM<N>>, EvalError>(terms_m(out@)),
                    val@ == ValueM::Tuple(vm),
                    i <= vs@.len(),
                    out@.len() == i,
                decreases vs@.len() - i,
            {
                proof {
                    lemma_value_member_decreases(*val, i as int);
                }
                let t = match quote_ref(level, &vs[i], depth) {
                    Ok(t) => t,
                    Err(e) => {
                        proof {
                            lemma_quotes_err(level, vm, depth, (i + 1) as nat, vm.len());
                        }
                        return Err(e);
                    },
                };
                let ghost before = terms_m(out@);
                out.push(t);
                proof {
                    assert(terms_m(out@) =~= before.push(t@));
                }
                i = i + 1;
            }
            proof {
                lemma_values_m(vs@);
            }
            let t = Term::Tuple(out);
            proof {
                lemma_term_tuple_view(t);
            }
            Ok(t)
        },
    }
}

/// Normalizes a closed term: partially evaluates it in the empty
/// environment and quotes the result.  Every part that does not depend on
/// a function's parameters or on the resource is computed once, here.
pub fn simp<N: Scalar>(term: &Term<N>, depth: u64) -> (r: Result<Term<N>, EvalError>)
    ensures
        term@ matches TermM::Float(x) ==> r == Ok::<Term<N>, EvalError>(Term::Float(x)),
        term@ matches TermM::Bool(b) ==> r == Ok::<Term<N>, EvalError>(Term::Bool(b)),
        term@ matches TermM::Lib(l) ==> r == Ok::<Term<N>, EvalError>(Term::Lib(l)),
        term@ is Var ==> r == Err::<Term<N>, EvalError>(EvalError::VarNotFound),
        term@ matches TermM::Func(p, _, _) ==> (r is Ok ==> r->Ok_0@ is Func && r->Ok_0@->Func_0 == p
            && r->Ok_0@->Func_1 == Seq::<char>::empty()),
        term_result_m(r) == simp_spec(term@, depth),
        term@ matches TermM::Apply(f, _) ==> (*f matches TermM::Lib(l) ==> (lib_is_symbol(l) ==> (r is Ok
            ==> term_head(r->Ok_0@) == TermM::<N>::Lib(l)))),
{
    let mut env: Env<N> = Vec::new();
    proof {
        assert(values_m(env@) =~= Seq::<ValueM<N>>::empty());
    }
    let v = match peval(term, &mut env, depth) {
        Ok(v) => v,
        Err(e) => { return Err(e); },
    };
    quote(0, v, depth)
}

} // verus!
