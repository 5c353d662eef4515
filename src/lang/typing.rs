use vstd::prelude::*;
use crate::lang::library::Lib;
use crate::lang::term::TermM;
use crate::lang::value::{ExternM, ValueM};
use crate::lang::value_type::Ty;

verus! {

pub open spec fn func_ty(p: Ty, r: Ty) -> Ty {
    Ty::Func(Box::new(p), Box::new(r))
}

/// `(Float, Float)`: a complex number as its two parts.
pub open spec fn complex_ty() -> Ty {
    Ty::Tuple(seq![Ty::Float, Ty::Float])
}

/// The fixed type of each built-in.
pub open spec fn lib_ty<N>(l: Lib<N>) -> Ty {
    match l {
        Lib::Fft => func_ty(Ty::Float, complex_ty()),
        Lib::Beat | Lib::Sec => Ty::Float,
        Lib::Add | Lib::Sub | Lib::Mul | Lib::Div | Lib::Mod => func_ty(
            Ty::Float,
            func_ty(Ty::Float, Ty::Float),
        ),
        Lib::Lt | Lib::Le | Lib::Gt | Lib::Ge => func_ty(Ty::Float, func_ty(Ty::Float, Ty::Bool)),
        Lib::Add1(_) | Lib::Sub1(_) | Lib::Mul1(_) | Lib::Div1(_) | Lib::Mod1(_) => func_ty(
            Ty::Float,
            Ty::Float,
        ),
        Lib::AddI(_) | Lib::SubI(_) | Lib::MulI(_) | Lib::DivI(_) | Lib::ModI(_) => func_ty(
            Ty::Float,
            Ty::Float,
        ),
        Lib::Lt1(_) | Lib::Le1(_) | Lib::Gt1(_) | Lib::Ge1(_) => func_ty(Ty::Float, Ty::Bool),
        Lib::LtI(_) | Lib::LeI(_) | Lib::GtI(_) | Lib::GeI(_) => func_ty(Ty::Float, Ty::Bool),
        Lib::Sin | Lib::Cos => func_ty(Ty::Float, Ty::Float),
        Lib::Re | Lib::Im | Lib::Norm | Lib::Angle => func_ty(complex_ty(), Ty::Float),
        Lib::Polar => func_ty(complex_ty(), complex_ty()),
    }
}

/// The type of a core term in a context that lists the types of the
/// environment stack from the bottom up (`Var(0)` is the last), or `None`
/// when the term is ill-typed there.
pub open spec fn term_ty<N>(ctx: Seq<Ty>, t: TermM<N>) -> Option<Ty>
    decreases t, 1nat, 0nat,
{
    match t {
        TermM::Float(_) => Some(Ty::Float),
        TermM::Bool(_) => Some(Ty::Bool),
        TermM::Var(k) => if k < ctx.len() {
            Some(ctx[ctx.len() - 1 - k])
        } else {
            None
        },
        TermM::Lib(l) => Some(lib_ty(l)),
        TermM::Tuple(ts) => match terms_ty(ctx, ts, ts.len()) {
            Some(tys) => Some(Ty::Tuple(tys)),
            None => None,
        },
        TermM::Apply(f, a) => match term_ty(ctx, *f) {
            Some(Ty::Func(p, r)) => if term_ty(ctx, *a) == Some(*p) {
                Some(*r)
            } else {
                None
            },
            _ => None,
        },
        TermM::Func(p, _, b) => match term_ty(ctx.push(p), *b) {
            Some(r) => Some(func_ty(p, r)),
            None => None,
        },
        TermM::Let(p, _, v, b) => if term_ty(ctx, *v) == Some(p) {
            term_ty(ctx.push(p), *b)
        } else {
            None
        },
        TermM::Alt(c, a, b) => if term_ty(ctx, *c) == Some(Ty::Bool) && term_ty(ctx, *a) is Some
            && term_ty(ctx, *a) == term_ty(ctx, *b) {
            term_ty(ctx, *a)
        } else {
            None
        },
    }
}

/// The types of the first `n` terms, when each has one.
pub open spec fn terms_ty<N>(ctx: Seq<Ty>, ts: Seq<TermM<N>>, n: nat) -> Option<Seq<Ty>>
    decreases ts, 0nat, n,
{
    if n == 0 || n > ts.len() {
        if n == 0 { Some(Seq::empty()) } else { None }
    } else {
        match (terms_ty(ctx, ts, (n - 1) as nat), term_ty(ctx, ts[n - 1])) {
            (Some(tys), Some(t)) => Some(tys.push(t)),
            _ => None,
        }
    }
}

/// The types of the first `n` values, when each has one.
pub open spec fn values_ty<N>(vs: Seq<ValueM<N>>, n: nat) -> Option<Seq<Ty>>
    decreases vs, 0nat, n,
{
    if n == 0 || n > vs.len() {
        if n == 0 { Some(Seq::empty()) } else { None }
    } else {
        match (values_ty(vs, (n - 1) as nat), value_ty(vs[n - 1])) {
            (Some(tys), Some(t)) => Some(tys.push(t)),
            _ => None,
        }
    }
}

/// `values_ty` lists the types of the values, and is defined exactly when
/// each value has a type.
pub proof fn lemma_values_ty<N>(vs: Seq<ValueM<N>>, n: nat)
    requires
        n <= vs.len(),
    ensures
        values_ty(vs, n) is Some <==> forall|i: int| 0 <= i < n ==> (#[trigger] value_ty(vs[i])) is Some,
        values_ty(vs, n) is Some ==> values_ty(vs, n)->0.len() == n && forall|i: int|
            0 <= i < n ==> #[trigger] value_ty(vs[i]) == Some(values_ty(vs, n)->0[i]),
    decreases n,
{
    if n > 0 {
        lemma_values_ty(vs, (n - 1) as nat);
        if values_ty(vs, n) is Some {
            let tys = values_ty(vs, n)->0;
            assert forall|i: int| 0 <= i < n implies #[trigger] value_ty(vs[i]) == Some(tys[i]) by {
                if i < n - 1 {
                    assert(tys[i] == values_ty(vs, (n - 1) as nat)->0[i]);
                }
            }
        } else {
            if value_ty(vs[n - 1]) is Some {
                assert(!(forall|i: int| 0 <= i < n - 1 ==> (#[trigger] value_ty(vs[i])) is Some));
            }
        }
    }
}

/// `terms_ty` lists the types of the terms, and is defined exactly when
/// each term has a type.
pub proof fn lemma_terms_ty<N>(ctx: Seq<Ty>, ts: Seq<TermM<N>>, n: nat)
    requires
        n <= ts.len(),
    ensures
        terms_ty(ctx, ts, n) is Some <==> forall|i: int| 0 <= i < n ==> (#[trigger] term_ty(ctx, ts[i])) is Some,
        terms_ty(ctx, ts, n) is Some ==> terms_ty(ctx, ts, n)->0.len() == n && forall|i: int|
            0 <= i < n ==> #[trigger] term_ty(ctx, ts[i]) == Some(terms_ty(ctx, ts, n)->0[i]),
    decreases n,
{
    if n > 0 {
        lemma_terms_ty(ctx, ts, (n - 1) as nat);
        if terms_ty(ctx, ts, n) is Some {
            let tys = terms_ty(ctx, ts, n)->0;
            assert forall|i: int| 0 <= i < n implies #[trigger] term_ty(ctx, ts[i]) == Some(tys[i]) by {
                if i < n - 1 {
                    assert(tys[i] == terms_ty(ctx, ts, (n - 1) as nat)->0[i]);
                }
            }
        } else {
            if term_ty(ctx, ts[n - 1]) is Some {
                assert(!(forall|i: int| 0 <= i < n - 1 ==> (#[trigger] term_ty(ctx, ts[i])) is Some));
            }
        }
    }
}

/// The type of a runtime value, or `None` for what evaluation never
/// produces (symbolic values, and the resource readers `Beat` and `Sec`,
/// which evaluation resolves to numbers).  Integers are numbers of type
/// `Float`.  A closure has the type of its body in the types of its
/// captured environment.
pub open spec fn value_ty<N>(v: ValueM<N>) -> Option<Ty>
    decreases v, 1nat, 0nat,
{
    match v {
        ValueM::Int(_) => Some(Ty::Float),
        ValueM::Float(_) => Some(Ty::Float),
        ValueM::Bool(_) => Some(Ty::Bool),
        ValueM::Lib(l) => if l is Beat || l is Sec {
            None
        } else {
            Some(lib_ty(l))
        },
        ValueM::Tuple(vs) => match values_ty(vs, vs.len()) {
            Some(tys) => Some(Ty::Tuple(tys)),
            None => None,
        },
        ValueM::Extern(ExternM::FloatArray(_)) => Some(func_ty(Ty::Float, Ty::Float)),
        ValueM::Extern(ExternM::ComplexArray(_)) => Some(func_ty(Ty::Float, complex_ty())),
        ValueM::Func(p, body, env, _) => match values_ty(env, env.len()) {
            Some(ctx) => match term_ty(ctx.push(p), body) {
                Some(r) => Some(func_ty(p, r)),
                None => None,
            },
            None => None,
        },
        _ => None,
    }
}

/// An environment is typed by `ctx` when each value has the type listed at
/// its position.
pub open spec fn env_typed<N>(env: Seq<ValueM<N>>, ctx: Seq<Ty>) -> bool {
    &&& env.len() == ctx.len()
    &&& forall|i: int| 0 <= i < env.len() ==> #[trigger] value_ty(env[i]) == Some(ctx[i])
}

} // verus!
