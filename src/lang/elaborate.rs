use vstd::prelude::*;
use crate::lang::library::Lib;
use crate::lang::pretty::{decimal, decimal_text};
use crate::lang::scalar::Scalar;
use crate::lang::syntax::Syntax;
use crate::lang::term::{Level, Term, TermM, lemma_term_tuple_view, terms_m};
use crate::lang::typing::{func_ty, lib_ty, term_ty, terms_ty, lemma_terms_ty};
use crate::lang::value_type::{type_text, ty_text, lemma_type_text, ty_of, Ty, ValueType, lemma_member_decreases, lemma_tuple_view, lemma_tuple_view_eq};

verus! {

/// A message saying why a program was rejected.
pub type ElaborateError = String;

/// The names in scope, each with the level it was bound at and its type.
/// Later entries shadow earlier ones.
pub type Ctx = Vec<(String, Level, ValueType)>;

/// The model of a context.
pub open spec fn ctx_m(ctx: Seq<(String, Level, ValueType)>) -> Seq<(Seq<char>, Level, Ty)> {
    Seq::new(ctx.len(), |i: int| (ctx[i].0@, ctx[i].1, ctx[i].2@))
}

/// The level and type of the innermost binding of `name`.
pub open spec fn lookup(c: Seq<(Seq<char>, Level, Ty)>, name: Seq<char>) -> Option<(Level, Ty)>
    decreases c.len(),
{
    if c.len() == 0 {
        None
    } else if c.last().0 == name {
        Some((c.last().1, c.last().2))
    } else {
        lookup(c.drop_last(), name)
    }
}

/// Every binding of the context is below `env_len`.
pub open spec fn ctx_wf(c: Seq<(Seq<char>, Level, Ty)>, env_len: Level) -> bool {
    forall|i: int| 0 <= i < c.len() ==> (#[trigger] c[i]).1 < env_len
}

/// `tctx` lists the types of an environment stack of height `env_len` on
/// which the context's bindings sit at their levels.
pub open spec fn fits(c: Seq<(Seq<char>, Level, Ty)>, env_len: Level, tctx: Seq<Ty>) -> bool {
    &&& tctx.len() == env_len
    &&& forall|i: int| 0 <= i < c.len() ==> (#[trigger] c[i]).1 < env_len && tctx[c[i].1 as int] == c[i].2
}

/// A core term has type `ty` on every environment stack that fits the
/// context.
pub open spec fn elaborates<N>(c: Seq<(Seq<char>, Level, Ty)>, env_len: Level, t: TermM<N>, ty: Ty) -> bool {
    forall|tctx: Seq<Ty>| #[trigger] fits(c, env_len, tctx) ==> term_ty(tctx, t) == Some(ty)
}

/// The type of surface syntax in a context, `env_len` binders deep, or
/// `None` when it is ill-typed: an unbound name, an application of a
/// non-function or to an argument of another type, a conditional whose
/// condition is not a `Bool` or whose branches differ, a `let` whose value
/// is not of the declared type.
pub open spec fn syntax_ty<N>(c: Seq<(Seq<char>, Level, Ty)>, env_len: Level, s: Syntax<N>) -> Option<Ty>
    decreases s, 1nat, 0nat,
{
    match s {
        Syntax::Float(_) => Some(Ty::Float),
        Syntax::Bool(_) => Some(Ty::Bool),
        Syntax::Var(n) => match lookup(c, n@) {
            Some(p) => Some(p.1),
            None => None,
        },
        Syntax::Lib(l) => Some(lib_ty(l)),
        Syntax::Tuple(ss) => match syntaxes_ty(c, env_len, ss@, ss@.len()) {
            Some(tys) => Some(Ty::Tuple(tys)),
            None => None,
        },
        Syntax::Apply(f, a) => match syntax_ty(c, env_len, *f) {
            Some(Ty::Func(p, r)) => if syntax_ty(c, env_len, *a) == Some(*p) {
                Some(*r)
            } else {
                None
            },
            _ => None,
        },
        Syntax::Func(p, n, b) => if env_len < usize::MAX {
            match syntax_ty(c.push((n@, env_len, p@)), (env_len + 1) as Level, *b) {
                Some(r) => Some(func_ty(p@, r)),
                None => None,
            }
        } else {
            None
        },
        Syntax::Let(p, n, v, b) => if env_len < usize::MAX && syntax_ty(c, env_len, *v) == Some(p@) {
            syntax_ty(c.push((n@, env_len, p@)), (env_len + 1) as Level, *b)
        } else {
            None
        },
        Syntax::Alt(cond, a, b) => if syntax_ty(c, env_len, *cond) == Some(Ty::Bool) && syntax_ty(c, env_len, *a) is Some
            && syntax_ty(c, env_len, *a) == syntax_ty(c, env_len, *b) {
            syntax_ty(c, env_len, *a)
        } else {
            None
        },
    }
}

/// The core term that elaboration makes of surface syntax: the same tree,
/// each name replaced by the distance of its innermost binding from the
/// top of the stack (`env_len - level - 1`), each binder recording its
/// level as `env_len` and raising `env_len` by one for its body.
pub open spec fn elab<N>(c: Seq<(Seq<char>, Level, Ty)>, env_len: Level, s: Syntax<N>) -> TermM<N>
    decreases s,
{
    match s {
        Syntax::Float(x) => TermM::Float(x),
        Syntax::Bool(b) => TermM::Bool(b),
        Syntax::Var(n) => match lookup(c, n@) {
            Some(p) => TermM::Var((env_len - p.0 - 1) as usize),
            None => TermM::Var(0),
        },
        Syntax::Lib(l) => TermM::Lib(l),
        Syntax::Tuple(ss) => TermM::Tuple(
            Seq::new(ss@.len(), |i: int| if 0 <= i < ss@.len() { elab(c, env_len, ss@[i]) } else { TermM::Bool(false) }),
        ),
        Syntax::Apply(f, a) => TermM::Apply(Box::new(elab(c, env_len, *f)), Box::new(elab(c, env_len, *a))),
        Syntax::Func(p, n, b) => TermM::Func(
            ty_of(*p),
            n@,
            Box::new(elab(c.push((n@, env_len, ty_of(*p))), (env_len + 1) as usize, *b)),
        ),
        Syntax::Let(p, n, v, b) => TermM::Let(
            ty_of(*p),
            n@,
            Box::new(elab(c, env_len, *v)),
            Box::new(elab(c.push((n@, env_len, ty_of(*p))), (env_len + 1) as usize, *b)),
        ),
        Syntax::Alt(x, y, z) => TermM::Alt(
            Box::new(elab(c, env_len, *x)),
            Box::new(elab(c, env_len, *y)),
            Box::new(elab(c, env_len, *z)),
        ),
    }
}

/// The types of the first `n` members of a tuple, when each has one.
pub open spec fn syntaxes_ty<N>(c: Seq<(Seq<char>, Level, Ty)>, env_len: Level, ss: Seq<Syntax<N>>, n: nat) -> Option<Seq<Ty>>
    decreases ss, 0nat, n,
{
    if n == 0 || n > ss.len() {
        if n == 0 { Some(Seq::empty()) } else { None }
    } else {
        match (syntaxes_ty(c, env_len, ss, (n - 1) as nat), syntax_ty(c, env_len, ss[n - 1])) {
            (Some(tys), Some(t)) => Some(tys.push(t)),
            _ => None,
        }
    }
}

pub proof fn lemma_syntaxes_ty<N>(c: Seq<(Seq<char>, Level, Ty)>, env_len: Level, ss: Seq<Syntax<N>>, n: nat)
    requires
        n <= ss.len(),
    ensures
        syntaxes_ty(c, env_len, ss, n) is Some <==> forall|i: int| 0 <= i < n ==> (#[trigger] syntax_ty(c, env_len, ss[i])) is Some,
        syntaxes_ty(c, env_len, ss, n) is Some ==> syntaxes_ty(c, env_len, ss, n)->0.len() == n && forall|i: int|
            0 <= i < n ==> #[trigger] syntax_ty(c, env_len, ss[i]) == Some(syntaxes_ty(c, env_len, ss, n)->0[i]),
    decreases n,
{
    if n > 0 {
        lemma_syntaxes_ty(c, env_len, ss, (n - 1) as nat);
        if syntaxes_ty(c, env_len, ss, n) is Some {
            let tys = syntaxes_ty(c, env_len, ss, n)->0;
            assert forall|i: int| 0 <= i < n implies #[trigger] syntax_ty(c, env_len, ss[i]) == Some(tys[i]) by {
                if i < n - 1 {
                    assert(tys[i] == syntaxes_ty(c, env_len, ss, (n - 1) as nat)->0[i]);
                }
            }
        } else {
            if syntax_ty(c, env_len, ss[n - 1]) is Some {
                assert(!(forall|i: int| 0 <= i < n - 1 ==> (#[trigger] syntax_ty(c, env_len, ss[i])) is Some));
            }
        }
    }
}

/// The innermost binding of a name is one of the context's entries.
pub proof fn lemma_lookup(c: Seq<(Seq<char>, Level, Ty)>, name: Seq<char>)
    ensures
        lookup(c, name) matches Some(p) ==> exists|i: int| 0 <= i < c.len() && #[trigger] c[i] == (name, p.0, p.1),
    decreases c.len(),
{
    if c.len() > 0 && c.last().0 != name {
        lemma_lookup(c.drop_last(), name);
        if let Some(p) = lookup(c, name) {
            let i = choose|i: int| 0 <= i < c.drop_last().len() && #[trigger] c.drop_last()[i] == (name, p.0, p.1);
            assert(c[i] == (name, p.0, p.1));
        }
    } else if c.len() > 0 {
        assert(c[c.len() - 1] == c.last());
    }
}

/// Binding one more name on top keeps a fitting stack fitting.
pub proof fn lemma_fits_push(c: Seq<(Seq<char>, Level, Ty)>, env_len: Level, tctx: Seq<Ty>, n: Seq<char>, t: Ty)
    requires
        fits(c, env_len, tctx),
        env_len < usize::MAX,
    ensures
        fits(c.push((n, env_len, t)), (env_len + 1) as Level, tctx.push(t)),
{
    let c2 = c.push((n, env_len, t));
    assert forall|i: int| 0 <= i < c2.len() implies (#[trigger] c2[i]).1 < env_len + 1 && tctx.push(t)[c2[i].1 as int]
        == c2[i].2 by {
        if i < c.len() {
            assert(c2[i] == c[i]);
        }
    }
}

/// The message of a failed unification: the first mismatch met, inside
/// function types (parameter first) and tuple types (member by member);
/// tuples of different lengths report the lengths; any other mismatch
/// reports both types.
pub open spec fn unify_err(t1: Ty, t2: Ty) -> Seq<char>
    decreases t1, 1nat, 0nat,
{
    match (t1, t2) {
        (Ty::Func(p1, r1), Ty::Func(p2, r2)) => if *p1 != *p2 {
            unify_err(*p1, *p2)
        } else {
            unify_err(*r1, *r2)
        },
        (Ty::Tuple(ts1), Ty::Tuple(ts2)) => if ts1.len() != ts2.len() {
            "Tuple length mismatch: "@ + decimal(ts1.len()) + " != "@ + decimal(ts2.len())
        } else {
            members_err(t1, ts2, ts1.len())
        },
        _ => "Unification failed: "@ + ty_text(t1) + " != "@ + ty_text(t2),
    }
}

/// The message for the first of the first `n` members of the tuple type
/// `t1` that differs from the same member of `ts2`.
pub open spec fn members_err(t1: Ty, ts2: Seq<Ty>, n: nat) -> Seq<char>
    decreases t1, 0nat, n,
{
    match t1 {
        Ty::Tuple(ts1) => if n == 0 || n > ts1.len() || n > ts2.len() {
            Seq::empty()
        } else if ts1.subrange(0, n - 1) != ts2.subrange(0, n - 1) {
            members_err(t1, ts2, (n - 1) as nat)
        } else {
            unify_err(ts1[n - 1], ts2[n - 1])
        },
        _ => Seq::empty(),
    }
}

/// The message of a failed elaboration: the first error met, in the order
/// in which `infer` works through the syntax.
pub open spec fn infer_err<N>(c: Seq<(Seq<char>, Level, Ty)>, env_len: Level, s: Syntax<N>) -> Seq<char>
    decreases s, 1nat, 0nat,
{
    match s {
        Syntax::Var(n) => "Variable not found: "@ + n@,
        Syntax::Tuple(ss) => syntaxes_err(c, env_len, ss@, ss@.len()),
        Syntax::Apply(f, a) => match syntax_ty(c, env_len, *f) {
            None => infer_err(c, env_len, *f),
            Some(Ty::Func(p, _)) => check_err(c, env_len, *a, *p),
            Some(t) => "Not a function: "@ + ty_text(t),
        },
        Syntax::Func(p, n, b) => if env_len >= usize::MAX {
            "Too many nested binders"@
        } else {
            infer_err(c.push((n@, env_len, p@)), (env_len + 1) as Level, *b)
        },
        Syntax::Let(p, n, v, b) => if env_len >= usize::MAX {
            "Too many nested binders"@
        } else if syntax_ty(c, env_len, *v) != Some(p@) {
            check_err(c, env_len, *v, p@)
        } else {
            infer_err(c.push((n@, env_len, p@)), (env_len + 1) as Level, *b)
        },
        Syntax::Alt(cond, a, b) => if syntax_ty(c, env_len, *cond) != Some(Ty::Bool) {
            check_err(c, env_len, *cond, Ty::Bool)
        } else if syntax_ty(c, env_len, *a) is None {
            infer_err(c, env_len, *a)
        } else if syntax_ty(c, env_len, *b) is None {
            infer_err(c, env_len, *b)
        } else {
            unify_err(syntax_ty(c, env_len, *a)->0, syntax_ty(c, env_len, *b)->0)
        },
        _ => Seq::empty(),
    }
}

/// The message of a failed check against `expected`: the elaboration
/// error, or a type mismatch naming both types.
pub open spec fn check_err<N>(c: Seq<(Seq<char>, Level, Ty)>, env_len: Level, s: Syntax<N>, expected: Ty) -> Seq<char>
    decreases s, 2nat, 0nat,
{
    match syntax_ty(c, env_len, s) {
        None => infer_err(c, env_len, s),
        Some(t) => "Type mismatch: "@ + ty_text(t) + " != "@ + ty_text(expected),
    }
}

/// The message for the first ill-typed one of the first `n` members.
pub open spec fn syntaxes_err<N>(c: Seq<(Seq<char>, Level, Ty)>, env_len: Level, ss: Seq<Syntax<N>>, n: nat) -> Seq<char>
    decreases ss, 0nat, n,
{
    if n == 0 || n > ss.len() {
        Seq::empty()
    } else if syntaxes_ty(c, env_len, ss, (n - 1) as nat) is None {
        syntaxes_err(c, env_len, ss, (n - 1) as nat)
    } else {
        infer_err(c, env_len, ss[n - 1])
    }
}

/// When the first `i` members are typed and member `i` is not, its error
/// is the tuple's.
pub proof fn lemma_syntaxes_err<N>(c: Seq<(Seq<char>, Level, Ty)>, env_len: Level, ss: Seq<Syntax<N>>, i: int, n: nat)
    requires
        0 <= i < n <= ss.len(),
        syntaxes_ty(c, env_len, ss, i as nat) is Some,
        syntax_ty(c, env_len, ss[i]) is None,
    ensures
        syntaxes_err(c, env_len, ss, n) == infer_err(c, env_len, ss[i]),
        syntaxes_ty(c, env_len, ss, n) is None,
    decreases n,
{
    if n > i + 1 {
        lemma_syntaxes_err(c, env_len, ss, i, (n - 1) as nat);
    }
}

/// The first differing member of two tuple types of the same length,
/// at `i`, decides the message.
pub proof fn lemma_members_err(t1: Ty, ts2: Seq<Ty>, i: int, n: nat)
    requires
        t1 is Tuple,
        t1->Tuple_0.len() == ts2.len(),
        0 <= i < n <= ts2.len(),
        t1->Tuple_0.subrange(0, i) == ts2.subrange(0, i),
        t1->Tuple_0[i] != ts2[i],
    ensures
        members_err(t1, ts2, n) == unify_err(t1->Tuple_0[i], ts2[i]),
    decreases n,
{
    let ts1 = t1->Tuple_0;
    if n > i + 1 {
        assert(ts1.subrange(0, n - 1)[i] != ts2.subrange(0, n - 1)[i]);
        lemma_members_err(t1, ts2, i, (n - 1) as nat);
    }
}

/// Unifies the two branch types of a conditional.  Types here are fully
/// known, so this is a structural comparison: it recurses into function and
/// tuple types and succeeds exactly when the two types are equal.
pub fn unify(t1: ValueType, t2: ValueType) -> (r: Result<ValueType, ElaborateError>)
    ensures
        r is Ok <==> t1@ == t2@,
        r matches Err(m) ==> m@ == unify_err(t1@, t2@),
        r is Ok ==> r->Ok_0@ == t1@,
        (t1 is Tuple && t2 is Tuple && t1->Tuple_0@.len() != t2->Tuple_0@.len()) ==> (r matches Err(m) && m@
            == "Tuple length mismatch: "@ + decimal(t1->Tuple_0@.len()) + " != "@ + decimal(t2->Tuple_0@.len())),
{
    unify_ref(&t1, &t2)
}

/// `what`, then the two types' texts separated by ` != `.
fn mismatch(what: &str, t1: &ValueType, t2: &ValueType) -> (r: String)
    ensures
        r@ == what@ + type_text(*t1) + " != "@ + type_text(*t2),
{
    let mut s = String::from_str(what);
    let a = t1.pretty_term();
    let b = t2.pretty_term();
    s.append(a.as_str());
    s.append(" != ");
    s.append(b.as_str());
    s
}

fn unify_ref(t1: &ValueType, t2: &ValueType) -> (r: Result<ValueType, ElaborateError>)
    ensures
        r is Ok <==> t1@ == t2@,
        r matches Err(m) ==> m@ == unify_err(t1@, t2@),
        r is Ok ==> r->Ok_0@ == t1@,
        (*t1 is Tuple && *t2 is Tuple && t1->Tuple_0@.len() != t2->Tuple_0@.len()) ==> (r matches Err(m) && m@
            == "Tuple length mismatch: "@ + decimal(t1->Tuple_0@.len()) + " != "@ + decimal(t2->Tuple_0@.len())),
    decreases t1,
{
    match (t1, t2) {
        (ValueType::Float, ValueType::Float) => Ok(ValueType::Float),
        (ValueType::Bool, ValueType::Bool) => Ok(ValueType::Bool),
        (ValueType::Func(lp, r1), ValueType::Func(rp, r2)) => {
            let p = match unify_ref(lp, rp) {
                Ok(p) => p,
                Err(e) => { return Err(e); },
            };
            let r = match unify_ref(r1, r2) {
                Ok(r) => r,
                Err(e) => { return Err(e); },
            };
            Ok(ValueType::Func(Box::new(p), Box::new(r)))
        },
        (ValueType::Tuple(ts1), ValueType::Tuple(ts2)) => {
            proof {
                lemma_tuple_view(*t1);
                lemma_tuple_view(*t2);
            }
            if ts1.len() != ts2.len() {
                let mut m = String::from_str("Tuple length mismatch: ");
                m.append(decimal_text(ts1.len() as u64).as_str());
                m.append(" != ");
                m.append(decimal_text(ts2.len() as u64).as_str());
                return Err(m);
            }
            let mut ts: Vec<ValueType> = Vec::new();
            let mut i: usize = 0;
            while i < ts1.len()
                invariant
                    *t1 == ValueType::Tuple(*ts1),
                    *t2 == ValueType::Tuple(*ts2),
                    ts1@.len() == ts2@.len(),
                    i <= ts1@.len(),
                    ts@.len() == i,
                    forall|j: int| 0 <= j < i ==> (#[trigger] ts@[j])@ == ts1@[j]@ && ts1@[j]@ == ts2@[j]@,
                decreases ts1@.len() - i,
            {
                proof {
                    lemma_member_decreases(*t1, i as int);
                    lemma_tuple_view(*t1);
                    lemma_tuple_view(*t2);
                }
                let u = match unify_ref(&ts1[i], &ts2[i]) {
                    Ok(u) => u,
                    Err(e) => {
                        proof {
                            assert(t1@->Tuple_0[i as int] != t2@->Tuple_0[i as int]);
                            assert forall|j: int| 0 <= j < i implies t1@->Tuple_0[j] == t2@->Tuple_0[j] by {
                                assert((ts@[j])@ == ts1@[j]@);
                            }
                            assert(t1@->Tuple_0.subrange(0, i as int) =~= t2@->Tuple_0.subrange(0, i as int));
                            lemma_members_err(t1@, t2@->Tuple_0, i as int, ts1@.len() as nat);
                        }
                        return Err(e);
                    },
                };
                ts.push(u);
                i = i + 1;
            }
            let r = ValueType::Tuple(ts);
            proof {
                lemma_tuple_view_eq(r, *t1);
                assert forall|j: int| 0 <= j < ts1@.len() implies (#[trigger] ts1@[j])@ == ts2@[j]@ by {
                    assert((ts@[j])@ == ts1@[j]@);
                }
                lemma_tuple_view_eq(*t1, *t2);
            }
            Ok(r)
        },
        _ => {
            proof {
                lemma_type_text(*t1);
                lemma_type_text(*t2);
            }
            Err(mismatch("Unification failed: ", t1, t2))
        },
    }
}

/// What elaborating `s` gives: a core term and its type exactly when the
/// syntax is well-typed, the type being the syntax's type, the term being
/// `elab` of the syntax and having that type on every environment stack
/// that fits the context.
pub open spec fn infer_ok<N>(
    c: Seq<(Seq<char>, Level, Ty)>,
    env_len: Level,
    s: Syntax<N>,
    r: Result<(Term<N>, ValueType), ElaborateError>,
) -> bool {
    &&& r is Ok <==> syntax_ty(c, env_len, s) is Some
    &&& r is Ok ==> r->Ok_0.1@ == syntax_ty(c, env_len, s)->0 && elaborates(c, env_len, r->Ok_0.0@, r->Ok_0.1@)
    &&& r is Ok ==> r->Ok_0.0@ == elab(c, env_len, s)
    &&& r matches Err(m) ==> m@ == infer_err(c, env_len, s)
}

/// The innermost binding of a name in the context.
fn find(ctx: &Ctx, name: &String) -> (r: Option<(Level, ValueType)>)
    ensures
        r is Some <==> lookup(ctx_m(ctx@), name@) is Some,
        r matches Some(p) ==> lookup(ctx_m(ctx@), name@) == Some((p.0, p.1@)),
{
    let ghost c = ctx_m(ctx@);
    let mut i: usize = ctx.len();
    proof {
        assert(c.subrange(0, i as int) =~= c);
    }
    while i > 0
        invariant
            i <= ctx@.len(),
            c == ctx_m(ctx@),
            lookup(c, name@) == lookup(c.subrange(0, i as int), name@),
        decreases i,
    {
        let ghost sub = c.subrange(0, i as int);
        proof {
            assert(sub.drop_last() =~= c.subrange(0, i - 1));
            assert(sub.last() == c[i - 1]);
        }
        if ctx[i - 1].0 == *name {
            return Some((ctx[i - 1].1, ctx[i - 1].2.copy()));
        }
        i = i - 1;
    }
    None
}

/// Infers the type of surface syntax in a context, `env_len` binders
/// deep, and elaborates it to a core term: each name becomes the distance
/// of its binding from the top of the stack (`env_len - level - 1`).
pub fn infer<N: Scalar>(syntax: Syntax<N>, ctx: Ctx, env_len: Level) -> (r: Result<(Term<N>, ValueType), ElaborateError>)
    requires
        ctx_wf(ctx_m(ctx@), env_len),
    ensures
        infer_ok(ctx_m(ctx@), env_len, syntax, r),
        syntax matches Syntax::Var(n) ==> (lookup(ctx_m(ctx@), n@) is None ==> (r matches Err(m) && m@
            == "Variable not found: "@ + n@)),
{
    let mut ctx = ctx;
    infer_ref(&syntax, &mut ctx, env_len)
}

/// Elaborates surface syntax against an expected type: it must have
/// exactly that type.
pub fn check<N: Scalar>(syntax: Syntax<N>, ctx: Ctx, expected: ValueType, env_len: Level) -> (r: Result<Term<N>, ElaborateError>)
    requires
        ctx_wf(ctx_m(ctx@), env_len),
    ensures
        r is Ok <==> syntax_ty(ctx_m(ctx@), env_len, syntax) == Some(expected@),
        r is Ok ==> elaborates(ctx_m(ctx@), env_len, r->Ok_0@, expected@),
        r is Ok ==> r->Ok_0@ == elab(ctx_m(ctx@), env_len, syntax),
        r matches Err(m) ==> m@ == check_err(ctx_m(ctx@), env_len, syntax, expected@),
{
    let mut ctx = ctx;
    check_ref(&syntax, &mut ctx, &expected, env_len)
}

fn check_ref<N: Scalar>(s: &Syntax<N>, ctx: &mut Ctx, expected: &ValueType, env_len: Level) -> (r: Result<Term<N>, ElaborateError>)
    requires
        ctx_wf(ctx_m(old(ctx)@), env_len),
    ensures
        final(ctx)@ == old(ctx)@,
        r is Ok <==> syntax_ty(ctx_m(old(ctx)@), env_len, *s) == Some(expected@),
        r is Ok ==> elaborates(ctx_m(old(ctx)@), env_len, r->Ok_0@, expected@),
        r is Ok ==> r->Ok_0@ == elab(ctx_m(old(ctx)@), env_len, *s),
        r matches Err(m) ==> m@ == check_err(ctx_m(old(ctx)@), env_len, *s, expected@),
    decreases s, 2nat,
{
    let (term, inferred) = match infer_ref(s, ctx, env_len) {
        Ok(p) => p,
        Err(e) => { return Err(e); },
    };
    if inferred.same(expected) {
        Ok(term)
    } else {
        proof {
            lemma_type_text(inferred);
            lemma_type_text(*expected);
        }
        Err(mismatch("Type mismatch: ", &inferred, expected))
    }
}

fn infer_ref<N: Scalar>(s: &Syntax<N>, ctx: &mut Ctx, env_len: Level) -> (r: Result<(Term<N>, ValueType), ElaborateError>)
    requires
        ctx_wf(ctx_m(old(ctx)@), env_len),
    ensures
        final(ctx)@ == old(ctx)@,
        infer_ok(ctx_m(old(ctx)@), env_len, *s, r),
        *s matches Syntax::Var(n) ==> (lookup(ctx_m(old(ctx)@), n@) is None ==> (r matches Err(m) && m@
            == "Variable not found: "@ + n@)),
    decreases s, 1nat,
{
    let ghost c = ctx_m(ctx@);
    let ghost ctx0 = ctx@;
    match s {
        Syntax::Float(x) => Ok((Term::Float(*x), ValueType::Float)),
        Syntax::Bool(b) => Ok((Term::Bool(*b), ValueType::Bool)),
        Syntax::Var(name) => match find(ctx, name) {
            Some((level, ty)) => {
                proof {
                    lemma_lookup(c, name@);
                }
                let t = Term::Var(env_len - level - 1);
                proof {
                    let i = choose|i: int| 0 <= i < c.len() && #[trigger] c[i] == (name@, level, ty@);
                    assert forall|tctx: Seq<Ty>| #[trigger] fits(c, env_len, tctx) implies term_ty(tctx, t@)
                        == Some(ty@) by {
                        assert(c[i].1 < env_len);
                    }
                }
                Ok((t, ty))
            },
            None => {
                let mut m = String::from_str("Variable not found: ");
                m.append(name.as_str());
                Err(m)
            },
        },
        Syntax::Lib(l) => Ok((Term::Lib(*l), l.value_type())),
        Syntax::Tuple(ss) => {
            let mut terms: Vec<Term<N>> = Vec::new();
            let mut types: Vec<ValueType> = Vec::new();
            let mut i: usize = 0;
            proof {
                lemma_syntaxes_ty(c, env_len, ss@, ss@.len());
            }
            while i < ss.len()
                invariant
                    *s == Syntax::Tuple(*ss),
                    ctx@ == ctx0,
                    old(ctx)@ == ctx0,
                    c == ctx_m(ctx0),
                    ctx_wf(c, env_len),
                    i <= ss@.len(),
                    terms@.len() == i,
                    types@.len() == i,
                    forall|j: int| 0 <= j < i ==> syntax_ty(c, env_len, #[trigger] ss@[j]) == Some(types@[j]@),
                    forall|j: int| 0 <= j < i ==> elaborates(c, env_len, (#[trigger] terms@[j])@, types@[j]@),
                    forall|j: int| 0 <= j < i ==> (#[trigger] terms@[j])@ == elab(c, env_len, ss@[j]),
                decreases ss@.len() - i,
            {
                proof {
                    assert(decreases_to!(*s => s->Tuple_0));
                    assert(decreases_to!(s->Tuple_0 => s->Tuple_0[i as int]));
                }
                let (t, ty) = match infer_ref(&ss[i], ctx, env_len) {
                    Ok(p) => p,
                    Err(e) => {
                        proof {
                            lemma_syntaxes_ty(c, env_len, ss@, ss@.len());
                            lemma_syntaxes_ty(c, env_len, ss@, i as nat);
                            lemma_syntaxes_err(c, env_len, ss@, i as int, ss@.len());
                        }
                        return Err(e);
                    },
                };
                terms.push(t);
                types.push(ty);
                i = i + 1;
            }
            let t = Term::Tuple(terms);
            let ty = ValueType::Tuple(types);
            proof {
                lemma_syntaxes_ty(c, env_len, ss@, ss@.len());
                lemma_tuple_view(ty);
                lemma_term_tuple_view(t);
                let tys = syntaxes_ty(c, env_len, ss@, ss@.len())->0;
                assert(terms_m(terms@) =~= elab(c, env_len, *s)->Tuple_0);
                assert forall|j: int| 0 <= j < tys.len() implies ty@->Tuple_0[j] == tys[j] by {
                    assert(syntax_ty(c, env_len, ss@[j]) == Some(types@[j]@));
                }
                assert(ty@->Tuple_0 =~= tys);
                assert forall|tctx: Seq<Ty>| #[trigger] fits(c, env_len, tctx) implies term_ty(tctx, t@) == Some(ty@) by {
                    let tm = terms_m(terms@);
                    assert forall|j: int| 0 <= j < tm.len() implies term_ty(tctx, #[trigger] tm[j]) == Some(tys[j]) by {
                        assert(tm[j] == terms@[j]@);
                        assert(elaborates(c, env_len, terms@[j]@, types@[j]@));
                        assert(syntax_ty(c, env_len, ss@[j]) == Some(types@[j]@));
                    }
                    lemma_terms_ty(tctx, tm, tm.len());
                    assert forall|j: int| 0 <= j < tys.len() implies terms_ty(tctx, tm, tm.len())->0[j] == tys[j] by {
                        assert(term_ty(tctx, tm[j]) == Some(tys[j]));
                    }
                    assert(terms_ty(tctx, tm, tm.len())->0 =~= tys);
                }
            }
            Ok((t, ty))
        },
        Syntax::Apply(f, a) => {
            let (ft, fty) = match infer_ref(f, ctx, env_len) {
                Ok(p) => p,
                Err(e) => { return Err(e); },
            };
            match fty {
                ValueType::Func(p, r) => {
                    let at = match check_ref(a, ctx, &p, env_len) {
                        Ok(t) => t,
                        Err(e) => { return Err(e); },
                    };
                    let t = Term::Apply(Box::new(ft), Box::new(at));
                    proof {
                        assert forall|tctx: Seq<Ty>| #[trigger] fits(c, env_len, tctx) implies term_ty(tctx, t@)
                            == Some(r@) by {
                            assert(term_ty(tctx, ft@) == Some(func_ty(p@, r@)));
                        }
                    }
                    Ok((t, *r))
                },
                _ => {
                    proof {
                        lemma_type_text(fty);
                    }
                    let mut m = String::from_str("Not a function: ");
                    let d = fty.pretty_term();
                    m.append(d.as_str());
                    Err(m)
                },
            }
        },
        Syntax::Func(p, name, body) => {
            if env_len == usize::MAX {
                return Err(String::from_str("Too many nested binders"));
            }
            let ghost c2 = c.push((name@, env_len, (**p)@));
            ctx.push((name.clone(), env_len, p.copy()));
            proof {
                assert(ctx_m(ctx@) =~= c2);
                assert forall|i: int| 0 <= i < c2.len() implies (#[trigger] c2[i]).1 < env_len + 1 by {
                    if i < c.len() {
                        assert(c2[i] == c[i]);
                    }
                }
            }
            let res = infer_ref(body, ctx, env_len + 1);
            ctx.pop();
            proof {
                assert(ctx@ =~= ctx0);
            }
            let (bt, bty) = match res {
                Ok(p) => p,
                Err(e) => { return Err(e); },
            };
            let t = Term::Func(Box::new(p.copy()), name.clone(), Box::new(bt));
            let ty = ValueType::Func(Box::new(p.copy()), Box::new(bty));
            proof {
                assert forall|tctx: Seq<Ty>| #[trigger] fits(c, env_len, tctx) implies term_ty(tctx, t@) == Some(ty@) by {
                    lemma_fits_push(c, env_len, tctx, name@, (**p)@);
                    assert(fits(c2, (env_len + 1) as Level, tctx.push((**p)@)));
                }
            }
            Ok((t, ty))
        },
        Syntax::Let(p, name, v, body) => {
            if env_len == usize::MAX {
                return Err(String::from_str("Too many nested binders"));
            }
            let vt = match check_ref(v, ctx, p, env_len) {
                Ok(t) => t,
                Err(e) => { return Err(e); },
            };
            let ghost c2 = c.push((name@, env_len, (**p)@));
            ctx.push((name.clone(), env_len, p.copy()));
            proof {
                assert(ctx_m(ctx@) =~= c2);
                assert forall|i: int| 0 <= i < c2.len() implies (#[trigger] c2[i]).1 < env_len + 1 by {
                    if i < c.len() {
                        assert(c2[i] == c[i]);
                    }
                }
            }
            let res = infer_ref(body, ctx, env_len + 1);
            ctx.pop();
            proof {
                assert(ctx@ =~= ctx0);
            }
            let (bt, bty) = match res {
                Ok(p) => p,
                Err(e) => { return Err(e); },
            };
            let t = Term::Let(Box::new(p.copy()), name.clone(), Box::new(vt), Box::new(bt));
            proof {
                assert forall|tctx: Seq<Ty>| #[trigger] fits(c, env_len, tctx) implies term_ty(tctx, t@) == Some(bty@) by {
                    lemma_fits_push(c, env_len, tctx, name@, (**p)@);
                    assert(fits(c2, (env_len + 1) as Level, tctx.push((**p)@)));
                }
            }
            Ok((t, bty))
        },
        Syntax::Alt(cond, a, b) => {
            let ct = match check_ref(cond, ctx, &ValueType::Bool, env_len) {
                Ok(t) => t,
                Err(e) => { return Err(e); },
            };
            let (at, aty) = match infer_ref(a, ctx, env_len) {
                Ok(p) => p,
                Err(e) => { return Err(e); },
            };
            let (bt, bty) = match infer_ref(b, ctx, env_len) {
                Ok(p) => p,
                Err(e) => { return Err(e); },
            };
            let ty = match unify(aty, bty) {
                Ok(ty) => ty,
                Err(e) => { return Err(e); },
            };
            let t = Term::Alt(Box::new(ct), Box::new(at), Box::new(bt));
            Ok((t, ty))
        },
    }
}

} // verus!
