use vstd::prelude::*;
use crate::lang::library::Lib;
use crate::lang::scalar::Scalar;
use crate::lang::value_type::{Ty, ValueType, ty_of, lemma_tuple_view};

verus! {

/// Distance of a variable from the top of the environment stack.
pub type Index = usize;

/// Depth in the environment stack at which a variable was bound.
pub type Level = usize;

/// Core terms: variables are de Bruijn indices and every binder carries
/// its type.  Binder names are kept for display only.
#[derive(PartialEq, Debug)]
pub enum Term<N> {
    Float(N),
    Bool(bool),
    Var(Index),
    Lib(Lib<N>),
    Tuple(Vec<Term<N>>),
    Apply(Box<Term<N>>, Box<Term<N>>),
    Func(Box<ValueType>, String, Box<Term<N>>),
    Let(Box<ValueType>, String, Box<Term<N>>, Box<Term<N>>),
    Alt(Box<Term<N>>, Box<Term<N>>, Box<Term<N>>),
}

/// The mathematical model of a term.
pub enum TermM<N> {
    Float(N),
    Bool(bool),
    Var(Index),
    Lib(Lib<N>),
    Tuple(Seq<TermM<N>>),
    Apply(Box<TermM<N>>, Box<TermM<N>>),
    Func(Ty, Seq<char>, Box<TermM<N>>),
    Let(Ty, Seq<char>, Box<TermM<N>>, Box<TermM<N>>),
    Alt(Box<TermM<N>>, Box<TermM<N>>, Box<TermM<N>>),
}

pub open spec fn term_m<N>(t: Term<N>) -> TermM<N>
    decreases t,
{
    match t {
        Term::Float(x) => TermM::Float(x),
        Term::Bool(b) => TermM::Bool(b),
        Term::Var(i) => TermM::Var(i),
        Term::Lib(l) => TermM::Lib(l),
        Term::Tuple(ts) => TermM::Tuple(
            Seq::new(ts@.len(), |i: int| if 0 <= i < ts@.len() { term_m(ts@[i]) } else { TermM::Bool(false) }),
        ),
        Term::Apply(f, a) => TermM::Apply(Box::new(term_m(*f)), Box::new(term_m(*a))),
        Term::Func(p, n, b) => TermM::Func(ty_of(*p), n@, Box::new(term_m(*b))),
        Term::Let(p, n, v, b) => TermM::Let(ty_of(*p), n@, Box::new(term_m(*v)), Box::new(term_m(*b))),
        Term::Alt(c, a, b) => TermM::Alt(Box::new(term_m(*c)), Box::new(term_m(*a)), Box::new(term_m(*b))),
    }
}

impl<N> View for Term<N> {
    type V = TermM<N>;

    open spec fn view(&self) -> TermM<N> {
        term_m(*self)
    }
}

/// The models of a vector of terms.
pub open spec fn terms_m<N>(ts: Seq<Term<N>>) -> Seq<TermM<N>> {
    Seq::new(ts.len(), |i: int| ts[i]@)
}

pub proof fn lemma_term_tuple_view<N>(t: Term<N>)
    requires
        t is Tuple,
    ensures
        t@ == TermM::Tuple(terms_m(t->Tuple_0@)),
{
    assert(t@->Tuple_0 =~= terms_m(t->Tuple_0@));
}

pub proof fn lemma_term_member_decreases<N>(t: Term<N>, i: int)
    requires
        t is Tuple,
        0 <= i < t->Tuple_0@.len(),
    ensures
        decreases_to!(t => t->Tuple_0@[i]),
{
    assert(decreases_to!(t => t->Tuple_0));
    assert(decreases_to!(t->Tuple_0 => t->Tuple_0[i]));
}

impl<N: Scalar> Term<N> {
    /// A copy of the term, equal to it in the model.
    pub fn copy(&self) -> (r: Term<N>)
        ensures
            r@ == self@,
        decreases self,
    {
        match self {
            Term::Float(x) => Term::Float(*x),
            Term::Bool(b) => Term::Bool(*b),
            Term::Var(i) => Term::Var(*i),
            Term::Lib(l) => Term::Lib(*l),
            Term::Tuple(ts) => {
                let mut out: Vec<Term<N>> = Vec::new();
                let mut i: usize = 0;
                while i < ts.len()
                    invariant
                        i <= ts@.len(),
                        *self == Term::Tuple(*ts),
                        out@.len() == i,
                        forall|j: int| 0 <= j < i ==> (#[trigger] out@[j])@ == ts@[j]@,
                    decreases ts@.len() - i,
                {
                    proof {
                        lemma_term_member_decreases(*self, i as int);
                    }
                    let c = ts[i].copy();
                    out.push(c);
                    i = i + 1;
                }
                let r = Term::Tuple(out);
                proof {
                    lemma_term_tuple_view(r);
                    lemma_term_tuple_view(*self);
                    assert(terms_m(out@) =~= terms_m(ts@));
                }
                r
            },
            Term::Apply(f, a) => Term::Apply(Box::new(f.copy()), Box::new(a.copy())),
            Term::Func(p, n, b) => Term::Func(Box::new(p.copy()), n.clone(), Box::new(b.copy())),
            Term::Let(p, n, v, b) => Term::Let(
                Box::new(p.copy()),
                n.clone(),
                Box::new(v.copy()),
                Box::new(b.copy()),
            ),
            Term::Alt(c, a, b) => Term::Alt(Box::new(c.copy()), Box::new(a.copy()), Box::new(b.copy())),
        }
    }
}

} // verus!
