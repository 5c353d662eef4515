use vstd::prelude::*;
use crate::lang::library::Lib;
use crate::lang::value_type::{Ty, ValueType, ty_of};

verus! {

/// Surface syntax, as parsed: variables are names.
#[derive(PartialEq, Debug)]
pub enum Syntax<N> {
    Float(N),
    Bool(bool),
    Var(String),
    Lib(Lib<N>),
    Tuple(Vec<Syntax<N>>),
    Apply(Box<Syntax<N>>, Box<Syntax<N>>),
    Func(Box<ValueType>, String, Box<Syntax<N>>),
    Let(Box<ValueType>, String, Box<Syntax<N>>, Box<Syntax<N>>),
    Alt(Box<Syntax<N>>, Box<Syntax<N>>, Box<Syntax<N>>),
}

/// The model of surface syntax.
pub enum SyntaxM<N> {
    Float(N),
    Bool(bool),
    Var(Seq<char>),
    Lib(Lib<N>),
    Tuple(Seq<SyntaxM<N>>),
    Apply(Box<SyntaxM<N>>, Box<SyntaxM<N>>),
    Func(Ty, Seq<char>, Box<SyntaxM<N>>),
    Let(Ty, Seq<char>, Box<SyntaxM<N>>, Box<SyntaxM<N>>),
    Alt(Box<SyntaxM<N>>, Box<SyntaxM<N>>, Box<SyntaxM<N>>),
}

pub open spec fn syntax_m<N>(s: Syntax<N>) -> SyntaxM<N>
    decreases s, 1nat,
{
    match s {
        Syntax::Float(x) => SyntaxM::Float(x),
        Syntax::Bool(b) => SyntaxM::Bool(b),
        Syntax::Var(n) => SyntaxM::Var(n@),
        Syntax::Lib(l) => SyntaxM::Lib(l),
        Syntax::Tuple(ss) => SyntaxM::Tuple(syntaxes_m(ss@)),
        Syntax::Apply(f, a) => SyntaxM::Apply(Box::new(syntax_m(*f)), Box::new(syntax_m(*a))),
        Syntax::Func(p, n, b) => SyntaxM::Func(ty_of(*p), n@, Box::new(syntax_m(*b))),
        Syntax::Let(p, n, v, b) => SyntaxM::Let(ty_of(*p), n@, Box::new(syntax_m(*v)), Box::new(syntax_m(*b))),
        Syntax::Alt(c, a, b) => SyntaxM::Alt(Box::new(syntax_m(*c)), Box::new(syntax_m(*a)), Box::new(syntax_m(*b))),
    }
}

/// The models of a sequence of syntax trees.
pub open spec fn syntaxes_m<N>(ss: Seq<Syntax<N>>) -> Seq<SyntaxM<N>>
    decreases ss, 0nat,
{
    Seq::new(ss.len(), |i: int| if 0 <= i < ss.len() { syntax_m(ss[i]) } else { SyntaxM::Bool(false) })
}

impl<N> View for Syntax<N> {
    type V = SyntaxM<N>;

    open spec fn view(&self) -> SyntaxM<N> {
        syntax_m(*self)
    }
}

} // verus!
