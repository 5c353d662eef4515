use vstd::prelude::*;
use crate::lang::library::Lib;
use crate::lang::scalar::{Scalar, list_seq};
use crate::lang::value_type::type_text;
use crate::lang::term::{Term, TermM, lemma_term_member_decreases};
use crate::lang::value::{Value, ValueM, lemma_value_member_decreases};

verus! {

/// The name of a built-in, as written in programs.
pub open spec fn lib_name<N>(l: Lib<N>) -> Seq<char> {
    match l {
        Lib::Fft => "fft"@,
        Lib::Beat => "beat"@,
        Lib::Sec => "sec"@,
        Lib::Add | Lib::Add1(_) | Lib::AddI(_) => "add"@,
        Lib::Sub | Lib::Sub1(_) | Lib::SubI(_) => "sub"@,
        Lib::Mul | Lib::Mul1(_) | Lib::MulI(_) => "mul"@,
        Lib::Div | Lib::Div1(_) | Lib::DivI(_) => "div"@,
        Lib::Mod | Lib::Mod1(_) | Lib::ModI(_) => "mod"@,
        Lib::Sin => "sin"@,
        Lib::Cos => "cos"@,
        Lib::Re => "re"@,
        Lib::Im => "im"@,
        Lib::Norm => "norm"@,
        Lib::Angle => "angle"@,
        Lib::Polar => "polar"@,
        Lib::Lt | Lib::Lt1(_) | Lib::LtI(_) => "lt"@,
        Lib::Le | Lib::Le1(_) | Lib::LeI(_) => "le"@,
        Lib::Gt | Lib::Gt1(_) | Lib::GtI(_) => "gt"@,
        Lib::Ge | Lib::Ge1(_) | Lib::GeI(_) => "ge"@,
    }
}

/// Whether the built-in carries a captured first operand.
pub open spec fn lib_is_curried<N>(l: Lib<N>) -> bool {
    match l {
        Lib::Add1(_) | Lib::Sub1(_) | Lib::Mul1(_) | Lib::Div1(_) | Lib::Mod1(_) | Lib::Lt1(_) | Lib::Le1(_)
        | Lib::Gt1(_) | Lib::Ge1(_) | Lib::AddI(_) | Lib::SubI(_) | Lib::MulI(_) | Lib::DivI(_) | Lib::ModI(_)
        | Lib::LtI(_) | Lib::LeI(_) | Lib::GtI(_) | Lib::GeI(_) => true,
        _ => false,
    }
}

/// The text of a built-in: its name, then its captured operand in
/// parentheses when it has one (a number as the number type writes it, an
/// integer in decimal).
pub open spec fn lib_text<N: Scalar>(l: Lib<N>) -> Seq<char> {
    match l {
        Lib::Add1(x) | Lib::Sub1(x) | Lib::Mul1(x) | Lib::Div1(x) | Lib::Mod1(x) | Lib::Lt1(x) | Lib::Le1(x)
        | Lib::Gt1(x) | Lib::Ge1(x) => lib_name(l) + "("@ + list_seq(x.text_spec()) + ")"@,
        Lib::AddI(i) | Lib::SubI(i) | Lib::MulI(i) | Lib::DivI(i) | Lib::ModI(i) | Lib::LtI(i) | Lib::LeI(i)
        | Lib::GtI(i) | Lib::GeI(i) => lib_name(l) + "("@ + signed_decimal(i as int) + ")"@,
        _ => lib_name(l),
    }
}

/// The text of a term: `f(a)` for an application (the function as an
/// operand), `(x: T) => b`, `let x: T = v in b`, `if c then a else b`,
/// `(a, b)`, numbers as the number type writes them, variables by their
/// index, built-ins by `lib_text`.
pub open spec fn term_text<N: Scalar>(t: Term<N>) -> Seq<char>
    decreases t, 1nat, 0nat,
{
    match t {
        Term::Float(x) => list_seq(x.text_spec()),
        Term::Bool(b) => if b { "true"@ } else { "false"@ },
        Term::Var(i) => decimal(i as nat),
        Term::Lib(l) => lib_text(l),
        Term::Tuple(ts) => "("@ + term_elems_text(t, ts@.len() as nat) + ")"@,
        Term::Apply(f, a) => term_atom_text(*f) + "("@ + term_text(*a) + ")"@,
        Term::Func(p, n, b) => "("@ + n@ + ": "@ + type_text(*p) + ") => "@ + term_text(*b),
        Term::Let(p, n, v, b) => "let "@ + n@ + ": "@ + type_text(*p) + " = "@ + term_text(*v) + " in "@ + term_text(*b),
        Term::Alt(c, a, b) => "if "@ + term_text(*c) + " then "@ + term_text(*a) + " else "@ + term_text(*b),
    }
}

/// The text of a term as an operand: a function is parenthesised.
pub open spec fn term_atom_text<N: Scalar>(t: Term<N>) -> Seq<char>
    decreases t, 2nat, 0nat,
{
    match t {
        Term::Func(_, _, _) => "("@ + term_text(t) + ")"@,
        _ => term_text(t),
    }
}

/// The first `n` members of a tuple term, separated by `", "`.
pub open spec fn term_elems_text<N: Scalar>(t: Term<N>, n: nat) -> Seq<char>
    decreases t, 0nat, n,
{
    match t {
        Term::Tuple(ts) => if n == 0 || n > ts@.len() {
            Seq::empty()
        } else if n == 1 {
            term_text(ts@[0])
        } else {
            term_elems_text(t, (n - 1) as nat) + ", "@ + term_text(ts@[n - 1])
        },
        _ => Seq::empty(),
    }
}

/// The decimal digits of a natural number.
pub open spec fn decimal(n: nat) -> Seq<char>
    decreases n,
{
    if n < 10 {
        seq![digit_char(n)]
    } else {
        decimal(n / 10).push(digit_char(n % 10))
    }
}

pub open spec fn digit_char(d: nat) -> char {
    if d == 0 { '0' } else if d == 1 { '1' } else if d == 2 { '2' } else if d == 3 { '3' } else if d == 4 { '4' }
    else if d == 5 { '5' } else if d == 6 { '6' } else if d == 7 { '7' } else if d == 8 { '8' } else { '9' }
}

/// A signed integer in decimal, with a leading `-` when negative.
pub open spec fn signed_decimal(i: int) -> Seq<char> {
    if i < 0 { seq!['-'] + decimal((-i) as nat) } else { decimal(i as nat) }
}

fn digit_str(d: u64) -> (r: &'static str)
    requires
        d < 10,
    ensures
        r@ == seq![digit_char(d as nat)],
{
    proof {
        reveal_strlit("0");
        reveal_strlit("1");
        reveal_strlit("2");
        reveal_strlit("3");
        reveal_strlit("4");
        reveal_strlit("5");
        reveal_strlit("6");
        reveal_strlit("7");
        reveal_strlit("8");
        reveal_strlit("9");
    }
    if d == 0 { "0" } else if d == 1 { "1" } else if d == 2 { "2" } else if d == 3 { "3" } else if d == 4 { "4" }
    else if d == 5 { "5" } else if d == 6 { "6" } else if d == 7 { "7" } else if d == 8 { "8" } else { "9" }
}

/// The decimal digits of a number; see `decimal`.
pub fn decimal_text(n: u64) -> (r: String)
    ensures
        r@ == decimal(n as nat),
    decreases n,
{
    if n < 10 {
        String::from_str(digit_str(n))
    } else {
        let mut s = decimal_text(n / 10);
        s.append(digit_str(n % 10));
        s
    }
}

/// A signed integer in decimal; see `signed_decimal`.
pub fn signed_text(i: i32) -> (r: String)
    ensures
        r@ == signed_decimal(i as int),
{
    if i < 0 {
        let m: u64 = (0 - (i as i64)) as u64;
        let mut s = String::from_str("-");
        proof {
            reveal_strlit("-");
        }
        let d = decimal_text(m);
        s.append(d.as_str());
        s
    } else {
        decimal_text(i as u64)
    }
}

impl<N: Scalar> Lib<N> {
    /// The built-in as written: its name, followed by its captured operand
    /// in parentheses when it has one.
    pub fn text(&self) -> (r: String)
        ensures
            r@ == lib_text(*self),
            !lib_is_curried(*self) ==> r@ == lib_name(*self),
            lib_is_curried(*self) ==> r@.len() > lib_name(*self).len() + 1 && r@.subrange(0, lib_name(*self).len() as int + 1)
                == lib_name(*self) + "("@ && r@.last() == ')',
    {
        let name = match self {
            Lib::Fft => "fft",
            Lib::Beat => "beat",
            Lib::Sec => "sec",
            Lib::Add | Lib::Add1(_) | Lib::AddI(_) => "add",
            Lib::Sub | Lib::Sub1(_) | Lib::SubI(_) => "sub",
            Lib::Mul | Lib::Mul1(_) | Lib::MulI(_) => "mul",
            Lib::Div | Lib::Div1(_) | Lib::DivI(_) => "div",
            Lib::Mod | Lib::Mod1(_) | Lib::ModI(_) => "mod",
            Lib::Sin => "sin",
            Lib::Cos => "cos",
            Lib::Re => "re",
            Lib::Im => "im",
            Lib::Norm => "norm",
            Lib::Angle => "angle",
            Lib::Polar => "polar",
            Lib::Lt | Lib::Lt1(_) | Lib::LtI(_) => "lt",
            Lib::Le | Lib::Le1(_) | Lib::LeI(_) => "le",
            Lib::Gt | Lib::Gt1(_) | Lib::GtI(_) => "gt",
            Lib::Ge | Lib::Ge1(_) | Lib::GeI(_) => "ge",
        };
        let operand = match self {
            Lib::Add1(x) | Lib::Sub1(x) | Lib::Mul1(x) | Lib::Div1(x) | Lib::Mod1(x) | Lib::Lt1(x) | Lib::Le1(x)
            | Lib::Gt1(x) | Lib::Ge1(x) => Some(x.text()),
            Lib::AddI(i) | Lib::SubI(i) | Lib::MulI(i) | Lib::DivI(i) | Lib::ModI(i) | Lib::LtI(i) | Lib::LeI(i)
            | Lib::GtI(i) | Lib::GeI(i) => Some(signed_text(*i)),
            _ => None,
        };
        let mut s = String::from_str(name);
        match operand {
            Some(o) => {
                s.append("(");
                s.append(o.as_str());
                s.append(")");
                proof {
                    reveal_strlit("(");
                    reveal_strlit(")");
                    assert(s@.subrange(0, lib_name(*self).len() as int + 1) =~= lib_name(*self) + "("@);
                }
                s
            },
            None => s,
        }
    }
}

/// The text of a term whose parts are printed as in programs: `f(a)`,
/// `(x: T) => b`, `let x: T = v in b`, `if c then a else b`, `(a, b)`,
/// numbers by the number type, variables by their index.
impl<N: Scalar> Term<N> {
    pub fn pretty_term(&self) -> (r: String)
        ensures
            r@ == term_text(*self),
            self@ matches TermM::Bool(b) ==> r@ == if b { "true"@ } else { "false"@ },
            self@ matches TermM::Var(i) ==> r@ == decimal(i as nat),
            self@ matches TermM::Lib(l) ==> (!lib_is_curried(l) ==> r@ == lib_name(l)),
        decreases self, 1nat,
    {
        match self {
            Term::Float(x) => x.text(),
            Term::Bool(b) => String::from_str(if *b { "true" } else { "false" }),
            Term::Var(i) => decimal_text(*i as u64),
            Term::Lib(l) => l.text(),
            Term::Tuple(ts) => {
                let mut s = String::from_str("(");
                let mut i: usize = 0;
                while i < ts.len()
                    invariant
                        *self == Term::Tuple(*ts),
                        i <= ts@.len(),
                        s@ == "("@ + term_elems_text(*self, i as nat),
                    decreases ts@.len() - i,
                {
                    if i > 0 {
                        s.append(", ");
                    }
                    proof {
                        lemma_term_member_decreases(*self, i as int);
                    }
                    let e = ts[i].pretty_term();
                    s.append(e.as_str());
                    i = i + 1;
                    proof {
                        assert(s@ =~= "("@ + term_elems_text(*self, i as nat));
                    }
                }
                s.append(")");
                s
            },
            Term::Apply(f, a) => {
                let mut s = f.pretty_atom();
                s.append("(");
                s.append(a.pretty_term().as_str());
                s.append(")");
                s
            },
            Term::Func(p, name, body) => {
                let mut s = String::from_str("(");
                s.append(name.as_str());
                s.append(": ");
                s.append(p.pretty_term().as_str());
                s.append(") => ");
                s.append(body.pretty_term().as_str());
                s
            },
            Term::Let(p, name, v, body) => {
                let mut s = String::from_str("let ");
                s.append(name.as_str());
                s.append(": ");
                s.append(p.pretty_term().as_str());
                s.append(" = ");
                s.append(v.pretty_term().as_str());
                s.append(" in ");
                s.append(body.pretty_term().as_str());
                s
            },
            Term::Alt(c, a, b) => {
                let mut s = String::from_str("if ");
                s.append(c.pretty_term().as_str());
                s.append(" then ");
                s.append(a.pretty_term().as_str());
                s.append(" else ");
                s.append(b.pretty_term().as_str());
                s
            },
        }
    }

    /// The text of the term as an operand: a function is parenthesised.
    pub fn pretty_atom(&self) -> (r: String)
        ensures
            r@ == term_atom_text(*self),
            self@ matches TermM::Bool(b) ==> r@ == if b { "true"@ } else { "false"@ },
            self@ matches TermM::Var(i) ==> r@ == decimal(i as nat),
            self is Func ==> r@.len() >= 2 && r@[0] == '(' && r@.last() == ')',
        decreases self, 2nat,
    {
        match self {
            Term::Func(_, _, _) => {
                let mut s = String::from_str("(");
                s.append(self.pretty_term().as_str());
                s.append(")");
                proof {
                    reveal_strlit("(");
                    reveal_strlit(")");
                }
                s
            },
            _ => self.pretty_term(),
        }
    }
}

impl<N: Scalar> Value<N> {
    /// The text of a value: numbers, booleans and built-ins as in programs,
    /// a parameter not yet supplied as `var_` and its level, a tuple as
    /// `(a, b)`, a stuck application as `f(a, b)`, a closure as its
    /// parameter and body, a pending choice as a conditional.
    pub fn pretty_term(&self) -> (r: String)
        ensures
            self@ matches ValueM::Int(i) ==> r@ == signed_decimal(i as int),
            self@ matches ValueM::Bool(b) ==> r@ == if b { "true"@ } else { "false"@ },
            self@ matches ValueM::Var(l) ==> r@ == "var_"@ + decimal(l as nat),
            self@ matches ValueM::Lib(l) ==> (!lib_is_curried(l) ==> r@ == lib_name(l)),
        decreases self, 1nat,
    {
        match self {
            Value::Int(i) => signed_text(*i),
            Value::Float(x) => x.text(),
            Value::Bool(b) => String::from_str(if *b { "true" } else { "false" }),
            Value::Lib(l) => l.text(),
            Value::Var(l) => {
                let mut s = String::from_str("var_");
                s.append(decimal_text(*l as u64).as_str());
                s
            },
            Value::Extern(_) => String::from_str("<array>"),
            Value::Tuple(xs) => {
                let mut s = String::from_str("(");
                let mut i: usize = 0;
                while i < xs.len()
                    invariant
                        *self == Value::Tuple(*xs),
                        i <= xs@.len(),
                    decreases xs@.len() - i,
                {
                    if i > 0 {
                        s.append(", ");
                    }
                    proof {
                        lemma_value_member_decreases(*self, i as int);
                    }
                    let e = xs[i].pretty_term();
                    s.append(e.as_str());
                    i = i + 1;
                }
                s.append(")");
                s
            },
            Value::Apply(f, args) => {
                let mut s = f.pretty_atom();
                s.append("(");
                let mut i: usize = 0;
                while i < args.len()
                    invariant
                        *self == Value::Apply(*f, *args),
                        i <= args@.len(),
                    decreases args@.len() - i,
                {
                    if i > 0 {
                        s.append(", ");
                    }
                    proof {
                        assert(decreases_to!(*self => self->Apply_1));
                        assert(decreases_to!(self->Apply_1 => self->Apply_1[i as int]));
                    }
                    let e = args[i].pretty_term();
                    s.append(e.as_str());
                    i = i + 1;
                }
                s.append(")");
                s
            },
            Value::Func(p, c) => {
                let mut s = String::from_str("(");
                s.append(c.2.as_str());
                s.append(": ");
                s.append(p.pretty_term().as_str());
                s.append(") => ");
                s.append(c.0.pretty_term().as_str());
                s
            },
            Value::Alt(c, a, b) => {
                let mut s = String::from_str("if ");
                s.append(c.pretty_term().as_str());
                s.append(" then ");
                s.append(a.pretty_term().as_str());
                s.append(" else ");
                s.append(b.pretty_term().as_str());
                s
            },
        }
    }

    /// The text of the value as an operand: a closure is parenthesised.
    pub fn pretty_atom(&self) -> (r: String)
        ensures
            self@ matches ValueM::Int(i) ==> r@ == signed_decimal(i as int),
            self@ matches ValueM::Var(l) ==> r@ == "var_"@ + decimal(l as nat),
            self is Func ==> r@.len() >= 2 && r@[0] == '(' && r@.last() == ')',
        decreases self, 2nat,
    {
        match self {
            Value::Func(_, _) => {
                let mut s = String::from_str("(");
                s.append(self.pretty_term().as_str());
                s.append(")");
                proof {
                    reveal_strlit("(");
                    reveal_strlit(")");
                }
                s
            },
            _ => self.pretty_term(),
        }
    }
}

} // verus!
