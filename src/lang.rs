pub mod elaborate;
pub mod eval;
pub mod external;
pub mod laws;
pub mod library;
pub mod parse;
pub mod pretty;
pub mod quote;
pub mod resource;
pub mod scalar;
pub mod syntax;
pub mod term;
pub mod typing;
pub mod value;
pub mod value_type;

pub use elaborate::{Ctx, ElaborateError, check, infer, unify};
pub use eval::{CALL_DEPTH, eval};
pub use library::Lib;
pub use parse::{ParseError, parse};
pub use quote::{peval, peval_closure, quote, simp};
pub use resource::Resource;
pub use scalar::{CharList, Scalar};
pub use syntax::Syntax;
pub use term::{Index, Level, Term};
pub use value::{Closure, Env, EvalError, Extern, Value};
pub use value_type::ValueType;

use vstd::prelude::*;
use crate::lang::elaborate::{ctx_m, elab, syntax_ty};
use crate::lang::quote::{peval_spec, simp_spec};
use crate::lang::value::{ValueM, values_m};
use crate::lang::parse::{g_expr, lex, parses};
use crate::lang::typing::{complex_ty, func_ty};
use crate::lang::value_type::Ty;

verus! {

/// A message saying why a program could not be compiled.
pub type RunError = String;

/// The type of a spectral program: given the current frame as a function
/// from bin index to complex value, a function from bin index to the new
/// complex value.
pub open spec fn spectral_ty() -> Ty {
    func_ty(func_ty(Ty::Float, complex_ty()), func_ty(Ty::Float, complex_ty()))
}

/// `m` begins with `p`.
pub open spec fn has_prefix(m: Seq<char>, p: Seq<char>) -> bool {
    p.len() <= m.len() && m.subrange(0, p.len() as int) == p
}

/// The message of a failed compilation: an elaboration error when the
/// program does not have the target type, a normalization error otherwise.
pub open spec fn failure_reported<N: Scalar>(syntax: Syntax<N>, target: Ty, m: Seq<char>) -> bool {
    &&& syntax_ty(Seq::empty(), 0, syntax) != Some(target) ==> has_prefix(m, "Elaborate error: "@)
    &&& syntax_ty(Seq::empty(), 0, syntax) == Some(target) ==> has_prefix(m, "Normalize error: "@)
}

/// A program compiles against a target type when it has that type and
/// its normalization, and the evaluation ahead of time of the normalized
/// term, both succeed.
pub open spec fn compiles<N: Scalar>(syntax: Syntax<N>, target: Ty) -> bool {
    &&& syntax_ty(Seq::empty(), 0, syntax) == Some(target)
    &&& simp_spec(elab(Seq::empty(), 0, syntax), CALL_DEPTH) is Ok
    &&& peval_spec(simp_spec(elab(Seq::empty(), 0, syntax), CALL_DEPTH)->Ok_0, Seq::empty(), CALL_DEPTH) is Ok
}

/// The value a compiled program stands for: its normalized term,
/// evaluated ahead of time in the empty environment.
pub open spec fn compiled<N: Scalar>(syntax: Syntax<N>) -> ValueM<N> {
    peval_spec(simp_spec(elab(Seq::empty(), 0, syntax), CALL_DEPTH)->Ok_0, Seq::empty(), CALL_DEPTH)->Ok_0
}

/// The type of a per-bin program: from a bin index to the bin's new
/// complex value, reading the current frame through the spectral-bin
/// reader of the resource.
pub open spec fn per_bin_ty() -> Ty {
    func_ty(Ty::Float, complex_ty())
}

/// The type that `run` asks of a program: `Float -> (Float, Float)`; see
/// `per_bin_ty`.
pub fn target_type() -> (t: ValueType)
    ensures
        t@ == per_bin_ty(),
{
    library::func_type(ValueType::Float, library::complex_type())
}

/// The type of a spectral program that takes the frame as an argument;
/// see `spectral_ty`.  `run_with` compiles such programs.
pub fn spectral_type() -> (t: ValueType)
    ensures
        t@ == spectral_ty(),
{
    let bin = library::func_type(ValueType::Float, library::complex_type());
    let out = library::func_type(ValueType::Float, library::complex_type());
    library::func_type(bin, out)
}

/// Compiles a parsed program that must have type `target`: elaborates it,
/// normalizes the result, and evaluates that once, ahead of time, to the
/// value that is then applied per call.
pub fn compile<N: Scalar>(syntax: Syntax<N>, target: &ValueType) -> (r: Result<Value<N>, RunError>)
    ensures
        r is Ok <==> compiles(syntax, target@),
        r matches Ok(v) ==> v@ == compiled(syntax),
        r matches Err(m) ==> failure_reported(syntax, target@, m@),
{
    let ctx: Ctx = Vec::new();
    proof {
        assert(ctx_m(ctx@) =~= Seq::empty());
    }
    let ghost s = syntax;
    let term = match check(syntax, ctx, target.copy(), 0) {
        Ok(t) => t,
        Err(e) => {
            let mut m = String::from_str("Elaborate error: ");
            let ghost m0 = m@;
            m.append(e.as_str());
            proof {
                assert(m@.subrange(0, m0.len() as int) =~= m0);
            }
            return Err(m);
        },
    };
    let simple = match simp(&term, CALL_DEPTH) {
        Ok(t) => t,
        Err(e) => {
            let mut m = String::from_str("Normalize error: ");
            let ghost m0 = m@;
            m.append(e.message().as_str());
            proof {
                assert(m@.subrange(0, m0.len() as int) =~= m0);
            }
            return Err(m);
        },
    };
    let mut env: Env<N> = Vec::new();
    proof {
        assert(values_m(env@) =~= Seq::<ValueM<N>>::empty());
    }
    match peval(&simple, &mut env, CALL_DEPTH) {
        Ok(v) => Ok(v),
        Err(e) => {
            let mut m = String::from_str("Normalize error: ");
            let ghost m0 = m@;
            m.append(e.message().as_str());
            proof {
                assert(m@.subrange(0, m0.len() as int) =~= m0);
            }
            Err(m)
        },
    }
}

/// Parses and compiles a program that must have the type `target`.
pub fn run_with<N: Scalar>(code: &str, target: &ValueType) -> (r: Result<Value<N>, RunError>)
    ensures
        !parses::<N>(code@) ==> (r matches Err(m) && has_prefix(m@, "Parse error: "@)),
        r matches Ok(v) ==> exists|s: Syntax<N>| #[trigger] parsed_as(code@, s) && compiles(s, target@) && v@ == compiled(s),
        parses::<N>(code@) ==> (r matches Err(m) ==> exists|s: Syntax<N>| #[trigger] parsed_as(code@, s) && !compiles(s, target@)
            && failure_reported(s, target@, m@)),
{
    let syntax = match parse(code) {
        Ok(s) => s,
        Err(e) => {
            let mut m = String::from_str("Parse error: ");
            let ghost m0 = m@;
            m.append(e.as_str());
            proof {
                assert(m@.subrange(0, m0.len() as int) =~= m0);
            }
            return Err(m);
        },
    };
    let ghost s = syntax;
    let r = compile(syntax, target);
    proof {
        assert(parsed_as(code@, s));
    }
    r
}

/// `s` is what the grammar derives from all the tokens of `code`; each
/// number literal holds the number type's reading of its text.
pub open spec fn parsed_as<N: Scalar>(code: Seq<char>, s: Syntax<N>) -> bool {
    &&& lex(code) is Some
    &&& g_expr::<N>(code, lex(code)->0, 0) == Some((s@, lex(code)->0.len() as int))
}

/// Parses and compiles a per-bin program (see `target_type`).
pub fn run<N: Scalar>(code: &str) -> (r: Result<Value<N>, RunError>)
    ensures
        !parses::<N>(code@) ==> (r matches Err(m) && has_prefix(m@, "Parse error: "@)),
        r matches Ok(v) ==> exists|s: Syntax<N>| #[trigger] parsed_as(code@, s) && compiles(s, per_bin_ty()) && v@
            == compiled(s),
        parses::<N>(code@) ==> (r matches Err(m) ==> exists|s: Syntax<N>| #[trigger] parsed_as(code@, s) && !compiles(
            s,
            per_bin_ty(),
        ) && failure_reported(s, per_bin_ty(), m@)),
{
    let target = target_type();
    run_with(code, &target)
}

} // verus!
