use vstd::prelude::*;
use crate::lang::library::Lib;
use crate::lang::pretty::decimal_text;
use crate::lang::scalar::{Scalar, char_list};
use crate::lang::syntax::{Syntax, SyntaxM, syntax_m, syntaxes_m};
use crate::lang::value_type::{Ty, ValueType, lemma_tuple_view};

verus! {

/// A message saying where and why the text could not be parsed.
pub type ParseError = String;

pub open spec fn is_digit(c: char) -> bool {
    '0' <= c <= '9'
}

pub open spec fn is_ident_start(c: char) -> bool {
    ('a' <= c <= 'z') || ('A' <= c <= 'Z') || c == '_'
}

pub open spec fn is_ident_char(c: char) -> bool {
    is_ident_start(c) || is_digit(c)
}

pub open spec fn is_space(c: char) -> bool {
    c == ' ' || c == '\t' || c == '\n' || c == '\r'
}

/// The characters that may appear in program text.
pub open spec fn is_program_char(c: char) -> bool {
    is_space(c) || is_ident_char(c) || c == '(' || c == ')' || c == ',' || c == ':' || c == '.' || c == '=' || c
        == '+' || c == '-' || c == '*' || c == '/' || c == '<' || c == '>'
}

/// The kinds of token.
#[derive(Clone, Copy, PartialEq, Eq, Debug, Structural)]
pub enum TokKind {
    /// Digits, optionally followed by a point and more digits.
    Num,
    /// A letter or underscore, then letters, digits and underscores.
    Ident,
    LParen,
    RParen,
    Comma,
    Colon,
    Dot,
    /// `->`
    Arrow,
    /// `=>`
    FatArrow,
    Eq,
    Plus,
    Minus,
    Star,
    Slash,
    Lt,
    Le,
    Gt,
    Ge,
}

/// A token and the character positions `start..end` it spans.
#[derive(Clone, Copy, PartialEq, Eq, Debug, Structural)]
pub struct Token {
    pub kind: TokKind,
    pub start: usize,
    pub end: usize,
}

/// The tokens of a text lie in it, in order, without overlap; names and
/// numbers span exactly the characters of their class.
pub open spec fn tokens_wf(cs: Seq<char>, toks: Seq<Token>) -> bool {
    &&& forall|i: int| 0 <= i < toks.len() ==> #[trigger] toks[i].start < toks[i].end <= cs.len()
    &&& forall|i: int, j: int| 0 <= i < j < toks.len() ==> #[trigger] toks[i].end <= #[trigger] toks[j].start
    &&& forall|i: int, k: int|
        0 <= i < toks.len() && (#[trigger] toks[i]).kind == TokKind::Ident && toks[i].start <= k < toks[i].end
            ==> is_ident_char(#[trigger] cs[k])
    &&& forall|i: int| 0 <= i < toks.len() && (#[trigger] toks[i]).kind == TokKind::Num ==> is_digit(cs[toks[i].start as int])
}

fn digit(c: char) -> (r: bool)
    ensures
        r == is_digit(c),
{
    '0' <= c && c <= '9'
}

fn ident_start(c: char) -> (r: bool)
    ensures
        r == is_ident_start(c),
{
    ('a' <= c && c <= 'z') || ('A' <= c && c <= 'Z') || c == '_'
}

fn ident_char(c: char) -> (r: bool)
    ensures
        r == is_ident_char(c),
{
    ident_start(c) || digit(c)
}

/// The characters of a text.
fn chars_of(s: &str) -> (r: Vec<char>)
    ensures
        r@ == s@,
{
    let n = s.unicode_len();
    let mut out: Vec<char> = Vec::new();
    let mut i: usize = 0;
    while i < n
        invariant
            n == s@.len(),
            i <= n,
            out@ == s@.subrange(0, i as int),
        decreases n - i,
    {
        out.push(s.get_char(i));
        i = i + 1;
        proof {
            assert(out@ =~= s@.subrange(0, i as int));
        }
    }
    proof {
        assert(out@ =~= s@);
    }
    out
}

fn error_at(msg: &str, pos: usize) -> String {
    let mut m = String::from_str(msg);
    m.append(" (at token ");
    m.append(decimal_text(pos as u64).as_str());
    m.append(")");
    m
}

/// The end of the run of digits starting at `i`.
pub open spec fn scan_digits(cs: Seq<char>, i: int) -> int
    decreases cs.len() - i,
{
    if 0 <= i < cs.len() && is_digit(cs[i]) {
        scan_digits(cs, i + 1)
    } else {
        i
    }
}

/// The end of the run of name characters starting at `i`.
pub open spec fn scan_ident(cs: Seq<char>, i: int) -> int
    decreases cs.len() - i,
{
    if 0 <= i < cs.len() && is_ident_char(cs[i]) {
        scan_ident(cs, i + 1)
    } else {
        i
    }
}

/// The end of the number starting at `i`: digits, then a point and
/// digits if a digit follows the point.
pub open spec fn num_end(cs: Seq<char>, i: int) -> int {
    let j = scan_digits(cs, i);
    if j < cs.len() && j + 1 < cs.len() && cs[j] == '.' && is_digit(cs[j + 1]) {
        scan_digits(cs, j + 1)
    } else {
        j
    }
}

/// The punctuation token at `i` (two-character ones first), and its end.
pub open spec fn sym_token(cs: Seq<char>, i: int) -> Option<(TokKind, int)> {
    let c = cs[i];
    let next = if i + 1 < cs.len() { cs[i + 1] } else { ' ' };
    if c == '-' && next == '>' { Some((TokKind::Arrow, i + 2)) }
    else if c == '=' && next == '>' { Some((TokKind::FatArrow, i + 2)) }
    else if c == '<' && next == '=' { Some((TokKind::Le, i + 2)) }
    else if c == '>' && next == '=' { Some((TokKind::Ge, i + 2)) }
    else if c == '(' { Some((TokKind::LParen, i + 1)) }
    else if c == ')' { Some((TokKind::RParen, i + 1)) }
    else if c == ',' { Some((TokKind::Comma, i + 1)) }
    else if c == ':' { Some((TokKind::Colon, i + 1)) }
    else if c == '.' { Some((TokKind::Dot, i + 1)) }
    else if c == '=' { Some((TokKind::Eq, i + 1)) }
    else if c == '+' { Some((TokKind::Plus, i + 1)) }
    else if c == '-' { Some((TokKind::Minus, i + 1)) }
    else if c == '*' { Some((TokKind::Star, i + 1)) }
    else if c == '/' { Some((TokKind::Slash, i + 1)) }
    else if c == '<' { Some((TokKind::Lt, i + 1)) }
    else if c == '>' { Some((TokKind::Gt, i + 1)) }
    else { None }
}

/// The tokens of the text from `i` on, after the tokens `acc`: white
/// space is skipped, a number or a name takes the longest run, and any
/// other character must start a punctuation token.
pub open spec fn lex_from(cs: Seq<char>, i: int, acc: Seq<Token>) -> Option<Seq<Token>>
    decreases cs.len() - i,
{
    if i < 0 || i >= cs.len() {
        Some(acc)
    } else if is_space(cs[i]) {
        lex_from(cs, i + 1, acc)
    } else if is_digit(cs[i]) {
        let e = num_end(cs, i);
        if i < e <= cs.len() {
            lex_from(cs, e, acc.push(Token { kind: TokKind::Num, start: i as usize, end: e as usize }))
        } else {
            None
        }
    } else if is_ident_start(cs[i]) {
        let e = scan_ident(cs, i + 1);
        if i < e <= cs.len() {
            lex_from(cs, e, acc.push(Token { kind: TokKind::Ident, start: i as usize, end: e as usize }))
        } else {
            None
        }
    } else {
        match sym_token(cs, i) {
            Some((k, e)) => if i < e <= cs.len() {
                lex_from(cs, e, acc.push(Token { kind: k, start: i as usize, end: e as usize }))
            } else {
                None
            },
            None => None,
        }
    }
}

/// The tokens of a text, or `None` when it holds a character that starts
/// no token.
pub open spec fn lex(cs: Seq<char>) -> Option<Seq<Token>> {
    lex_from(cs, 0, Seq::empty())
}

/// Splits a text into tokens, skipping white space; see `lex`.
pub fn tokenize(cs: &Vec<char>) -> (r: Result<Vec<Token>, ParseError>)
    ensures
        r matches Ok(toks) ==> tokens_wf(cs@, toks@),
        r is Ok <==> forall|k: int| 0 <= k < cs@.len() ==> is_program_char(#[trigger] cs@[k]),
        r is Ok <==> lex(cs@) is Some,
        r matches Ok(toks) ==> lex(cs@) == Some(toks@),
{
    let mut toks: Vec<Token> = Vec::new();
    let mut i: usize = 0;
    let n = cs.len();
    while i < n
        invariant
            n == cs@.len(),
            i <= n,
            lex(cs@) == lex_from(cs@, i as int, toks@),
            tokens_wf(cs@, toks@),
            toks@.len() > 0 ==> toks@.last().end <= i,
            forall|k: int| 0 <= k < i ==> is_program_char(#[trigger] cs@[k]),
        decreases n - i,
    {
        let c = cs[i];
        if c == ' ' || c == '\t' || c == '\n' || c == '\r' {
            i = i + 1;
            continue;
        }
        let start = i;
        let kind;
        if digit(c) {
            while i < n && digit(cs[i])
                invariant
                    n == cs@.len(),
                    start < n,
                    start <= i <= n,
                    scan_digits(cs@, start as int) == scan_digits(cs@, i as int),
                    i > start || is_digit(cs@[start as int]),
                    forall|k: int| 0 <= k < i ==> is_program_char(#[trigger] cs@[k]),
                decreases n - i,
            {
                i = i + 1;
            }

            let ghost j = i as int;
            if i < n && i + 1 < n && cs[i] == '.' && digit(cs[i + 1]) {
                i = i + 1;
                while i < n && digit(cs[i])
                    invariant
                        n == cs@.len(),
                        start < i <= n,
                        j < i,
                        scan_digits(cs@, j + 1) == scan_digits(cs@, i as int),
                        forall|k: int| 0 <= k < i ==> is_program_char(#[trigger] cs@[k]),
                    decreases n - i,
                {
                    i = i + 1;
                }
            }
            proof {
                assert(i as int == num_end(cs@, start as int));
            }
            kind = TokKind::Num;
        } else if ident_start(c) {
            i = i + 1;
            while i < n && ident_char(cs[i])
                invariant
                    n == cs@.len(),
                    start < i <= n,
                    scan_ident(cs@, start + 1) == scan_ident(cs@, i as int),
                    forall|k: int| start <= k < i ==> is_ident_char(#[trigger] cs@[k]),
                    forall|k: int| 0 <= k < i ==> is_program_char(#[trigger] cs@[k]),
                decreases n - i,
            {
                i = i + 1;
            }
            kind = TokKind::Ident;
        } else {
            let next = if i + 1 < n { cs[i + 1] } else { ' ' };
            if c == '-' && next == '>' {
                kind = TokKind::Arrow;
                i = i + 2;
            } else if c == '=' && next == '>' {
                kind = TokKind::FatArrow;
                i = i + 2;
            } else if c == '<' && next == '=' {
                kind = TokKind::Le;
                i = i + 2;
            } else if c == '>' && next == '=' {
                kind = TokKind::Ge;
                i = i + 2;
            } else {
                kind = if c == '(' { TokKind::LParen }
                else if c == ')' { TokKind::RParen }
                else if c == ',' { TokKind::Comma }
                else if c == ':' { TokKind::Colon }
                else if c == '.' { TokKind::Dot }
                else if c == '=' { TokKind::Eq }
                else if c == '+' { TokKind::Plus }
                else if c == '-' { TokKind::Minus }
                else if c == '*' { TokKind::Star }
                else if c == '/' { TokKind::Slash }
                else if c == '<' { TokKind::Lt }
                else if c == '>' { TokKind::Gt }
                else {
                    proof {
                        assert(!is_program_char(cs@[i as int]));
                        assert(sym_token(cs@, i as int) is None);
                    }
                    let mut m = String::from_str("Unexpected character at position ");
                    m.append(decimal_text(i as u64).as_str());
                    return Err(m);
                };
                i = i + 1;
            }
        }
        proof {
            assert(start < i <= n);
        }
        let ghost old_toks = toks@;
        toks.push(Token { kind, start, end: i });
        proof {
            assert forall|a: int, b: int| 0 <= a < b < toks@.len() implies #[trigger] toks@[a].end <= #[trigger] toks@[b].start by {
                assert(toks@[a] == old_toks[a]);
                if b < old_toks.len() {
                    assert(toks@[b] == old_toks[b]);
                } else if a < old_toks.len() - 1 {
                    assert(old_toks[a].end <= old_toks[old_toks.len() - 1].start);
                }
            }
            assert forall|a: int, k: int|
                0 <= a < toks@.len() && (#[trigger] toks@[a]).kind == TokKind::Ident && toks@[a].start <= k < toks@[a].end
                    implies is_ident_char(#[trigger] cs@[k]) by {
                if a < old_toks.len() {
                    assert(toks@[a] == old_toks[a]);
                }
            }
            assert forall|a: int| 0 <= a < toks@.len() && (#[trigger] toks@[a]).kind == TokKind::Num
                implies is_digit(cs@[toks@[a].start as int]) by {
                if a < old_toks.len() {
                    assert(toks@[a] == old_toks[a]);
                }
            }
        }
    }
    Ok(toks)
}

/// The token at `p` is of kind `k`.
pub open spec fn tok_is(toks: Seq<Token>, p: int, k: TokKind) -> bool {
    0 <= p < toks.len() && toks[p].kind == k
}

/// The characters of the token at `p`.
pub open spec fn tok_text(cs: Seq<char>, toks: Seq<Token>, p: int) -> Seq<char> {
    cs.subrange(toks[p].start as int, toks[p].end as int)
}

/// The token at `p` is the name `w`.
pub open spec fn is_word(cs: Seq<char>, toks: Seq<Token>, p: int, w: Seq<char>) -> bool {
    tok_is(toks, p, TokKind::Ident) && tok_text(cs, toks, p) == w
}

/// The token at `p` is a reserved word.
pub open spec fn is_keyword(cs: Seq<char>, toks: Seq<Token>, p: int) -> bool {
    is_word(cs, toks, p, "let"@) || is_word(cs, toks, p, "in"@) || is_word(cs, toks, p, "if"@) || is_word(
        cs,
        toks,
        p,
        "then"@,
    ) || is_word(cs, toks, p, "else"@) || is_word(cs, toks, p, "true"@) || is_word(cs, toks, p, "false"@)
}

/// The grammar of types, from token `p`: `T -> U` (right-associative)
/// over atoms; the type and the position after it.
pub open spec fn g_type(cs: Seq<char>, toks: Seq<Token>, p: int) -> Option<(Ty, int)>
    decreases toks.len() - p, 1nat,
{
    match g_type_atom(cs, toks, p) {
        Some((t, q)) => if q > p && tok_is(toks, q, TokKind::Arrow) {
            match g_type(cs, toks, q + 1) {
                Some((u, r)) => Some((Ty::Func(Box::new(t), Box::new(u)), r)),
                None => None,
            }
        } else if q > p {
            Some((t, q))
        } else {
            None
        },
        None => None,
    }
}

/// `Float`, `Bool` (either capitalised or not), `(T)` and `(T, U, ...)`.
pub open spec fn g_type_atom(cs: Seq<char>, toks: Seq<Token>, p: int) -> Option<(Ty, int)>
    decreases toks.len() - p, 0nat,
{
    if p < 0 || p >= toks.len() {
        None
    } else if is_word(cs, toks, p, "Float"@) || is_word(cs, toks, p, "float"@) {
        Some((Ty::Float, p + 1))
    } else if is_word(cs, toks, p, "Bool"@) || is_word(cs, toks, p, "bool"@) {
        Some((Ty::Bool, p + 1))
    } else if tok_is(toks, p, TokKind::LParen) {
        close_types(toks, g_type_list(cs, toks, p + 1, Seq::empty()))
    } else {
        None
    }
}

/// A parenthesised list of types, once its `)` is seen: one type stands
/// for itself, several make a tuple type.
pub open spec fn close_types(toks: Seq<Token>, l: Option<(Seq<Ty>, int)>) -> Option<(Ty, int)> {
    match l {
        Some((ts, q)) => if tok_is(toks, q, TokKind::RParen) {
            if ts.len() == 1 {
                Some((ts[0], q + 1))
            } else {
                Some((Ty::Tuple(ts), q + 1))
            }
        } else {
            None
        },
        None => None,
    }
}

/// Types separated by commas, from `p`, after the types `acc`.
pub open spec fn g_type_list(cs: Seq<char>, toks: Seq<Token>, p: int, acc: Seq<Ty>) -> Option<(Seq<Ty>, int)>
    decreases toks.len() - p, 2nat,
{
    if p < 0 || p > toks.len() {
        None
    } else {
        match g_type(cs, toks, p) {
            Some((t, q)) => if q > p && tok_is(toks, q, TokKind::Comma) {
                g_type_list(cs, toks, q + 1, acc.push(t))
            } else if q > p {
                Some((acc.push(t), q))
            } else {
                None
            },
            None => None,
        }
    }
}

/// The built-in that the name at `p` denotes, if any.
pub open spec fn lib_of<N>(cs: Seq<char>, toks: Seq<Token>, p: int) -> Option<Lib<N>> {
    if is_word(cs, toks, p, "fft"@) || is_word(cs, toks, p, "spectralBin"@) { Some(Lib::Fft) }
    else if is_word(cs, toks, p, "beat"@) { Some(Lib::Beat) }
    else if is_word(cs, toks, p, "sec"@) { Some(Lib::Sec) }
    else if is_word(cs, toks, p, "add"@) { Some(Lib::Add) }
    else if is_word(cs, toks, p, "sub"@) { Some(Lib::Sub) }
    else if is_word(cs, toks, p, "mul"@) { Some(Lib::Mul) }
    else if is_word(cs, toks, p, "div"@) { Some(Lib::Div) }
    else if is_word(cs, toks, p, "mod"@) { Some(Lib::Mod) }
    else if is_word(cs, toks, p, "sin"@) { Some(Lib::Sin) }
    else if is_word(cs, toks, p, "cos"@) { Some(Lib::Cos) }
    else if is_word(cs, toks, p, "re"@) { Some(Lib::Re) }
    else if is_word(cs, toks, p, "im"@) { Some(Lib::Im) }
    else if is_word(cs, toks, p, "norm"@) { Some(Lib::Norm) }
    else if is_word(cs, toks, p, "angle"@) { Some(Lib::Angle) }
    else if is_word(cs, toks, p, "polar"@) { Some(Lib::Polar) }
    else if is_word(cs, toks, p, "lt"@) { Some(Lib::Lt) }
    else if is_word(cs, toks, p, "le"@) { Some(Lib::Le) }
    else if is_word(cs, toks, p, "gt"@) { Some(Lib::Gt) }
    else if is_word(cs, toks, p, "ge"@) { Some(Lib::Ge) }
    else { None }
}

/// The accessor named at `p`: `re`, `im`, `norm`, `angle` or `polar`.
pub open spec fn accessor_of<N>(cs: Seq<char>, toks: Seq<Token>, p: int) -> Option<Lib<N>> {
    if is_word(cs, toks, p, "re"@) { Some(Lib::Re) }
    else if is_word(cs, toks, p, "im"@) { Some(Lib::Im) }
    else if is_word(cs, toks, p, "norm"@) { Some(Lib::Norm) }
    else if is_word(cs, toks, p, "angle"@) { Some(Lib::Angle) }
    else if is_word(cs, toks, p, "polar"@) { Some(Lib::Polar) }
    else { None }
}

/// The comparison operator at `p`.
pub open spec fn cmp_op<N>(toks: Seq<Token>, p: int) -> Option<Lib<N>> {
    if tok_is(toks, p, TokKind::Lt) { Some(Lib::Lt) }
    else if tok_is(toks, p, TokKind::Le) { Some(Lib::Le) }
    else if tok_is(toks, p, TokKind::Gt) { Some(Lib::Gt) }
    else if tok_is(toks, p, TokKind::Ge) { Some(Lib::Ge) }
    else { None }
}

/// The additive operator at `p`.
pub open spec fn add_op<N>(toks: Seq<Token>, p: int) -> Option<Lib<N>> {
    if tok_is(toks, p, TokKind::Plus) { Some(Lib::Add) }
    else if tok_is(toks, p, TokKind::Minus) { Some(Lib::Sub) }
    else { None }
}

/// The multiplicative operator at `p`.
pub open spec fn mul_op<N>(toks: Seq<Token>, p: int) -> Option<Lib<N>> {
    if tok_is(toks, p, TokKind::Star) { Some(Lib::Mul) }
    else if tok_is(toks, p, TokKind::Slash) { Some(Lib::Div) }
    else { None }
}

/// `l op r` as curried application of the operator.
pub open spec fn bin_m<N>(op: Lib<N>, l: SyntaxM<N>, r: SyntaxM<N>) -> SyntaxM<N> {
    SyntaxM::Apply(Box::new(SyntaxM::Apply(Box::new(SyntaxM::Lib(op)), Box::new(l))), Box::new(r))
}

/// Whether an atom can start at `p`.
pub open spec fn atom_start(cs: Seq<char>, toks: Seq<Token>, p: int) -> bool {
    tok_is(toks, p, TokKind::Num) || tok_is(toks, p, TokKind::LParen) || (tok_is(toks, p, TokKind::Ident) && (
    !is_keyword(cs, toks, p) || is_word(cs, toks, p, "true"@) || is_word(cs, toks, p, "false"@)))
}

/// The grammar of expressions, from token `p`: the syntax and the
/// position after it.  An expression is `let x: T = v in b`,
/// `if c then a else b`, or a comparison.
pub open spec fn g_expr<N: Scalar>(cs: Seq<char>, toks: Seq<Token>, p: int) -> Option<(SyntaxM<N>, int)>
    decreases toks.len() - p, 6nat,
{
    if p < 0 || p > toks.len() {
        None
    } else if is_word(cs, toks, p, "let"@) {
        if !tok_is(toks, p + 1, TokKind::Ident) || is_keyword(cs, toks, p + 1) || !tok_is(toks, p + 2, TokKind::Colon) {
            None
        } else {
            match g_type(cs, toks, p + 3) {
                Some((t, q)) => if q > p + 2 && tok_is(toks, q, TokKind::Eq) {
                    match g_expr(cs, toks, q + 1) {
                        Some((v, q2)) => if q2 > q && is_word(cs, toks, q2, "in"@) {
                            match g_expr(cs, toks, q2 + 1) {
                                Some((b, q3)) => Some(
                                    (SyntaxM::Let(t, tok_text(cs, toks, p + 1), Box::new(v), Box::new(b)), q3),
                                ),
                                None => None,
                            }
                        } else {
                            None
                        },
                        None => None,
                    }
                } else {
                    None
                },
                None => None,
            }
        }
    } else if is_word(cs, toks, p, "if"@) {
        match g_expr(cs, toks, p + 1) {
            Some((c, q)) => if q > p && is_word(cs, toks, q, "then"@) {
                match g_expr(cs, toks, q + 1) {
                    Some((a, q2)) => if q2 > q && is_word(cs, toks, q2, "else"@) {
                        match g_expr(cs, toks, q2 + 1) {
                            Some((b, q3)) => Some((SyntaxM::Alt(Box::new(c), Box::new(a), Box::new(b)), q3)),
                            None => None,
                        }
                    } else {
                        None
                    },
                    None => None,
                }
            } else {
                None
            },
            None => None,
        }
    } else {
        g_cmp(cs, toks, p)
    }
}

/// Comparisons, left to right, over sums.
pub open spec fn g_cmp<N: Scalar>(cs: Seq<char>, toks: Seq<Token>, p: int) -> Option<(SyntaxM<N>, int)>
    decreases toks.len() - p, 5nat,
{
    match g_add(cs, toks, p) {
        Some((e, q)) => if p < q <= toks.len() { g_cmp_rest(cs, toks, q, e) } else { None },
        None => None,
    }
}

pub open spec fn g_cmp_rest<N: Scalar>(cs: Seq<char>, toks: Seq<Token>, p: int, acc: SyntaxM<N>) -> Option<(SyntaxM<N>, int)>
    decreases toks.len() - p, 5nat,
{
    if p < 0 || p > toks.len() {
        None
    } else {
        match cmp_op::<N>(toks, p) {
            Some(op) => match g_add(cs, toks, p + 1) {
                Some((r, q)) => if p < q <= toks.len() { g_cmp_rest(cs, toks, q, bin_m(op, acc, r)) } else { None },
                None => None,
            },
            None => Some((acc, p)),
        }
    }
}

/// Sums and differences, left to right, over products.
pub open spec fn g_add<N: Scalar>(cs: Seq<char>, toks: Seq<Token>, p: int) -> Option<(SyntaxM<N>, int)>
    decreases toks.len() - p, 4nat,
{
    match g_mul(cs, toks, p) {
        Some((e, q)) => if p < q <= toks.len() { g_add_rest(cs, toks, q, e) } else { None },
        None => None,
    }
}

pub open spec fn g_add_rest<N: Scalar>(cs: Seq<char>, toks: Seq<Token>, p: int, acc: SyntaxM<N>) -> Option<(SyntaxM<N>, int)>
    decreases toks.len() - p, 4nat,
{
    if p < 0 || p > toks.len() {
        None
    } else {
        match add_op::<N>(toks, p) {
            Some(op) => match g_mul(cs, toks, p + 1) {
                Some((r, q)) => if p < q <= toks.len() { g_add_rest(cs, toks, q, bin_m(op, acc, r)) } else { None },
                None => None,
            },
            None => Some((acc, p)),
        }
    }
}

/// Products and quotients, left to right, over postfix expressions.
pub open spec fn g_mul<N: Scalar>(cs: Seq<char>, toks: Seq<Token>, p: int) -> Option<(SyntaxM<N>, int)>
    decreases toks.len() - p, 3nat,
{
    match g_postfix(cs, toks, p) {
        Some((e, q)) => if p < q <= toks.len() { g_mul_rest(cs, toks, q, e) } else { None },
        None => None,
    }
}

pub open spec fn g_mul_rest<N: Scalar>(cs: Seq<char>, toks: Seq<Token>, p: int, acc: SyntaxM<N>) -> Option<(SyntaxM<N>, int)>
    decreases toks.len() - p, 3nat,
{
    if p < 0 || p > toks.len() {
        None
    } else {
        match mul_op::<N>(toks, p) {
            Some(op) => match g_postfix(cs, toks, p + 1) {
                Some((r, q)) => if p < q <= toks.len() { g_mul_rest(cs, toks, q, bin_m(op, acc, r)) } else { None },
                None => None,
            },
            None => Some((acc, p)),
        }
    }
}

/// An application followed by accessors, each applying its built-in.
pub open spec fn g_postfix<N: Scalar>(cs: Seq<char>, toks: Seq<Token>, p: int) -> Option<(SyntaxM<N>, int)>
    decreases toks.len() - p, 2nat,
{
    match g_app(cs, toks, p) {
        Some((e, q)) => if p < q <= toks.len() { g_postfix_rest(cs, toks, q, e) } else { None },
        None => None,
    }
}

pub open spec fn g_postfix_rest<N: Scalar>(cs: Seq<char>, toks: Seq<Token>, p: int, acc: SyntaxM<N>) -> Option<(SyntaxM<N>, int)>
    decreases toks.len() - p, 2nat,
{
    if p < 0 || p > toks.len() {
        None
    } else if tok_is(toks, p, TokKind::Dot) && p + 1 < toks.len() {
        match accessor_of::<N>(cs, toks, p + 1) {
            Some(l) => g_postfix_rest(cs, toks, p + 2, SyntaxM::Apply(Box::new(SyntaxM::Lib(l)), Box::new(acc))),
            None => None,
        }
    } else if tok_is(toks, p, TokKind::Dot) {
        None
    } else {
        Some((acc, p))
    }
}

/// An atom applied to the atoms after it, left to right.
pub open spec fn g_app<N: Scalar>(cs: Seq<char>, toks: Seq<Token>, p: int) -> Option<(SyntaxM<N>, int)>
    decreases toks.len() - p, 1nat,
{
    match g_atom(cs, toks, p) {
        Some((e, q)) => if p < q <= toks.len() { g_app_rest(cs, toks, q, e) } else { None },
        None => None,
    }
}

pub open spec fn g_app_rest<N: Scalar>(cs: Seq<char>, toks: Seq<Token>, p: int, acc: SyntaxM<N>) -> Option<(SyntaxM<N>, int)>
    decreases toks.len() - p, 1nat,
{
    if p < 0 || p > toks.len() {
        None
    } else if atom_start(cs, toks, p) {
        match g_atom(cs, toks, p) {
            Some((a, q)) => if p < q <= toks.len() { g_app_rest(cs, toks, q, SyntaxM::Apply(Box::new(acc), Box::new(a))) } else { None },
            None => None,
        }
    } else {
        Some((acc, p))
    }
}

/// A number, `true`, `false`, a built-in's name, a variable, a
/// parenthesised expression, a tuple, or `(x: T) => body`.
pub open spec fn g_atom<N: Scalar>(cs: Seq<char>, toks: Seq<Token>, p: int) -> Option<(SyntaxM<N>, int)>
    decreases toks.len() - p, 0nat,
{
    if p < 0 || p >= toks.len() {
        None
    } else if tok_is(toks, p, TokKind::Num) {
        Some((SyntaxM::Float(N::from_literal_spec(char_list(tok_text(cs, toks, p)))), p + 1))
    } else if tok_is(toks, p, TokKind::Ident) {
        if is_word(cs, toks, p, "true"@) {
            Some((SyntaxM::Bool(true), p + 1))
        } else if is_word(cs, toks, p, "false"@) {
            Some((SyntaxM::Bool(false), p + 1))
        } else if is_keyword(cs, toks, p) {
            None
        } else {
            match lib_of::<N>(cs, toks, p) {
                Some(l) => Some((SyntaxM::Lib(l), p + 1)),
                None => Some((SyntaxM::Var(tok_text(cs, toks, p)), p + 1)),
            }
        }
    } else if tok_is(toks, p, TokKind::LParen) {
        if tok_is(toks, p + 1, TokKind::Ident) && tok_is(toks, p + 2, TokKind::Colon) {
            if is_keyword(cs, toks, p + 1) {
                None
            } else {
                match g_type(cs, toks, p + 3) {
                    Some((t, q)) => if q > p + 2 && tok_is(toks, q, TokKind::RParen) && tok_is(toks, q + 1, TokKind::FatArrow) {
                        match g_expr(cs, toks, q + 2) {
                            Some((b, r)) => Some((SyntaxM::Func(t, tok_text(cs, toks, p + 1), Box::new(b)), r)),
                            None => None,
                        }
                    } else {
                        None
                    },
                    None => None,
                }
            }
        } else {
            close_exprs(toks, g_list(cs, toks, p + 1, Seq::empty()))
        }
    } else {
        None
    }
}

/// Expressions separated by commas, from `p`, after the expressions `acc`.
pub open spec fn g_list<N: Scalar>(cs: Seq<char>, toks: Seq<Token>, p: int, acc: Seq<SyntaxM<N>>) -> Option<(Seq<SyntaxM<N>>, int)>
    decreases toks.len() - p, 7nat,
{
    if p < 0 || p > toks.len() {
        None
    } else {
        match g_expr(cs, toks, p) {
            Some((e, q)) => if q > p && tok_is(toks, q, TokKind::Comma) {
                g_list(cs, toks, q + 1, acc.push(e))
            } else if q > p {
                Some((acc.push(e), q))
            } else {
                None
            },
            None => None,
        }
    }
}

/// A parenthesised list of expressions, once its `)` is seen: one
/// expression stands for itself, several make a tuple.
pub open spec fn close_exprs<N>(toks: Seq<Token>, l: Option<(Seq<SyntaxM<N>>, int)>) -> Option<(SyntaxM<N>, int)> {
    match l {
        Some((es, q)) => if tok_is(toks, q, TokKind::RParen) {
            if es.len() == 1 {
                Some((es[0], q + 1))
            } else {
                Some((SyntaxM::Tuple(es), q + 1))
            }
        } else {
            None
        },
        None => None,
    }
}

/// The models of a sequence of types.
pub open spec fn tys_m(ts: Seq<ValueType>) -> Seq<Ty> {
    Seq::new(ts.len(), |i: int| ts[i]@)
}

/// The tokens of a text and the text itself, read by the parsing
/// functions below, which take a token position and return the syntax
/// parsed from there and the position after it.
pub struct Source<'a> {
    pub text: &'a str,
    pub cs: Vec<char>,
    pub toks: Vec<Token>,
}

impl<'a> Source<'a> {
    pub open spec fn wf(&self) -> bool {
        &&& self.cs@ == self.text@
        &&& tokens_wf(self.cs@, self.toks@)
        &&& self.toks@.len() < usize::MAX
    }
}

/// A parse result: the syntax and the position after it, which is past
/// the starting position.
pub open spec fn advanced<T>(pos: usize, len: nat, r: Result<(T, usize), ParseError>) -> bool {
    r matches Ok((_, p)) ==> pos < p <= len
}

fn is_kind(src: &Source, pos: usize, k: TokKind) -> (r: bool)
    ensures
        r <==> pos < src.toks@.len() && src.toks@[pos as int].kind == k,
{
    pos < src.toks.len() && src.toks[pos].kind == k
}

fn kind_at(src: &Source, pos: usize) -> (r: Option<TokKind>)
    ensures
        r is Some <==> pos < src.toks@.len(),
        r matches Some(k) ==> k == src.toks@[pos as int].kind,
{
    if pos < src.toks.len() {
        Some(src.toks[pos].kind)
    } else {
        None
    }
}

/// Whether the token at `pos` is the name `w`.
fn word_at(src: &Source, pos: usize, w: &str) -> (r: bool)
    requires
        src.wf(),
    ensures
        r == is_word(src.cs@, src.toks@, pos as int, w@),
{
    if pos >= src.toks.len() || src.toks[pos].kind != TokKind::Ident {
        return false;
    }
    let t = src.toks[pos];
    let wl = w.unicode_len();
    if t.end - t.start != wl {
        proof {
            assert(src.cs@.subrange(t.start as int, t.end as int).len() != w@.len());
        }
        return false;
    }
    let mut k: usize = 0;
    while k < wl
        invariant
            src.wf(),
            pos < src.toks@.len(),
            t == src.toks@[pos as int],
            t.start < t.end <= src.cs@.len(),
            t.end - t.start == wl,
            wl == w@.len(),
            k <= wl,
            forall|j: int| 0 <= j < k ==> src.cs@[t.start + j] == #[trigger] w@[j],
        decreases wl - k,
    {
        if src.cs[t.start + k] != w.get_char(k) {
            proof {
                assert(src.cs@.subrange(t.start as int, t.end as int)[k as int] != w@[k as int]);
            }
            return false;
        }
        k = k + 1;
    }
    proof {
        assert(src.cs@.subrange(t.start as int, t.end as int) =~= w@);
    }
    true
}

/// Whether the token at `pos` is one of the language's reserved words.
fn keyword_at(src: &Source, pos: usize) -> (r: bool)
    requires
        src.wf(),
    ensures
        r == is_keyword(src.cs@, src.toks@, pos as int),
{
    word_at(src, pos, "let") || word_at(src, pos, "in") || word_at(src, pos, "if") || word_at(src, pos, "then")
        || word_at(src, pos, "else") || word_at(src, pos, "true") || word_at(src, pos, "false")
}

/// The built-in that a name denotes, if any.
fn lib_named<N: Scalar>(src: &Source, pos: usize) -> (r: Option<Lib<N>>)
    requires
        src.wf(),
    ensures
        r == lib_of::<N>(src.cs@, src.toks@, pos as int),
{
    if word_at(src, pos, "fft") || word_at(src, pos, "spectralBin") { Some(Lib::Fft) }
    else if word_at(src, pos, "beat") { Some(Lib::Beat) }
    else if word_at(src, pos, "sec") { Some(Lib::Sec) }
    else if word_at(src, pos, "add") { Some(Lib::Add) }
    else if word_at(src, pos, "sub") { Some(Lib::Sub) }
    else if word_at(src, pos, "mul") { Some(Lib::Mul) }
    else if word_at(src, pos, "div") { Some(Lib::Div) }
    else if word_at(src, pos, "mod") { Some(Lib::Mod) }
    else if word_at(src, pos, "sin") { Some(Lib::Sin) }
    else if word_at(src, pos, "cos") { Some(Lib::Cos) }
    else if word_at(src, pos, "re") { Some(Lib::Re) }
    else if word_at(src, pos, "im") { Some(Lib::Im) }
    else if word_at(src, pos, "norm") { Some(Lib::Norm) }
    else if word_at(src, pos, "angle") { Some(Lib::Angle) }
    else if word_at(src, pos, "polar") { Some(Lib::Polar) }
    else if word_at(src, pos, "lt") { Some(Lib::Lt) }
    else if word_at(src, pos, "le") { Some(Lib::Le) }
    else if word_at(src, pos, "gt") { Some(Lib::Gt) }
    else if word_at(src, pos, "ge") { Some(Lib::Ge) }
    else { None }
}

/// The text of the token at `pos`.
fn text_at<'a>(src: &Source<'a>, pos: usize) -> (r: &'a str)
    requires
        src.wf(),
        pos < src.toks@.len(),
    ensures
        r@ == src.text@.subrange(src.toks@[pos as int].start as int, src.toks@[pos as int].end as int),
{
    let t = src.toks[pos];
    src.text.substring_char(t.start, t.end)
}

fn expect(src: &Source, pos: usize, k: TokKind, what: &str) -> (r: Result<usize, ParseError>)
    ensures
        r is Ok <==> tok_is(src.toks@, pos as int, k),
        r matches Ok(p) ==> p == pos + 1 && pos < src.toks@.len() && src.toks@[pos as int].kind == k,
{
    if pos < src.toks.len() && src.toks[pos].kind == k {
        Ok(pos + 1)
    } else {
        Err(error_at(what, pos))
    }
}

fn expect_word(src: &Source, pos: usize, w: &str, what: &str) -> (r: Result<usize, ParseError>)
    requires
        src.wf(),
    ensures
        r is Ok <==> is_word(src.cs@, src.toks@, pos as int, w@),
        r matches Ok(p) ==> p == pos + 1 && pos < src.toks@.len(),
{
    if word_at(src, pos, w) {
        Ok(pos + 1)
    } else {
        Err(error_at(what, pos))
    }
}

fn bin<N: Scalar>(op: Lib<N>, l: Syntax<N>, r: Syntax<N>) -> (s: Syntax<N>)
    ensures
        s@ == bin_m(op, l@, r@),
{
    let s = Syntax::Apply(Box::new(Syntax::Apply(Box::new(Syntax::Lib(op)), Box::new(l))), Box::new(r));
    proof {
        reveal_with_fuel(syntax_m, 3);
    }
    s
}

/// A parse result agrees with the grammar: it succeeds exactly when the
/// grammar derives syntax from that position, with the same syntax and end.
pub open spec fn agrees<N: Scalar>(r: Result<(Syntax<N>, usize), ParseError>, g: Option<(SyntaxM<N>, int)>) -> bool {
    match r {
        Ok((s, q)) => g == Some((s@, q as int)),
        Err(_) => g is None,
    }
}

/// `T -> U` (right-associative), over type atoms.
fn parse_type(src: &Source, pos: usize) -> (r: Result<(ValueType, usize), ParseError>)
    requires
        src.wf(),
        pos <= src.toks@.len(),
    ensures
        advanced(pos, src.toks@.len(), r),
        r is Ok <==> g_type(src.cs@, src.toks@, pos as int) is Some,
        r matches Ok((t, q)) ==> g_type(src.cs@, src.toks@, pos as int) == Some((t@, q as int)),
    decreases src.toks@.len() - pos, 1nat,
{
    let (t, p) = match parse_type_atom(src, pos) {
        Ok(x) => x,
        Err(e) => { return Err(e); },
    };
    if is_kind(src, p, TokKind::Arrow) {
        let (u, q) = match parse_type(src, p + 1) {
            Ok(x) => x,
            Err(e) => { return Err(e); },
        };
        Ok((ValueType::Func(Box::new(t), Box::new(u)), q))
    } else {
        Ok((t, p))
    }
}

/// `Float`, `Bool`, `(T)` and `(T, U, ...)`.
fn parse_type_atom(src: &Source, pos: usize) -> (r: Result<(ValueType, usize), ParseError>)
    requires
        src.wf(),
        pos <= src.toks@.len(),
    ensures
        advanced(pos, src.toks@.len(), r),
        r is Ok <==> g_type_atom(src.cs@, src.toks@, pos as int) is Some,
        r matches Ok((t, q)) ==> g_type_atom(src.cs@, src.toks@, pos as int) == Some((t@, q as int)),
    decreases src.toks@.len() - pos, 0nat,
{
    if word_at(src, pos, "Float") || word_at(src, pos, "float") {
        return Ok((ValueType::Float, pos + 1));
    }
    if word_at(src, pos, "Bool") || word_at(src, pos, "bool") {
        return Ok((ValueType::Bool, pos + 1));
    }
    if !is_kind(src, pos, TokKind::LParen) {
        return Err(error_at("Expected a type", pos));
    }
    let ghost cs = src.cs@;
    let ghost toks = src.toks@;
    let mut items: Vec<ValueType> = Vec::new();
    let mut p = pos + 1;
    proof {
        assert(tys_m(items@) =~= Seq::<Ty>::empty());
    }
    loop
        invariant_except_break
            g_type_atom(cs, toks, pos as int) == close_types(toks, g_type_list(cs, toks, p as int, tys_m(items@))),
        invariant
            src.wf(),
            cs == src.cs@,
            toks == src.toks@,
            pos < p <= src.toks@.len(),
        ensures
            pos < p <= src.toks@.len(),
            g_type_atom(cs, toks, pos as int) == close_types(toks, Some((tys_m(items@), p as int))),
        decreases src.toks@.len() - p,
    {
        let ghost before = tys_m(items@);
        let (t, q) = match parse_type(src, p) {
            Ok(x) => x,
            Err(e) => { return Err(e); },
        };
        items.push(t);
        proof {
            assert(tys_m(items@) =~= before.push(t@));
        }
        p = q;
        if is_kind(src, p, TokKind::Comma) {
            p = p + 1;
        } else {
            break;
        }
    }
    let p = match expect(src, p, TokKind::RParen, "Expected `)` after a type") {
        Ok(p) => p,
        Err(e) => { return Err(e); },
    };
    if items.len() == 1 {
        let t = items.pop().unwrap();
        Ok((t, p))
    } else {
        let t = ValueType::Tuple(items);
        proof {
            lemma_tuple_view(t);
            assert(t@->Tuple_0 =~= tys_m(items@));
        }
        Ok((t, p))
    }
}

/// An expression: `let`, `if`, or a comparison; see `g_expr`.
#[verifier::rlimit(60)]
fn parse_expr<N: Scalar>(src: &Source, pos: usize) -> (r: Result<(Syntax<N>, usize), ParseError>)
    requires
        src.wf(),
        pos <= src.toks@.len(),
    ensures
        advanced(pos, src.toks@.len(), r),
        agrees(r, g_expr::<N>(src.cs@, src.toks@, pos as int)),
    decreases src.toks@.len() - pos, 6nat,
{
    let ghost cs = src.cs@;
    let ghost toks = src.toks@;
    if word_at(src, pos, "let") {
        if !is_kind(src, pos + 1, TokKind::Ident) || keyword_at(src, pos + 1) {
            return Err(error_at("Expected a name after `let`", pos + 1));
        }
        let name = String::from_str(text_at(src, pos + 1));
        let p = match expect(src, pos + 2, TokKind::Colon, "Expected `:` after the name") {
            Ok(p) => p,
            Err(e) => { return Err(e); },
        };
        let (ty, p) = match parse_type(src, p) {
            Ok(x) => x,
            Err(e) => { return Err(e); },
        };
        let p = match expect(src, p, TokKind::Eq, "Expected `=`") {
            Ok(p) => p,
            Err(e) => { return Err(e); },
        };
        let (value, p) = match parse_expr(src, p) {
            Ok(x) => x,
            Err(e) => { return Err(e); },
        };
        let p = match expect_word(src, p, "in", "Expected `in`") {
            Ok(p) => p,
            Err(e) => { return Err(e); },
        };
        let (body, p) = match parse_expr(src, p) {
            Ok(x) => x,
            Err(e) => { return Err(e); },
        };
        let s = Syntax::Let(Box::new(ty), name, Box::new(value), Box::new(body));
        return Ok((s, p));
    }
    if word_at(src, pos, "if") {
        let (c, p) = match parse_expr(src, pos + 1) {
            Ok(x) => x,
            Err(e) => { return Err(e); },
        };
        let p = match expect_word(src, p, "then", "Expected `then`") {
            Ok(p) => p,
            Err(e) => { return Err(e); },
        };
        let (a, p) = match parse_expr(src, p) {
            Ok(x) => x,
            Err(e) => { return Err(e); },
        };
        let p = match expect_word(src, p, "else", "Expected `else`") {
            Ok(p) => p,
            Err(e) => { return Err(e); },
        };
        let (b, p) = match parse_expr(src, p) {
            Ok(x) => x,
            Err(e) => { return Err(e); },
        };
        return Ok((Syntax::Alt(Box::new(c), Box::new(a), Box::new(b)), p));
    }
    parse_cmp(src, pos)
}

/// The comparison operator at `pos`, if any.
fn cmp_at<N: Scalar>(src: &Source, pos: usize) -> (r: Option<Lib<N>>)
    ensures
        r == cmp_op::<N>(src.toks@, pos as int),
{
    if is_kind(src, pos, TokKind::Lt) { Some(Lib::Lt) }
    else if is_kind(src, pos, TokKind::Le) { Some(Lib::Le) }
    else if is_kind(src, pos, TokKind::Gt) { Some(Lib::Gt) }
    else if is_kind(src, pos, TokKind::Ge) { Some(Lib::Ge) }
    else { None }
}

fn add_at<N: Scalar>(src: &Source, pos: usize) -> (r: Option<Lib<N>>)
    ensures
        r == add_op::<N>(src.toks@, pos as int),
{
    if is_kind(src, pos, TokKind::Plus) { Some(Lib::Add) }
    else if is_kind(src, pos, TokKind::Minus) { Some(Lib::Sub) }
    else { None }
}

fn mul_at<N: Scalar>(src: &Source, pos: usize) -> (r: Option<Lib<N>>)
    ensures
        r == mul_op::<N>(src.toks@, pos as int),
{
    if is_kind(src, pos, TokKind::Star) { Some(Lib::Mul) }
    else if is_kind(src, pos, TokKind::Slash) { Some(Lib::Div) }
    else { None }
}

/// Comparisons, left to right, over sums; see `g_cmp`.
fn parse_cmp<N: Scalar>(src: &Source, pos: usize) -> (r: Result<(Syntax<N>, usize), ParseError>)
    requires
        src.wf(),
        pos <= src.toks@.len(),
    ensures
        advanced(pos, src.toks@.len(), r),
        agrees(r, g_cmp::<N>(src.cs@, src.toks@, pos as int)),
    decreases src.toks@.len() - pos, 5nat,
{
    let ghost cs = src.cs@;
    let ghost toks = src.toks@;
    let (mut e, mut p) = match parse_add(src, pos) {
        Ok(x) => x,
        Err(e) => { return Err(e); },
    };
    loop
        invariant
            src.wf(),
            cs == src.cs@,
            toks == src.toks@,
            pos < p <= src.toks@.len(),
            g_cmp::<N>(cs, toks, pos as int) == g_cmp_rest(cs, toks, p as int, e@),
        ensures
            pos < p <= src.toks@.len(),
            g_cmp::<N>(cs, toks, pos as int) == Some((e@, p as int)),
        decreases src.toks@.len() - p,
    {
        let op = match cmp_at::<N>(src, p) {
            Some(op) => op,
            None => { break; },
        };
        let (r, q) = match parse_add(src, p + 1) {
            Ok(x) => x,
            Err(e) => { return Err(e); },
        };
        e = bin(op, e, r);
        p = q;
    }
    Ok((e, p))
}

/// Sums and differences, left to right, over products; see `g_add`.
fn parse_add<N: Scalar>(src: &Source, pos: usize) -> (r: Result<(Syntax<N>, usize), ParseError>)
    requires
        src.wf(),
        pos <= src.toks@.len(),
    ensures
        advanced(pos, src.toks@.len(), r),
        agrees(r, g_add::<N>(src.cs@, src.toks@, pos as int)),
    decreases src.toks@.len() - pos, 4nat,
{
    let ghost cs = src.cs@;
    let ghost toks = src.toks@;
    let (mut e, mut p) = match parse_mul(src, pos) {
        Ok(x) => x,
        Err(e) => { return Err(e); },
    };
    loop
        invariant
            src.wf(),
            cs == src.cs@,
            toks == src.toks@,
            pos < p <= src.toks@.len(),
            g_add::<N>(cs, toks, pos as int) == g_add_rest(cs, toks, p as int, e@),
        ensures
            pos < p <= src.toks@.len(),
            g_add::<N>(cs, toks, pos as int) == Some((e@, p as int)),
        decreases src.toks@.len() - p,
    {
        let op = match add_at::<N>(src, p) {
            Some(op) => op,
            None => { break; },
        };
        let (r, q) = match parse_mul(src, p + 1) {
            Ok(x) => x,
            Err(e) => { return Err(e); },
        };
        e = bin(op, e, r);
        p = q;
    }
    Ok((e, p))
}

/// Products and quotients, left to right, over postfix expressions; see
/// `g_mul`.
fn parse_mul<N: Scalar>(src: &Source, pos: usize) -> (r: Result<(Syntax<N>, usize), ParseError>)
    requires
        src.wf(),
        pos <= src.toks@.len(),
    ensures
        advanced(pos, src.toks@.len(), r),
        agrees(r, g_mul::<N>(src.cs@, src.toks@, pos as int)),
    decreases src.toks@.len() - pos, 3nat,
{
    let ghost cs = src.cs@;
    let ghost toks = src.toks@;
    let (mut e, mut p) = match parse_postfix(src, pos) {
        Ok(x) => x,
        Err(e) => { return Err(e); },
    };
    loop
        invariant
            src.wf(),
            cs == src.cs@,
            toks == src.toks@,
            pos < p <= src.toks@.len(),
            g_mul::<N>(cs, toks, pos as int) == g_mul_rest(cs, toks, p as int, e@),
        ensures
            pos < p <= src.toks@.len(),
            g_mul::<N>(cs, toks, pos as int) == Some((e@, p as int)),
        decreases src.toks@.len() - p,
    {
        let op = match mul_at::<N>(src, p) {
            Some(op) => op,
            None => { break; },
        };
        let (r, q) = match parse_postfix(src, p + 1) {
            Ok(x) => x,
            Err(e) => { return Err(e); },
        };
        e = bin(op, e, r);
        p = q;
    }
    Ok((e, p))
}

/// The accessor named at `pos`, if any.
fn accessor_at<N: Scalar>(src: &Source, pos: usize) -> (r: Option<Lib<N>>)
    requires
        src.wf(),
    ensures
        r == accessor_of::<N>(src.cs@, src.toks@, pos as int),
        r is Some ==> pos < src.toks@.len(),
{
    if word_at(src, pos, "re") { Some(Lib::Re) }
    else if word_at(src, pos, "im") { Some(Lib::Im) }
    else if word_at(src, pos, "norm") { Some(Lib::Norm) }
    else if word_at(src, pos, "angle") { Some(Lib::Angle) }
    else if word_at(src, pos, "polar") { Some(Lib::Polar) }
    else { None }
}

/// An application followed by accessors `.re`, `.im`, `.norm`, `.angle`
/// and `.polar`, each applying that built-in; see `g_postfix`.
fn parse_postfix<N: Scalar>(src: &Source, pos: usize) -> (r: Result<(Syntax<N>, usize), ParseError>)
    requires
        src.wf(),
        pos <= src.toks@.len(),
    ensures
        advanced(pos, src.toks@.len(), r),
        agrees(r, g_postfix::<N>(src.cs@, src.toks@, pos as int)),
    decreases src.toks@.len() - pos, 2nat,
{
    let ghost cs = src.cs@;
    let ghost toks = src.toks@;
    let (mut e, mut p) = match parse_app(src, pos) {
        Ok(x) => x,
        Err(e) => { return Err(e); },
    };
    while is_kind(src, p, TokKind::Dot)
        invariant
            src.wf(),
            cs == src.cs@,
            toks == src.toks@,
            pos < p <= src.toks@.len(),
            g_postfix::<N>(cs, toks, pos as int) == g_postfix_rest(cs, toks, p as int, e@),
        decreases src.toks@.len() - p,
    {
        let q = p + 1;
        let acc = match accessor_at::<N>(src, q) {
            Some(l) => l,
            None => {
                return Err(error_at("Expected `re`, `im`, `norm`, `angle` or `polar` after `.`", q));
            },
        };
        let ghost before = e@;
        e = Syntax::Apply(Box::new(Syntax::Lib(acc)), Box::new(e));
        proof {
            reveal_with_fuel(syntax_m, 2);
            assert(e@ == SyntaxM::Apply(Box::new(SyntaxM::<N>::Lib(acc)), Box::new(before)));
        }
        p = q + 1;
    }
    Ok((e, p))
}

/// Whether an atom starts at `pos`; see `atom_start`.
fn atom_starts(src: &Source, pos: usize) -> (r: bool)
    requires
        src.wf(),
    ensures
        r == atom_start(src.cs@, src.toks@, pos as int),
{
    is_kind(src, pos, TokKind::Num) || is_kind(src, pos, TokKind::LParen) || (is_kind(src, pos, TokKind::Ident) && (
    !keyword_at(src, pos) || word_at(src, pos, "true") || word_at(src, pos, "false")))
}

/// Application by juxtaposition: an atom applied to the atoms after it,
/// left to right (`f(x)(y)`); see `g_app`.
fn parse_app<N: Scalar>(src: &Source, pos: usize) -> (r: Result<(Syntax<N>, usize), ParseError>)
    requires
        src.wf(),
        pos <= src.toks@.len(),
    ensures
        advanced(pos, src.toks@.len(), r),
        agrees(r, g_app::<N>(src.cs@, src.toks@, pos as int)),
    decreases src.toks@.len() - pos, 1nat,
{
    let ghost cs = src.cs@;
    let ghost toks = src.toks@;
    let (mut e, mut p) = match parse_atom(src, pos) {
        Ok(x) => x,
        Err(e) => { return Err(e); },
    };
    while atom_starts(src, p)
        invariant
            src.wf(),
            cs == src.cs@,
            toks == src.toks@,
            pos < p <= src.toks@.len(),
            g_app::<N>(cs, toks, pos as int) == g_app_rest(cs, toks, p as int, e@),
        decreases src.toks@.len() - p,
    {
        let (a, q) = match parse_atom(src, p) {
            Ok(x) => x,
            Err(e) => { return Err(e); },
        };
        e = Syntax::Apply(Box::new(e), Box::new(a));
        p = q;
    }
    Ok((e, p))
}

/// A literal, a name, a parenthesised expression, a tuple, or a function
/// literal `(name: Type) => body`; see `g_atom`.
#[verifier::rlimit(80)]
fn parse_atom<N: Scalar>(src: &Source, pos: usize) -> (r: Result<(Syntax<N>, usize), ParseError>)
    requires
        src.wf(),
        pos <= src.toks@.len(),
    ensures
        advanced(pos, src.toks@.len(), r),
        agrees(r, g_atom::<N>(src.cs@, src.toks@, pos as int)),
    decreases src.toks@.len() - pos, 0nat,
{
    let ghost cs = src.cs@;
    let ghost toks = src.toks@;
    if is_kind(src, pos, TokKind::Num) {
        let x = N::from_literal(text_at(src, pos));
        return Ok((Syntax::Float(x), pos + 1));
    }
    if is_kind(src, pos, TokKind::Ident) {
        if word_at(src, pos, "true") {
            return Ok((Syntax::Bool(true), pos + 1));
        }
        if word_at(src, pos, "false") {
            return Ok((Syntax::Bool(false), pos + 1));
        }
        if keyword_at(src, pos) {
            return Err(error_at("Unexpected keyword", pos));
        }
        return match lib_named(src, pos) {
            Some(l) => Ok((Syntax::Lib(l), pos + 1)),
            None => Ok((Syntax::Var(String::from_str(text_at(src, pos))), pos + 1)),
        };
    }
    if !is_kind(src, pos, TokKind::LParen) {
        return Err(error_at("Expected an expression", pos));
    }
    if is_kind(src, pos + 1, TokKind::Ident) && is_kind(src, pos + 2, TokKind::Colon) {
        if keyword_at(src, pos + 1) {
            return Err(error_at("Expected a parameter name", pos + 1));
        }
        let name = String::from_str(text_at(src, pos + 1));
        let (ty, p) = match parse_type(src, pos + 3) {
            Ok(x) => x,
            Err(e) => { return Err(e); },
        };
        let p = match expect(src, p, TokKind::RParen, "Expected `)` after the parameter") {
            Ok(p) => p,
            Err(e) => { return Err(e); },
        };
        let p = match expect(src, p, TokKind::FatArrow, "Expected `=>`") {
            Ok(p) => p,
            Err(e) => { return Err(e); },
        };
        let (body, p) = match parse_expr(src, p) {
            Ok(x) => x,
            Err(e) => { return Err(e); },
        };
        return Ok((Syntax::Func(Box::new(ty), name, Box::new(body)), p));
    }
    let mut items: Vec<Syntax<N>> = Vec::new();
    let mut p = pos + 1;
    proof {
        assert(syntaxes_m(items@) =~= Seq::<SyntaxM<N>>::empty());
    }
    loop
        invariant_except_break
            g_atom::<N>(cs, toks, pos as int) == close_exprs(toks, g_list(cs, toks, p as int, syntaxes_m(items@))),
        invariant
            src.wf(),
            cs == src.cs@,
            toks == src.toks@,
            pos < p <= src.toks@.len(),
        ensures
            pos < p <= src.toks@.len(),
            g_atom::<N>(cs, toks, pos as int) == close_exprs(toks, Some((syntaxes_m(items@), p as int))),
        decreases src.toks@.len() - p,
    {
        let ghost before = syntaxes_m(items@);
        let (e, q) = match parse_expr(src, p) {
            Ok(x) => x,
            Err(e) => { return Err(e); },
        };
        items.push(e);
        proof {
            assert(syntaxes_m(items@) =~= before.push(e@));
        }
        p = q;
        if is_kind(src, p, TokKind::Comma) {
            p = p + 1;
        } else {
            break;
        }
    }
    let p = match expect(src, p, TokKind::RParen, "Expected `)`") {
        Ok(p) => p,
        Err(e) => { return Err(e); },
    };
    if items.len() == 1 {
        proof {
            assert(syntaxes_m(items@)[0] == items@[0]@);
        }
        let e = items.pop().unwrap();
        Ok((e, p))
    } else {
        Ok((Syntax::Tuple(items), p))
    }
}

/// A text parses when it splits into tokens and the grammar derives one
/// expression from all of them.
pub open spec fn parses<N: Scalar>(cs: Seq<char>) -> bool {
    &&& lex(cs) is Some
    &&& lex(cs)->0.len() < usize::MAX
    &&& g_expr::<N>(cs, lex(cs)->0, 0) matches Some((_, q)) && q == lex(cs)->0.len()
}

/// Parses program text into surface syntax.  Infix operators become
/// curried applications of the built-in operators, left to right, with
/// `*` and `/` binding tighter than `+` and `-`, and those tighter than
/// comparisons; accessors such as `.norm` become applications of the
/// built-in of that name.  The whole text must be one expression.
pub fn parse<N: Scalar>(input: &str) -> (r: Result<Syntax<N>, ParseError>)
    ensures
        r is Ok ==> forall|k: int| 0 <= k < input@.len() ==> is_program_char(#[trigger] input@[k]),
        r is Ok <==> parses::<N>(input@),
        r matches Ok(s) ==> g_expr::<N>(input@, lex(input@)->0, 0) == Some((s@, lex(input@)->0.len() as int)),
{
    let cs = chars_of(input);
    let toks = match tokenize(&cs) {
        Ok(t) => t,
        Err(e) => { return Err(e); },
    };
    if toks.len() == usize::MAX {
        return Err(String::from_str("Program too long"));
    }
    let src = Source { text: input, cs, toks };
    let (s, p) = match parse_expr(&src, 0) {
        Ok(x) => x,
        Err(e) => { return Err(e); },
    };
    if p != src.toks.len() {
        return Err(error_at("Unexpected text after the expression", p));
    }
    Ok(s)
}

} // verus!
