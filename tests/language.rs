use dusk_phantom::lang::elaborate::Ctx;
use dusk_phantom::lang::spectral_type;
use dusk_phantom::lang::CharList;
use dusk_phantom::lang::{
    check, eval, infer, parse, peval, quote, run, run_with, simp, unify, Env, EvalError, Extern, Lib, Resource,
    Scalar, Syntax, Term, Value, ValueType, CALL_DEPTH,
};
use realfft::num_complex::Complex32;

/// Single-precision numbers for the language.
#[derive(Clone, Copy, PartialEq, Debug)]
struct F(f32);

impl Scalar for F {
    fn from_int(i: i32) -> Self {
        F(i as f32)
    }
    fn from_int_spec(i: i32) -> Self {
        F(i as f32)
    }
    fn from_literal(text: &str) -> Self {
        F(text.parse().unwrap_or(0.0))
    }
    fn from_literal_spec(text: CharList) -> Self {
        let mut s = String::new();
        let mut rest = &text;
        while let CharList::Cons(c, tail) = rest {
            s.push(*c);
            rest = tail;
        }
        F::from_literal(&s)
    }
    fn zero() -> Self {
        F(0.0)
    }
    fn zero_spec() -> Self {
        F(0.0)
    }
    fn one() -> Self {
        F(1.0)
    }
    fn one_spec() -> Self {
        F(1.0)
    }
    fn half() -> Self {
        F(0.5)
    }
    fn half_spec() -> Self {
        F(0.5)
    }
    fn pi() -> Self {
        F(std::f32::consts::PI)
    }
    fn pi_spec() -> Self {
        F(std::f32::consts::PI)
    }
    fn plus(&self, o: &Self) -> Self {
        F(self.0 + o.0)
    }
    fn plus_spec(self, o: Self) -> Self {
        F(self.0 + o.0)
    }
    fn minus(&self, o: &Self) -> Self {
        F(self.0 - o.0)
    }
    fn minus_spec(self, o: Self) -> Self {
        F(self.0 - o.0)
    }
    fn times(&self, o: &Self) -> Self {
        F(self.0 * o.0)
    }
    fn times_spec(self, o: Self) -> Self {
        F(self.0 * o.0)
    }
    fn divide(&self, o: &Self) -> Self {
        F(self.0 / o.0)
    }
    fn divide_spec(self, o: Self) -> Self {
        F(self.0 / o.0)
    }
    fn remainder(&self, o: &Self) -> Self {
        F(self.0 % o.0)
    }
    fn remainder_spec(self, o: Self) -> Self {
        F(self.0 % o.0)
    }
    fn sin(&self) -> Self {
        F(self.0.sin())
    }
    fn sin_spec(self) -> Self {
        F(self.0.sin())
    }
    fn cos(&self) -> Self {
        F(self.0.cos())
    }
    fn cos_spec(self) -> Self {
        F(self.0.cos())
    }
    fn sqrt(&self) -> Self {
        F(self.0.sqrt())
    }
    fn sqrt_spec(self) -> Self {
        F(self.0.sqrt())
    }
    fn atan2(&self, x: &Self) -> Self {
        F(self.0.atan2(x.0))
    }
    fn atan2_spec(self, x: Self) -> Self {
        F(self.0.atan2(x.0))
    }
    fn less(&self, o: &Self) -> bool {
        self.0 < o.0
    }
    fn less_spec(self, o: Self) -> bool {
        self.0 < o.0
    }
    fn less_eq(&self, o: &Self) -> bool {
        self.0 <= o.0
    }
    fn less_eq_spec(self, o: Self) -> bool {
        self.0 <= o.0
    }
    fn is_zero(&self) -> bool {
        self.0 == 0.0
    }
    fn is_zero_spec(self) -> bool {
        self.0 == 0.0
    }
    fn floor_index(&self) -> usize {
        self.0.floor() as usize
    }
    fn floor_index_spec(self) -> usize {
        self.0.floor() as usize
    }
    fn ceil_index(&self) -> usize {
        self.0.ceil() as usize
    }
    fn ceil_index_spec(self) -> usize {
        self.0.ceil() as usize
    }
    fn fract(&self) -> Self {
        F(self.0.fract())
    }
    fn fract_spec(self) -> Self {
        F(self.0.fract())
    }
    fn text(&self) -> String {
        format!("{:.3}", self.0)
    }
    fn text_spec(self) -> CharList {
        let mut list = CharList::Empty;
        for c in self.text().chars().rev() {
            list = CharList::Cons(c, Box::new(list));
        }
        list
    }
}

fn float_type() -> Box<ValueType> {
    Box::new(ValueType::Float)
}

fn func(p: ValueType, r: ValueType) -> ValueType {
    ValueType::Func(Box::new(p), Box::new(r))
}

fn complex() -> ValueType {
    ValueType::Tuple(vec![ValueType::Float, ValueType::Float])
}

fn no_resource() -> Resource<F> {
    Resource::empty()
}

fn pairs(cs: &[Complex32]) -> Vec<(F, F)> {
    cs.iter().map(|c| (F(c.re), F(c.im))).collect()
}

fn float_of(v: &Value<F>) -> f32 {
    match v {
        Value::Float(x) => x.0,
        Value::Int(i) => *i as f32,
        other => panic!("not a number: {:?}", other),
    }
}

// ---- elaboration ----

#[test]
fn elaborate_test_minimal() {
    let code = Syntax::Float(F(80.0));
    match infer(code, Ctx::new(), 0) {
        Ok((term, value_type)) => {
            assert_eq!(term, Term::Float(F(80.0)));
            assert_eq!(value_type, ValueType::Float);
        }
        Err(err) => panic!("failed to infer: {}", err),
    }
}

#[test]
fn elaborate_test_func() {
    let code: Syntax<F> = Syntax::Func(float_type(), "x".to_string(), Box::new(Syntax::Var("x".to_string())));
    match infer(code, Ctx::new(), 0) {
        Ok((term, value_type)) => {
            assert_eq!(term, Term::Func(float_type(), "x".to_string(), Box::new(Term::Var(0))));
            assert_eq!(value_type, ValueType::Func(Box::new(ValueType::Float), Box::new(ValueType::Float)));
        }
        Err(err) => panic!("failed to infer: {}", err),
    }
}

#[test]
fn elaborate_test_let() {
    let code = Syntax::Let(
        float_type(),
        "x".to_string(),
        Box::new(Syntax::Float(F(80.0))),
        Box::new(Syntax::Var("x".to_string())),
    );
    match infer(code, Ctx::new(), 0) {
        Ok((term, value_type)) => {
            assert_eq!(
                term,
                Term::Let(ValueType::Float.into(), "x".to_string(), Box::new(Term::Float(F(80.0))), Box::new(Term::Var(0)))
            );
            assert_eq!(value_type, ValueType::Float);
        }
        Err(err) => panic!("failed to infer: {}", err),
    }
}

#[test]
fn test_sin() {
    let code = Syntax::Apply(Box::new(Syntax::Lib(Lib::Sin)), Box::new(Syntax::Float(F(80.0))));
    match infer(code, Ctx::new(), 0) {
        Ok((term, value_type)) => {
            assert_eq!(term, Term::Apply(Box::new(Term::Lib(Lib::Sin)), Box::new(Term::Float(F(80.0)))));
            assert_eq!(value_type, ValueType::Float);
        }
        Err(err) => panic!("failed to infer: {}", err),
    }
}

#[test]
fn elaborate_test_alt() {
    let code = Syntax::Alt(
        Box::new(Syntax::Bool(true)),
        Box::new(Syntax::Float(F(80.0))),
        Box::new(Syntax::Float(F(90.0))),
    );
    match infer(code, Ctx::new(), 0) {
        Ok((term, value_type)) => {
            assert_eq!(
                term,
                Term::Alt(Box::new(Term::Bool(true)), Box::new(Term::Float(F(80.0))), Box::new(Term::Float(F(90.0))))
            );
            assert_eq!(value_type, ValueType::Float);
        }
        Err(err) => panic!("failed to infer: {}", err),
    }
}

#[test]
fn elaborate_test_tuple() {
    let code = Syntax::Tuple(vec![Syntax::Float(F(80.0)), Syntax::Float(F(90.0))]);
    match infer(code, Ctx::new(), 0) {
        Ok((term, value_type)) => {
            assert_eq!(term, Term::Tuple(vec![Term::Float(F(80.0)), Term::Float(F(90.0))]));
            assert_eq!(value_type, ValueType::Tuple(vec![ValueType::Float, ValueType::Float]));
        }
        Err(err) => panic!("failed to infer: {}", err),
    }
}

// ---- partial evaluation ----

#[test]
fn eval_test_minimal() {
    let code = Term::Float(F(80.0));
    let mut env: Env<F> = Env::new();
    match peval(&code, &mut env, CALL_DEPTH) {
        Ok(Value::Float(x)) => assert_eq!(x, F(80.0)),
        result => panic!("result of {:?} is not float: {:?}", code, result),
    }
}

#[test]
fn eval_test_numeric() {
    let code = Term::Apply(
        Term::Apply(Box::new(Term::Lib(Lib::Mul)), Box::new(Term::Float(F(1.4)))).into(),
        Term::Apply(
            Term::Apply(Box::new(Term::Lib(Lib::Add)), Box::new(Term::Float(F(2.0)))).into(),
            Term::Float(F(3.0)).into(),
        )
        .into(),
    );
    let mut env: Env<F> = Env::new();
    match peval(&code, &mut env, CALL_DEPTH) {
        Ok(Value::Float(x)) => assert_eq!(x, F(7.0)),
        result => panic!("result of {:?} is not float: {:?}", code, result),
    }
}

#[test]
fn eval_test_id() {
    let code = Term::Apply(
        Box::new(Term::Func(float_type(), "x".to_string(), Box::new(Term::Var(0)))),
        Box::new(Term::Float(F(1.4))),
    );
    let mut env: Env<F> = Env::new();
    match peval(&code, &mut env, CALL_DEPTH) {
        Ok(Value::Float(x)) => assert_eq!(x, F(1.4)),
        result => panic!("result of {:?} is not float: {:?}", code, result),
    }
}

#[test]
fn eval_test_let() {
    let code = Term::Let(ValueType::Float.into(), "x".to_string(), Box::new(Term::Float(F(80.0))), Box::new(Term::Var(0)));
    let mut env: Env<F> = Env::new();
    match peval(&code, &mut env, CALL_DEPTH) {
        Ok(Value::Float(x)) => assert_eq!(x, F(80.0)),
        result => panic!("result of {:?} is not float: {:?}", code, result),
    }
}

#[test]
fn eval_test_alt() {
    let code = Term::Alt(Box::new(Term::Bool(true)), Box::new(Term::Float(F(80.0))), Box::new(Term::Float(F(90.0))));
    let mut env: Env<F> = Env::new();
    match peval(&code, &mut env, CALL_DEPTH) {
        Ok(Value::Float(x)) => assert_eq!(x, F(80.0)),
        result => panic!("result of {:?} is not float: {:?}", code, result),
    }
}

#[test]
fn eval_test_tuple() {
    let code = Term::Tuple(vec![Term::Float(F(80.0)), Term::Float(F(90.0))]);
    let mut env: Env<F> = Env::new();
    match peval(&code, &mut env, CALL_DEPTH) {
        Ok(Value::Tuple(mut values)) => {
            assert_eq!(values.len(), 2);
            match values.pop().unwrap() {
                Value::Float(x) => assert_eq!(x, F(90.0)),
                result => panic!("result of {:?} is not float: {:?}", code, result),
            }
            match values.pop().unwrap() {
                Value::Float(x) => assert_eq!(x, F(80.0)),
                result => panic!("result of {:?} is not float: {:?}", code, result),
            }
        }
        result => panic!("result of {:?} is not tuple: {:?}", code, result),
    }
}

// ---- parsing ----

fn parsed(code: &str) -> Syntax<F> {
    match parse(code) {
        Ok(result) => result,
        Err(err) => panic!("failed to parse {}: {}", code, err),
    }
}

#[test]
fn parse_test_minimal() {
    assert_eq!(parsed("80"), Syntax::Float(F(80.0)));
}

#[test]
fn parse_test_numeric() {
    assert_eq!(
        parsed("1.4*(2+3)"),
        Syntax::Apply(
            Syntax::Apply(Box::new(Syntax::Lib(Lib::Mul)), Box::new(Syntax::Float(F(1.4)))).into(),
            Syntax::Apply(
                Syntax::Apply(Box::new(Syntax::Lib(Lib::Add)), Box::new(Syntax::Float(F(2.0)))).into(),
                Syntax::Float(F(3.0)).into(),
            )
            .into(),
        )
    );
}

#[test]
fn parse_test_func() {
    assert_eq!(
        parsed("(x: float) => x"),
        Syntax::Func(float_type(), "x".to_string(), Box::new(Syntax::Var("x".to_string())))
    );
}

#[test]
fn parse_test_id() {
    assert_eq!(
        parsed("((x: float) => x)(1.4)"),
        Syntax::Apply(
            Box::new(Syntax::Func(float_type(), "x".to_string(), Box::new(Syntax::Var("x".to_string())))),
            Box::new(Syntax::Float(F(1.4))),
        )
    );
}

#[test]
fn test_apply() {
    assert_eq!(
        parsed("(f: float -> float) => (x: float) => f(x)"),
        Syntax::Func(
            Box::new(ValueType::Func(Box::new(ValueType::Float), Box::new(ValueType::Float))),
            "f".to_string(),
            Box::new(Syntax::Func(
                float_type(),
                "x".to_string(),
                Box::new(Syntax::Apply(
                    Box::new(Syntax::Var("f".to_string())),
                    Box::new(Syntax::Var("x".to_string())),
                )),
            )),
        )
    );
}

#[test]
fn parse_test_let() {
    assert_eq!(
        parsed("let x: float = 80 in x"),
        Syntax::Let(
            float_type(),
            "x".to_string(),
            Box::new(Syntax::Float(F(80.0))),
            Box::new(Syntax::Var("x".to_string())),
        )
    );
}

#[test]
fn parse_test_alt() {
    assert_eq!(
        parsed("if 1.4 < 2.0 then 1.4 else 2.0"),
        Syntax::Alt(
            Box::new(Syntax::Apply(
                Box::new(Syntax::Apply(Box::new(Syntax::Lib(Lib::Lt)), Box::new(Syntax::Float(F(1.4))))),
                Box::new(Syntax::Float(F(2.0))),
            )),
            Box::new(Syntax::Float(F(1.4))),
            Box::new(Syntax::Float(F(2.0))),
        )
    );
}

// ---- normalization ----

#[test]
fn test_quote() {
    let code = Term::Float(F(80.0));
    let result = quote(0, Value::Float(F(80.0)), CALL_DEPTH).unwrap();
    assert_eq!(code, result);
}

#[test]
fn test_simp() {
    let code = Term::Func(ValueType::Float.into(), "".into(), Term::Float(F(800.0)).into());
    let result = simp(
        &Term::Func(
            ValueType::Float.into(),
            "".into(),
            Term::Apply(
                Term::Func(ValueType::Float.into(), "".into(), Box::new(Term::Var(0))).into(),
                Box::new(Term::Float(F(800.0))),
            )
            .into(),
        ),
        CALL_DEPTH,
    )
    .unwrap();
    assert_eq!(code, result);
}

// ---- whole programs ----

#[test]
fn test_lp() {
    let len = 1024;
    let complex_vec: Vec<Complex32> = vec![Complex32::new(1.0, 0.0); len];
    let norms = pairs(&complex_vec);
    let code = "let lp: Float -> Float -> Float = (l: Float) => (i: Float) => if i < l then 1 else 0 in (f: Float -> (Float, Float)) => (i: Float) => (f(i).norm * lp(800)(i), f(i).angle).polar";
    let code_value: Value<F> = match run_with(code, &spectral_type()) {
        Ok(x) => x,
        Err(err) => panic!("failed to run code: {}", err),
    };
    let res = no_resource();
    let mut program = code_value.apply(Value::Extern(Extern::ComplexArray(norms)), &res, CALL_DEPTH).unwrap();
    let result = program.collect(0, len, &res).unwrap();
    for res in &result[0..800] {
        let Value::Tuple(xs) = res else {
            panic!("result is not complex: {:?}", res);
        };
        let Value::Float(re) = xs[0] else {
            panic!("real part is not float: {:?}", xs[0]);
        };
        let Value::Float(im) = xs[1] else {
            panic!("imaginary part is not float: {:?}", xs[1]);
        };
        assert_eq!(re, F(1.0));
        assert_eq!(im, F(0.0));
    }
    for res in &result[800..len] {
        let Value::Tuple(xs) = res else {
            panic!("result is not complex: {:?}", res);
        };
        let Value::Float(re) = xs[0] else {
            panic!("real part is not float: {:?}", xs[0]);
        };
        let Value::Float(im) = xs[1] else {
            panic!("imaginary part is not float: {:?}", xs[1]);
        };
        assert_eq!(re, F(0.0));
        assert_eq!(im, F(0.0));
    }
}

fn filter_type() -> ValueType {
    func(func(ValueType::Float, ValueType::Float), func(ValueType::Float, ValueType::Float))
}

const LOW_PASS: &str = "let lp: Float -> Float -> Float = (l: Float) => (i: Float) => if i < l then 1 else 0 in (f: Float -> Float) => (i: Float) => f(i) * lp(24)(i)";

#[test]
fn low_pass_keeps_the_first_bins() {
    let code_value: Value<F> = run_with(LOW_PASS, &filter_type()).unwrap();
    let res = no_resource();
    let input = vec![F(1.0); 1024];
    let mut program = code_value.apply(Value::Extern(Extern::FloatArray(input)), &res, CALL_DEPTH).unwrap();
    let out = program.collect(0, 1024, &res).unwrap();
    assert_eq!(out.len(), 1024);
    for (i, v) in out.iter().enumerate() {
        let expected = if i < 24 { 1.0 } else { 0.0 };
        assert_eq!(float_of(v), expected, "index {}", i);
    }
}

#[test]
fn normalized_program_agrees_with_direct_evaluation() {
    let syntax: Syntax<F> = parse(LOW_PASS).unwrap();
    let term = check(syntax, Ctx::new(), filter_type(), 0).unwrap();
    let res = no_resource();
    let input: Vec<F> = (0..64).map(|k| F((k as f32) * 0.25 - 3.0)).collect();
    let mut env: Env<F> = Env::new();
    let direct = eval(&term, &mut env, &res, CALL_DEPTH).unwrap();
    let mut direct = direct.apply(Value::Extern(Extern::FloatArray(input.clone())), &res, CALL_DEPTH).unwrap();
    let simplified = run_with::<F>(LOW_PASS, &filter_type()).unwrap();
    let mut simplified = simplified.apply(Value::Extern(Extern::FloatArray(input)), &res, CALL_DEPTH).unwrap();
    for i in 0..64 {
        let a = direct.apply_ref(Value::Int(i), &res, CALL_DEPTH).unwrap();
        let b = simplified.apply_ref(Value::Int(i), &res, CALL_DEPTH).unwrap();
        assert_eq!(a, b, "index {}", i);
        let x = Value::Float(F(i as f32 + 0.5));
        let a = direct.apply_ref(x, &res, CALL_DEPTH).unwrap();
        let b = simplified.apply_ref(Value::Float(F(i as f32 + 0.5)), &res, CALL_DEPTH).unwrap();
        assert_eq!(a, b, "index {}.5", i);
    }
}

#[test]
fn dead_branches_are_dropped() {
    let a = Term::Func(
        float_type(),
        "x".to_string(),
        Box::new(Term::Apply(
            Box::new(Term::Apply(Box::new(Term::Lib(Lib::Add)), Box::new(Term::Var(0)))),
            Box::new(Term::Apply(
                Box::new(Term::Apply(Box::new(Term::Lib(Lib::Mul)), Box::new(Term::Float(F(2.0))))),
                Box::new(Term::Float(F(3.0))),
            )),
        )),
    );
    let b = Term::Func(float_type(), "y".to_string(), Box::new(Term::Float(F(9.0))));
    let pick_a = Term::Alt(Box::new(Term::Bool(true)), Box::new(copy_term(&a)), Box::new(copy_term(&b)));
    let pick_b = Term::Alt(Box::new(Term::Bool(false)), Box::new(copy_term(&a)), Box::new(copy_term(&b)));
    assert_eq!(simp(&pick_a, CALL_DEPTH), simp(&a, CALL_DEPTH));
    assert_eq!(simp(&pick_b, CALL_DEPTH), simp(&b, CALL_DEPTH));
    // the known product inside the kept branch is folded
    assert_eq!(
        simp(&a, CALL_DEPTH).unwrap(),
        Term::Func(
            float_type(),
            "".to_string(),
            Box::new(Term::Apply(
                Box::new(Term::Apply(Box::new(Term::Lib(Lib::Add)), Box::new(Term::Var(0)))),
                Box::new(Term::Float(F(6.0))),
            )),
        )
    );
}

fn copy_term(t: &Term<F>) -> Term<F> {
    t.copy()
}

#[test]
fn curried_add_matches_direct_addition() {
    let step = Lib::Add.papply(Value::Float(F(3.0))).unwrap();
    assert_eq!(step, Value::Lib(Lib::Add1(F(3.0))));
    let Value::Lib(add3) = step else { panic!("not curried") };
    assert_eq!(add3.papply(Value::Float(F(4.0))).unwrap(), Value::Float(F(7.0)));
    let direct = Term::Apply(
        Box::new(Term::Apply(Box::new(Term::Lib(Lib::Add)), Box::new(Term::Float(F(3.0))))),
        Box::new(Term::Float(F(4.0))),
    );
    let mut env: Env<F> = Env::new();
    assert_eq!(eval(&direct, &mut env, &no_resource(), CALL_DEPTH).unwrap(), Value::Float(F(7.0)));
    // integer operands curry to the integer tags
    assert_eq!(Lib::<F>::Add.papply(Value::Int(3)).unwrap(), Value::Lib(Lib::AddI(3)));
    assert_eq!(Lib::<F>::AddI(3).papply(Value::Int(4)).unwrap(), Value::Int(7));
}

fn mentions_fft(t: &Term<F>) -> bool {
    match t {
        Term::Lib(Lib::Fft) => true,
        Term::Tuple(ts) => ts.iter().any(mentions_fft),
        Term::Apply(f, a) => mentions_fft(f) || mentions_fft(a),
        Term::Func(_, _, b) => mentions_fft(b),
        Term::Let(_, _, v, b) => mentions_fft(v) || mentions_fft(b),
        Term::Alt(c, a, b) => mentions_fft(c) || mentions_fft(a) || mentions_fft(b),
        _ => false,
    }
}

fn mentions_float(t: &Term<F>, x: f32) -> bool {
    match t {
        Term::Float(y) => y.0 == x,
        Term::Tuple(ts) => ts.iter().any(|t| mentions_float(t, x)),
        Term::Apply(f, a) => mentions_float(f, x) || mentions_float(a, x),
        Term::Func(_, _, b) => mentions_float(b, x),
        Term::Let(_, _, v, b) => mentions_float(v, x) || mentions_float(b, x),
        Term::Alt(c, a, b) => mentions_float(c, x) || mentions_float(a, x) || mentions_float(b, x),
        _ => false,
    }
}

#[test]
fn spectral_reads_stay_for_evaluation() {
    let syntax: Syntax<F> = parse("(i: Float) => spectralBin(i).re * (1 + 1)").unwrap();
    let term = check(syntax, Ctx::new(), func(ValueType::Float, ValueType::Float), 0).unwrap();
    let simple = simp(&term, CALL_DEPTH).unwrap();
    assert!(mentions_fft(&simple));
    assert!(mentions_float(&simple, 2.0));
    assert!(!mentions_float(&simple, 1.0));
    let res = Resource { fft: vec![(F(5.0), F(1.0)), (F(7.0), F(2.0))], modulation: vec![], beat: F(0.0), second: F(0.0) };
    let mut env: Env<F> = Env::new();
    let mut f = eval(&simple, &mut env, &res, CALL_DEPTH).unwrap();
    assert_eq!(f.apply_ref(Value::Int(1), &res, CALL_DEPTH).unwrap(), Value::Float(F(14.0)));
}

#[test]
fn fractional_index_uses_raised_cosine() {
    let res = Resource { fft: vec![(F(1.0), F(0.0)), (F(3.0), F(0.0))], modulation: vec![], beat: F(0.0), second: F(0.0) };
    for frac in [0.5f32, 0.25] {
        let got = Lib::Fft.apply(Value::Float(F(frac)), &res).unwrap();
        let w = (1.0 - (frac * std::f32::consts::PI).cos()) * 0.5;
        let expected = 1.0 + (3.0 - 1.0) * w;
        let Value::Tuple(xs) = got else { panic!("not complex") };
        assert_eq!(float_of(&xs[0]), expected);
        assert_eq!(float_of(&xs[1]), 0.0);
    }
    let at_half = Lib::Fft.apply(Value::Float(F(0.5)), &res).unwrap();
    let Value::Tuple(xs) = at_half else { panic!("not complex") };
    assert!((float_of(&xs[0]) - 2.0).abs() < 1e-6);
    let at_quarter = Lib::Fft.apply(Value::Float(F(0.25)), &res).unwrap();
    let Value::Tuple(xs) = at_quarter else { panic!("not complex") };
    assert!((float_of(&xs[0]) - 1.5).abs() > 0.1);
    // integer index reads the cell; past the end reads zero
    assert_eq!(
        Lib::Fft.apply(Value::Int(1), &res).unwrap(),
        Value::Tuple(vec![Value::Float(F(3.0)), Value::Float(F(0.0))])
    );
    assert_eq!(
        Lib::Fft.apply(Value::Int(2), &res).unwrap(),
        Value::Tuple(vec![Value::Float(F(0.0)), Value::Float(F(0.0))])
    );
    let arr = Extern::FloatArray(vec![F(1.0), F(3.0)]);
    assert_eq!(arr.apply(&Value::Float(F(1.5))).unwrap(), Value::Float(F(0.0)));
    assert_eq!(arr.apply(&Value::Int(-1)).unwrap(), Value::Float(F(0.0)));
}

#[test]
fn well_typed_programs_evaluate_to_their_shapes() {
    let syntax: Syntax<F> = parse("let p: (Float, Float) = (1, 2) in (p.norm, p.polar, 3 < 4, (x: Float) => x)").unwrap();
    let (term, ty) = infer(syntax, Ctx::new(), 0).unwrap();
    assert_eq!(
        ty,
        ValueType::Tuple(vec![ValueType::Float, complex(), ValueType::Bool, func(ValueType::Float, ValueType::Float)])
    );
    let mut env: Env<F> = Env::new();
    let v = eval(&term, &mut env, &no_resource(), CALL_DEPTH).unwrap();
    let Value::Tuple(xs) = v else { panic!("not a tuple") };
    assert_eq!(xs.len(), 4);
    assert!(matches!(xs[0], Value::Float(_)));
    assert!(matches!(&xs[1], Value::Tuple(ys) if ys.len() == 2));
    assert_eq!(xs[2], Value::Bool(true));
    assert!(matches!(xs[3], Value::Func(_, _)));
}

#[test]
fn resource_values_are_read_at_evaluation() {
    let syntax: Syntax<F> = parse("(i: Float) => beat + sec * 2").unwrap();
    let term = check(syntax, Ctx::new(), func(ValueType::Float, ValueType::Float), 0).unwrap();
    let simple = simp(&term, CALL_DEPTH).unwrap();
    let res = Resource { fft: vec![], modulation: vec![], beat: F(1.5), second: F(10.0) };
    let mut env: Env<F> = Env::new();
    let mut f = eval(&simple, &mut env, &res, CALL_DEPTH).unwrap();
    assert_eq!(f.apply_ref(Value::Int(0), &res, CALL_DEPTH).unwrap(), Value::Float(F(21.5)));
}

// ---- errors ----

#[test]
fn malformed_text_is_a_parse_error() {
    assert!(parse::<F>("(1, ").is_err());
    assert!(parse::<F>("let x = 1 in x").is_err());
    assert!(parse::<F>("1 $ 2").is_err());
    assert!(parse::<F>("").is_err());
    assert!(run::<F>("1 +").unwrap_err().starts_with("Parse error: "));
}

#[test]
fn elaboration_errors() {
    let e = infer(Syntax::<F>::Var("y".to_string()), Ctx::new(), 0).unwrap_err();
    assert_eq!(e, "Variable not found: y");
    let e = infer(parsed("1(2)"), Ctx::new(), 0).unwrap_err();
    assert!(e.starts_with("Not a function"));
    let e = check(parsed("true"), Ctx::new(), ValueType::Float, 0).unwrap_err();
    assert_eq!(e, "Type mismatch: Bool != Float");
    let e = infer(parsed("if true then (1, 2) else (1, 2, 3)"), Ctx::new(), 0).unwrap_err();
    assert_eq!(e, "Tuple length mismatch: 2 != 3");
    let e = infer(parsed("if 1 then 1 else 2"), Ctx::new(), 0).unwrap_err();
    assert!(e.starts_with("Type mismatch"));
    let e = run::<F>("(i: Float) => i").unwrap_err();
    assert!(e.starts_with("Elaborate error: "));
}

#[test]
fn evaluation_errors() {
    let mut env: Env<F> = Env::new();
    let res = no_resource();
    assert_eq!(eval(&Term::Var(3), &mut env, &res, CALL_DEPTH), Err(EvalError::VarNotFound));
    let bad_cond = Term::Alt(Box::new(Term::Float(F(1.0))), Box::new(Term::Bool(true)), Box::new(Term::Bool(false)));
    assert_eq!(eval(&bad_cond, &mut env, &res, CALL_DEPTH), Err(EvalError::NotBool));
    assert_eq!(Lib::<F>::Sin.papply(Value::Bool(true)), Err(EvalError::BadArgument));
    let id = Term::Func(float_type(), "x".to_string(), Box::new(Term::Var(0)));
    let f = eval(&id, &mut env, &res, CALL_DEPTH).unwrap();
    assert_eq!(f.apply(Value::Float(F(1.0)), &res, 0), Err(EvalError::DepthExhausted));
    assert!(env.is_empty());
}

#[test]
fn symbolic_operands_stay_stuck() {
    let stuck = Lib::<F>::Add.papply(Value::Var(0)).unwrap();
    assert_eq!(stuck, Value::Apply(Box::new(Value::Lib(Lib::Add)), vec![Value::Var(0)]));
    assert_eq!(
        Lib::<F>::Fft.papply(Value::Float(F(1.0))).unwrap(),
        Value::Apply(Box::new(Value::Lib(Lib::Fft)), vec![Value::Float(F(1.0))])
    );
    assert!(Value::<F>::Tuple(vec![Value::Float(F(1.0)), Value::Var(2)]).is_symbol());
    assert!(!Value::<F>::Tuple(vec![Value::Float(F(1.0)), Value::Int(2)]).is_symbol());
    assert_eq!(quote(1, Value::<F>::Var(0), CALL_DEPTH), Ok(Term::Var(0)));
    assert_eq!(quote(1, Value::<F>::Var(1), CALL_DEPTH), Err(EvalError::VarNotFound));
}

// ---- types ----

#[test]
fn types_print_and_unify() {
    assert_eq!(func(ValueType::Float, ValueType::Float).pretty_term(), "Float -> Float");
    assert_eq!(complex().pretty_term(), "(Float, Float)");
    assert_eq!(func(func(ValueType::Float, ValueType::Float), ValueType::Bool).pretty_term(), "(Float -> Float) -> Bool");
    assert_eq!(func(ValueType::Float, ValueType::Bool).pretty_atom(), "(Float -> Bool)");
    assert_eq!(ValueType::Bool.pretty_atom(), "Bool");
    assert_eq!(unify(complex(), complex()), Ok(complex()));
    assert!(unify(ValueType::Float, ValueType::Bool).is_err());
    assert!(unify(complex(), ValueType::Tuple(vec![ValueType::Float])).is_err());
    assert!(unify(func(ValueType::Float, ValueType::Float), func(ValueType::Float, ValueType::Bool)).is_err());
    assert_eq!(dusk_phantom::lang::target_type(), func(ValueType::Float, complex()));
    assert_eq!(spectral_type(), func(func(ValueType::Float, complex()), func(ValueType::Float, complex())));
    assert_eq!(
        unify(ValueType::Tuple(vec![ValueType::Float]), complex()),
        Err("Tuple length mismatch: 1 != 2".to_string())
    );
}

#[test]
fn type_annotations_parse() {
    let s = parsed("(f: (Float, Bool) -> Float -> Bool) => f");
    let Syntax::Func(t, name, _) = s else { panic!("not a function literal") };
    assert_eq!(name, "f");
    assert_eq!(
        *t,
        func(ValueType::Tuple(vec![ValueType::Float, ValueType::Bool]), func(ValueType::Float, ValueType::Bool))
    );
    let s = parsed("(x: (Float)) => x");
    let Syntax::Func(t, _, _) = s else { panic!("not a function literal") };
    assert_eq!(*t, ValueType::Float);
    assert!(parse::<F>("(x: Int) => x").is_err());
}

#[test]
fn zero_divisors_and_integer_arithmetic() {
    assert_eq!(Lib::Div1(F(3.0)).papply(Value::Float(F(0.0))).unwrap(), Value::Float(F(0.0)));
    assert_eq!(Lib::Mod1(F(3.0)).papply(Value::Float(F(0.0))).unwrap(), Value::Float(F(0.0)));
    assert_eq!(Lib::Div1(F(3.0)).papply(Value::Int(0)).unwrap(), Value::Float(F(0.0)));
    assert_eq!(Lib::<F>::DivI(3).papply(Value::Int(0)).unwrap(), Value::Float(F(0.0)));
    assert_eq!(Lib::<F>::ModI(3).papply(Value::Int(0)).unwrap(), Value::Int(0));
    assert_eq!(Lib::<F>::ModI(-7).papply(Value::Int(3)).unwrap(), Value::Int(-1));
    assert_eq!(Lib::<F>::SubI(2).papply(Value::Int(5)).unwrap(), Value::Int(-3));
    assert_eq!(Lib::<F>::MulI(4).papply(Value::Int(5)).unwrap(), Value::Int(20));
    assert_eq!(Lib::<F>::DivI(7).papply(Value::Int(2)).unwrap(), Value::Float(F(3.5)));
    assert_eq!(Lib::<F>::AddI(2).papply(Value::Float(F(0.5))).unwrap(), Value::Float(F(2.5)));
    assert_eq!(Lib::<F>::LtI(2).papply(Value::Int(3)).unwrap(), Value::Bool(true));
}

#[test]
fn stuck_applications_take_arguments() {
    let res = no_resource();
    let stuck = Value::<F>::Apply(Box::new(Value::Var(0)), vec![Value::Int(1)]);
    assert_eq!(
        stuck.apply(Value::Int(2), &res, CALL_DEPTH).unwrap(),
        Value::Apply(Box::new(Value::Var(0)), vec![Value::Int(1), Value::Int(2)])
    );
    assert_eq!(
        Value::<F>::Bool(true).apply(Value::Int(2), &res, CALL_DEPTH).unwrap(),
        Value::Apply(Box::new(Value::Bool(true)), vec![Value::Int(2)])
    );
}

#[test]
fn per_bin_programs_read_the_frame() {
    let code_value: Value<F> = run("(i: Float) => (fft(i).re * 2, fft(i).im)").unwrap();
    let res = Resource { fft: vec![(F(1.0), F(5.0)), (F(3.0), F(6.0))], modulation: vec![], beat: F(0.0), second: F(0.0) };
    let mut program = code_value;
    let out = program.collect(0, 3, &res).unwrap();
    assert_eq!(out[0], Value::Tuple(vec![Value::Float(F(2.0)), Value::Float(F(5.0))]));
    assert_eq!(out[1], Value::Tuple(vec![Value::Float(F(6.0)), Value::Float(F(6.0))]));
    assert_eq!(out[2], Value::Tuple(vec![Value::Float(F(0.0)), Value::Float(F(0.0))]));
    let e = run::<F>("1").unwrap_err();
    assert!(e.starts_with("Elaborate error: "));
}

#[test]
fn terms_print_as_programs() {
    let id = Term::Func(float_type(), "x".to_string(), Box::new(Term::Var(0)));
    assert_eq!(id.pretty_term(), "(x: Float) => 0");
    let alt = Term::Alt(Box::new(Term::Bool(true)), Box::new(Term::Float(F(80.0))), Box::new(Term::Float(F(90.0))));
    assert_eq!(alt.pretty_term(), "if true then 80.000 else 90.000");
    let app = Term::Apply(Box::new(id), Box::new(Term::Float(F(1.4))));
    assert_eq!(app.pretty_term(), "((x: Float) => 0)(1.400)");
    assert_eq!(Lib::Add1(F(3.0)).text(), "add(3.000)");
    assert_eq!(Lib::<F>::SubI(-2).text(), "sub(-2)");
}
