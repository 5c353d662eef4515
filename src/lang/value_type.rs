use vstd::prelude::*;

verus! {

/// The types of the language.
#[derive(PartialEq, Debug)]
pub enum ValueType {
    Float,
    Bool,
    Tuple(Vec<ValueType>),
    Func(Box<ValueType>, Box<ValueType>),
}

/// The mathematical model of a `ValueType`: the same tree, with sequences
/// in place of vectors, so that two types are equal exactly when their
/// models are.
pub enum Ty {
    Float,
    Bool,
    Tuple(Seq<Ty>),
    Func(Box<Ty>, Box<Ty>),
}

pub open spec fn ty_of(t: ValueType) -> Ty
    decreases t,
{
    match t {
        ValueType::Float => Ty::Float,
        ValueType::Bool => Ty::Bool,
        ValueType::Tuple(ts) => Ty::Tuple(
            Seq::new(ts@.len(), |i: int| if 0 <= i < ts@.len() { ty_of(ts@[i]) } else { Ty::Bool }),
        ),
        ValueType::Func(p, r) => Ty::Func(Box::new(ty_of(*p)), Box::new(ty_of(*r))),
    }
}

impl View for ValueType {
    type V = Ty;

    open spec fn view(&self) -> Ty {
        ty_of(*self)
    }
}

/// The text of a type: `Float`, `Bool`, `(A, B)`, and `A -> B`, where a
/// function type on the left of an arrow is put in parentheses.
pub open spec fn type_text(t: ValueType) -> Seq<char>
    decreases t, 1nat, 0nat,
{
    match t {
        ValueType::Float => "Float"@,
        ValueType::Bool => "Bool"@,
        ValueType::Tuple(ts) => "("@ + elems_text(t, ts@.len() as nat) + ")"@,
        ValueType::Func(p, r) => atom_text(*p) + " -> "@ + type_text(*r),
    }
}

/// The text of a type where it stands as an operand: parenthesised when it
/// is a function type.
pub open spec fn atom_text(t: ValueType) -> Seq<char>
    decreases t, 2nat, 0nat,
{
    match t {
        ValueType::Func(_, _) => "("@ + type_text(t) + ")"@,
        _ => type_text(t),
    }
}

/// The first `n` members of a tuple type, separated by `", "`.
pub open spec fn elems_text(t: ValueType, n: nat) -> Seq<char>
    decreases t, 0nat, n,
{
    match t {
        ValueType::Tuple(ts) => {
            if n == 0 || n > ts@.len() {
                Seq::empty()
            } else if n == 1 {
                type_text(ts@[0])
            } else {
                elems_text(t, (n - 1) as nat) + ", "@ + type_text(ts@[n - 1])
            }
        },
        _ => Seq::empty(),
    }
}

/// The model of a tuple type lists the models of its members.
pub proof fn lemma_tuple_view(t: ValueType)
    requires
        t is Tuple,
    ensures
        t@ is Tuple,
        t@->Tuple_0.len() == t->Tuple_0@.len(),
        forall|i: int| 0 <= i < t->Tuple_0@.len() ==> #[trigger] t@->Tuple_0[i] == t->Tuple_0@[i]@,
{
}

/// Two tuple types with members of equal models have equal models.
pub proof fn lemma_tuple_view_eq(a: ValueType, b: ValueType)
    requires
        a is Tuple,
        b is Tuple,
        a->Tuple_0@.len() == b->Tuple_0@.len(),
        forall|i: int| 0 <= i < a->Tuple_0@.len() ==> (#[trigger] a->Tuple_0@[i])@ == b->Tuple_0@[i]@,
    ensures
        a@ == b@,
{
    lemma_tuple_view(a);
    lemma_tuple_view(b);
    assert(a@->Tuple_0 =~= b@->Tuple_0);
}

/// A member of a tuple type is smaller than the tuple.
pub proof fn lemma_member_decreases(t: ValueType, i: int)
    requires
        t is Tuple,
        0 <= i < t->Tuple_0@.len(),
    ensures
        decreases_to!(t => t->Tuple_0@[i]),
{
    assert(decreases_to!(t => t->Tuple_0));
    assert(decreases_to!(t->Tuple_0 => t->Tuple_0[i]));
}

/// `type_text` over the model.
pub open spec fn ty_text(t: Ty) -> Seq<char>
    decreases t, 1nat, 0nat,
{
    match t {
        Ty::Float => "Float"@,
        Ty::Bool => "Bool"@,
        Ty::Tuple(ts) => "("@ + ty_elems_text(ts, ts.len()) + ")"@,
        Ty::Func(p, r) => ty_atom_text(*p) + " -> "@ + ty_text(*r),
    }
}

pub open spec fn ty_atom_text(t: Ty) -> Seq<char>
    decreases t, 2nat, 0nat,
{
    match t {
        Ty::Func(_, _) => "("@ + ty_text(t) + ")"@,
        _ => ty_text(t),
    }
}

pub open spec fn ty_elems_text(ts: Seq<Ty>, n: nat) -> Seq<char>
    decreases ts, 0nat, n,
{
    if n == 0 || n > ts.len() {
        Seq::empty()
    } else if n == 1 {
        ty_text(ts[0])
    } else {
        ty_elems_text(ts, (n - 1) as nat) + ", "@ + ty_text(ts[n - 1])
    }
}

/// A type's text is the text of its model.
pub proof fn lemma_type_text(t: ValueType)
    ensures
        type_text(t) == ty_text(t@),
        atom_text(t) == ty_atom_text(t@),
    decreases t, 1nat, 0nat,
{
    match t {
        ValueType::Tuple(ts) => {
            lemma_tuple_view(t);
            lemma_elems_text(t, ts@.len() as nat);
        },
        ValueType::Func(p, r) => {
            lemma_type_text(*p);
            lemma_type_text(*r);
        },
        _ => {},
    }
}

pub proof fn lemma_elems_text(t: ValueType, n: nat)
    requires
        t is Tuple,
        n <= t->Tuple_0@.len(),
    ensures
        elems_text(t, n) == ty_elems_text(t@->Tuple_0, n),
    decreases t, 0nat, n,
{
    lemma_tuple_view(t);
    if n > 0 {
        lemma_member_decreases(t, n - 1);
        lemma_type_text(t->Tuple_0@[n - 1]);
        if n > 1 {
            lemma_elems_text(t, (n - 1) as nat);
            lemma_member_decreases(t, 0);
        } else {
            lemma_type_text(t->Tuple_0@[0]);
        }
    }
}

impl ValueType {
    /// A copy of the type, equal to it in the model.
    pub fn copy(&self) -> (r: ValueType)
        ensures
            r@ == self@,
        decreases self,
    {
        match self {
            ValueType::Float => ValueType::Float,
            ValueType::Bool => ValueType::Bool,
            ValueType::Tuple(ts) => {
                let mut out: Vec<ValueType> = Vec::new();
                let mut i: usize = 0;
                while i < ts.len()
                    invariant
                        i <= ts@.len(),
                        *self == ValueType::Tuple(*ts),
                        out@.len() == i,
                        forall|j: int| 0 <= j < i ==> (#[trigger] out@[j])@ == ts@[j]@,
                    decreases ts@.len() - i,
                {
                    proof {
                        lemma_member_decreases(*self, i as int);
                    }
                    let c = ts[i].copy();
                    out.push(c);
                    i = i + 1;
                }
                let r = ValueType::Tuple(out);
                proof {
                    lemma_tuple_view_eq(r, *self);
                }
                r
            },
            ValueType::Func(p, r) => ValueType::Func(Box::new(p.copy()), Box::new(r.copy())),
        }
    }

    /// Whether two types are the same.
    pub fn same(&self, other: &ValueType) -> (r: bool)
        ensures
            r == (self@ == other@),
        decreases self,
    {
        match (self, other) {
            (ValueType::Float, ValueType::Float) => true,
            (ValueType::Bool, ValueType::Bool) => true,
            (ValueType::Func(lp, r1), ValueType::Func(rp, r2)) => {
                let a = lp.same(rp);
                let b = r1.same(r2);
                a && b
            },
            (ValueType::Tuple(ts1), ValueType::Tuple(ts2)) => {
                if ts1.len() != ts2.len() {
                    proof {
                        lemma_tuple_view(*self);
                        lemma_tuple_view(*other);
                    }
                    return false;
                }
                let mut i: usize = 0;
                while i < ts1.len()
                    invariant
                        i <= ts1@.len(),
                        ts1@.len() == ts2@.len(),
                        *self == ValueType::Tuple(*ts1),
                        *other == ValueType::Tuple(*ts2),
                        forall|j: int| 0 <= j < i ==> (#[trigger] ts1@[j])@ == ts2@[j]@,
                    decreases ts1@.len() - i,
                {
                    proof {
                        lemma_member_decreases(*self, i as int);
                    }
                    if !ts1[i].same(&ts2[i]) {
                        proof {
                            lemma_tuple_view(*self);
                            lemma_tuple_view(*other);
                            assert(self@->Tuple_0[i as int] != other@->Tuple_0[i as int]);
                        }
                        return false;
                    }
                    i = i + 1;
                }
                proof {
                    lemma_tuple_view_eq(*self, *other);
                }
                true
            },
            _ => false,
        }
    }

    /// The text of the type; see `type_text`.
    pub fn pretty_term(&self) -> (r: String)
        ensures
            r@ == type_text(*self),
        decreases self, 1nat,
    {
        match self {
            ValueType::Float => String::from_str("Float"),
            ValueType::Bool => String::from_str("Bool"),
            ValueType::Tuple(ts) => {
                let mut s = String::from_str("(");
                let mut i: usize = 0;
                while i < ts.len()
                    invariant
                        i <= ts@.len(),
                        *self == ValueType::Tuple(*ts),
                        s@ == "("@ + elems_text(*self, i as nat),
                    decreases ts@.len() - i,
                {
                    if i > 0 {
                        s.append(", ");
                    }
                    proof {
                        lemma_member_decreases(*self, i as int);
                    }
                    let e = ts[i].pretty_term();
                    s.append(e.as_str());
                    i = i + 1;
                    proof {
                        assert(s@ =~= "("@ + elems_text(*self, i as nat));
                    }
                }
                s.append(")");
                s
            },
            ValueType::Func(p, r) => {
                let mut s = p.pretty_atom();
                s.append(" -> ");
                let b = r.pretty_term();
                s.append(b.as_str());
                s
            },
        }
    }

    /// The text of the type as an operand; see `atom_text`.
    pub fn pretty_atom(&self) -> (r: String)
        ensures
            r@ == atom_text(*self),
        decreases self, 2nat,
    {
        match self {
            ValueType::Func(_, _) => {
                let mut s = String::from_str("(");
                let b = self.pretty_term();
                s.append(b.as_str());
                s.append(")");
                s
            },
            _ => self.pretty_term(),
        }
    }
}

} // verus!
