use vstd::prelude::*;

verus! {

/// The characters of a text, as a list: the form in which the number type
/// receives a literal's text in specifications.
pub enum CharList {
    Empty,
    Cons(char, Box<CharList>),
}

/// The characters of a list, as a sequence.
pub open spec fn list_seq(l: CharList) -> Seq<char>
    decreases l,
{
    match l {
        CharList::Empty => Seq::empty(),
        CharList::Cons(c, rest) => seq![c] + list_seq(*rest),
    }
}

/// The list of a sequence of characters.
pub open spec fn char_list(s: Seq<char>) -> CharList
    decreases s.len(),
{
    if s.len() == 0 {
        CharList::Empty
    } else {
        CharList::Cons(s[0], Box::new(char_list(s.drop_first())))
    }
}

/// The numbers that the language computes with.
///
/// The library decides what is computed and when (which operands are
/// known, which branch is taken, which array cell is read); the number type
/// supplies the arithmetic itself.  Each operation has a name in
/// specifications (`plus_spec` for `plus`, and so on): the contracts of the
/// library state results in terms of these names, and an operation returns
/// what its name denotes.  Nothing else is assumed of them (no algebraic
/// law), so every property of the library holds for any number type.
pub trait Scalar: Copy + Sized {
    spec fn from_int_spec(i: i32) -> Self;

    /// The number that an integer stands for.
    fn from_int(i: i32) -> (r: Self)
        ensures
            r == Self::from_int_spec(i),
    ;

    spec fn from_literal_spec(text: CharList) -> Self;

    /// The number that a decimal literal denotes: one or more digits,
    /// optionally followed by a point and one or more digits.
    fn from_literal(text: &str) -> (r: Self)
        ensures
            r == Self::from_literal_spec(char_list(text@)),
    ;

    spec fn zero_spec() -> Self;

    fn zero() -> (r: Self)
        ensures
            r == Self::zero_spec(),
    ;

    spec fn one_spec() -> Self;

    fn one() -> (r: Self)
        ensures
            r == Self::one_spec(),
    ;

    spec fn half_spec() -> Self;

    fn half() -> (r: Self)
        ensures
            r == Self::half_spec(),
    ;

    spec fn pi_spec() -> Self;

    /// The ratio of a circle's circumference to its diameter.
    fn pi() -> (r: Self)
        ensures
            r == Self::pi_spec(),
    ;

    spec fn plus_spec(self, other: Self) -> Self;

    fn plus(&self, other: &Self) -> (r: Self)
        ensures
            r == self.plus_spec(*other),
    ;

    spec fn minus_spec(self, other: Self) -> Self;

    fn minus(&self, other: &Self) -> (r: Self)
        ensures
            r == self.minus_spec(*other),
    ;

    spec fn times_spec(self, other: Self) -> Self;

    fn times(&self, other: &Self) -> (r: Self)
        ensures
            r == self.times_spec(*other),
    ;

    spec fn divide_spec(self, other: Self) -> Self;

    fn divide(&self, other: &Self) -> (r: Self)
        ensures
            r == self.divide_spec(*other),
    ;

    spec fn remainder_spec(self, other: Self) -> Self;

    /// The remainder of truncating division.
    fn remainder(&self, other: &Self) -> (r: Self)
        ensures
            r == self.remainder_spec(*other),
    ;

    spec fn sin_spec(self) -> Self;

    fn sin(&self) -> (r: Self)
        ensures
            r == self.sin_spec(),
    ;

    spec fn cos_spec(self) -> Self;

    fn cos(&self) -> (r: Self)
        ensures
            r == self.cos_spec(),
    ;

    spec fn sqrt_spec(self) -> Self;

    fn sqrt(&self) -> (r: Self)
        ensures
            r == self.sqrt_spec(),
    ;

    spec fn atan2_spec(self, x: Self) -> Self;

    /// The angle of the point (`x`, `self`).
    fn atan2(&self, x: &Self) -> (r: Self)
        ensures
            r == self.atan2_spec(*x),
    ;

    spec fn less_spec(self, other: Self) -> bool;

    fn less(&self, other: &Self) -> (r: bool)
        ensures
            r == self.less_spec(*other),
    ;

    spec fn less_eq_spec(self, other: Self) -> bool;

    fn less_eq(&self, other: &Self) -> (r: bool)
        ensures
            r == self.less_eq_spec(*other),
    ;

    spec fn is_zero_spec(self) -> bool;

    fn is_zero(&self) -> (r: bool)
        ensures
            r == self.is_zero_spec(),
    ;

    spec fn floor_index_spec(self) -> usize;

    /// The largest integer not above the number, as an array index
    /// (negative values give 0).
    fn floor_index(&self) -> (r: usize)
        ensures
            r == self.floor_index_spec(),
    ;

    spec fn ceil_index_spec(self) -> usize;

    /// The smallest integer not below the number, as an array index
    /// (negative values give 0).
    fn ceil_index(&self) -> (r: usize)
        ensures
            r == self.ceil_index_spec(),
    ;

    spec fn fract_spec(self) -> Self;

    /// The number minus its integer part.
    fn fract(&self) -> (r: Self)
        ensures
            r == self.fract_spec(),
    ;

    spec fn text_spec(self) -> CharList;

    /// The number written with three digits after the point.
    fn text(&self) -> (r: String)
        ensures
            r@ == list_seq(self.text_spec()),
    ;
}

} // verus!
