use vstd::prelude::*;

verus! {

/// A ternary value: Negative (-1), Zero (0), or Positive (+1).
#[derive(Clone, Copy, Debug, PartialEq, Eq, Hash, Structural)]
pub enum Ternary {
    Neg,
    Zero,
    Pos,
}

/// The integer that a ternary value stands for.
pub open spec fn value(t: Ternary) -> int {
    match t {
        Ternary::Neg => -1,
        Ternary::Zero => 0,
        Ternary::Pos => 1,
    }
}

/// The ternary value of an integer in {-1, 0, 1}, if it is one.
pub open spec fn ternary_of(v: int) -> Option<Ternary> {
    if v == -1 {
        Some(Ternary::Neg)
    } else if v == 0 {
        Some(Ternary::Zero)
    } else if v == 1 {
        Some(Ternary::Pos)
    } else {
        None
    }
}

/// Negation: swaps `Neg` and `Pos`, keeps `Zero`.
pub open spec fn negated(t: Ternary) -> Ternary {
    match t {
        Ternary::Neg => Ternary::Pos,
        Ternary::Zero => Ternary::Zero,
        Ternary::Pos => Ternary::Neg,
    }
}

impl Ternary {
    pub fn from_i8(v: i8) -> (r: Option<Ternary>)
        ensures
            r == ternary_of(v as int),
    {
        match v {
            -1 => Some(Ternary::Neg),
            0 => Some(Ternary::Zero),
            1 => Some(Ternary::Pos),
            _ => None,
        }
    }

    pub fn to_i8(self) -> (r: i8)
        ensures
            r == value(self),
    {
        match self {
            Ternary::Neg => -1,
            Ternary::Zero => 0,
            Ternary::Pos => 1,
        }
    }
}

impl core::ops::Neg for Ternary {
    type Output = Self;

    fn neg(self) -> (r: Self)
        ensures
            r == negated(self),
    {
        match self {
            Ternary::Neg => Ternary::Pos,
            Ternary::Zero => Ternary::Zero,
            Ternary::Pos => Ternary::Neg,
        }
    }
}

impl vstd::std_specs::ops::NegSpecImpl for Ternary {
    open spec fn obeys_neg_spec() -> bool {
        true
    }

    open spec fn neg_req(self) -> bool {
        true
    }

    open spec fn neg_spec(self) -> Self {
        negated(self)
    }
}

/// Negation is an involution.
pub proof fn lemma_negation_involutive(t: Ternary)
    ensures
        negated(negated(t)) == t,
{
}

/// Negation flips the sign of the integer value.
pub proof fn lemma_negation_flips_value(t: Ternary)
    ensures
        value(negated(t)) == -value(t),
{
}

/// Converting to an integer and back gives the same value, and the integers
/// accepted by the conversion are exactly -1, 0 and 1.
pub proof fn lemma_integer_round_trip(t: Ternary, v: int)
    ensures
        ternary_of(value(t)) == Some(t),
        ternary_of(v) is Some <==> -1 <= v <= 1,
        ternary_of(v) matches Some(u) ==> value(u) == v,
{
}



} // verus!
