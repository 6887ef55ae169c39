use vstd::prelude::*;

verus! {

/// Ternary value: negative, neutral, or positive.
///
/// The neutral state is the "insulator": it carries no charge and does not
/// influence its neighbours.
#[derive(Debug, Clone, Copy, PartialEq, Eq, Hash, Structural)]
pub enum Ternary {
    Negative,
    Neutral,
    Positive,
}

/// The ternary value that an `i8` reads as: `-1` and `0` read as themselves,
/// every other value reads as positive.
pub open spec fn ternary_of(v: int) -> Ternary {
    if v == -1 {
        Ternary::Negative
    } else if v == 0 {
        Ternary::Neutral
    } else {
        Ternary::Positive
    }
}

impl Ternary {
    /// The charge of a value: -1, 0 or +1.
    pub open spec fn charge(self) -> int {
        match self {
            Ternary::Negative => -1,
            Ternary::Neutral => 0,
            Ternary::Positive => 1,
        }
    }

    pub fn from_i8(v: i8) -> (t: Self)
        ensures
            t == ternary_of(v as int),
    {
        match v {
            -1 => Ternary::Negative,
            0 => Ternary::Neutral,
            _ => Ternary::Positive,
        }
    }

    pub fn to_i8(self) -> (v: i8)
        ensures
            v as int == self.charge(),
    {
        match self {
            Ternary::Negative => -1,
            Ternary::Neutral => 0,
            Ternary::Positive => 1,
        }
    }

    /// Is this the insulator state?
    pub fn is_insulator(self) -> (b: bool)
        ensures
            b == (self == Ternary::Neutral),
            b == (self.charge() == 0),
    {
        self == Ternary::Neutral
    }
}

} // verus!
