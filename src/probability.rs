//! The chance with which an augmenter transforms a sample of a batch.
use vstd::prelude::*;
use crate::error::AugmentError;
use crate::random::random_ratio;

verus! {

/// A probability held exactly as the ratio `numerator / denominator`, with
/// `0 < denominator` and `numerator <= denominator`.
#[derive(Clone, Copy, Debug, PartialEq, Eq, Structural)]
pub struct Probability {
    numerator: u32,
    denominator: u32,
}

impl Probability {
    #[verifier::type_invariant]
    spec fn wf(&self) -> bool {
        0 < self.denominator && self.numerator <= self.denominator
    }

    pub closed spec fn num(&self) -> nat {
        self.numerator as nat
    }

    pub closed spec fn den(&self) -> nat {
        self.denominator as nat
    }

    /// The probability 1: every sample is transformed.
    pub open spec fn is_certain(&self) -> bool {
        self.num() == self.den()
    }

    /// The probability 0: no sample is transformed.
    pub open spec fn is_never(&self) -> bool {
        self.num() == 0
    }

    /// The probability 1 as a value.
    pub closed spec fn certain() -> Self {
        Probability { numerator: 1, denominator: 1 }
    }

    /// The probability 1, every augmenter's default.
    pub fn always() -> (r: Self)
        ensures
            r == Probability::certain(),
            r.num() == 1 && r.den() == 1,
            r.is_certain(),
    {
        Probability { numerator: 1, denominator: 1 }
    }

    /// The probability `numerator / denominator`, refused unless it lies in `[0, 1]`.
    pub fn new(numerator: u32, denominator: u32) -> (r: Result<Self, AugmentError>)
        ensures
            r is Ok <==> (0 < denominator && numerator <= denominator),
            r matches Ok(p) ==> p.num() == numerator && p.den() == denominator,
            r matches Err(e) ==> e is InvalidProbability,
    {
        if denominator == 0 || numerator > denominator {
            Err(AugmentError::InvalidProbability)
        } else {
            Ok(Probability { numerator, denominator })
        }
    }

    pub fn numerator(&self) -> (r: u32)
        ensures
            r == self.num(),
    {
        self.numerator
    }

    pub fn denominator(&self) -> (r: u32)
        ensures
            r == self.den(),
    {
        self.denominator
    }

    /// One Bernoulli trial with this probability.
    pub fn draw(&self) -> (r: bool)
        ensures
            self.is_certain() ==> r,
            self.is_never() ==> !r,
    {
        proof {
            use_type_invariant(self);
        }
        random_ratio(self.numerator, self.denominator)
    }
}

} // verus!
