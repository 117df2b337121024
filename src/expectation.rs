//! What it means for a boolean or integer output to be correct.
use vstd::prelude::*;

verus! {

/// Whether a sample was classified correctly before a training step.
#[derive(Clone, Copy, Debug, PartialEq, Eq, Structural)]
pub enum Correctness {
    Correct,
    Incorrect,
}

impl Correctness {
    pub fn is_correct(&self) -> (r: bool)
        ensures
            r == (*self == Correctness::Correct),
    {
        *self == Correctness::Correct
    }
}

/// What a single boolean output is expected to be.
#[derive(Clone, Copy, Debug, PartialEq, Eq, Structural)]
pub enum BoolExpectation {
    /// The output must equal this value.
    Expect(bool),
    /// Any output is accepted: the bit carries no information for the sample.
    NoExpect,
}

impl BoolExpectation {
    /// Whether `value` meets this expectation.
    pub open spec fn met_by(self, value: bool) -> bool {
        match self {
            BoolExpectation::Expect(b) => b == value,
            BoolExpectation::NoExpect => true,
        }
    }
}

/// A target for one boolean output.
pub trait BoolExpect {
    spec fn expectation_spec(&self) -> BoolExpectation;

    fn expectation(&self) -> (r: BoolExpectation)
        ensures
            r == self.expectation_spec(),
    ;

    fn is_met_by(&self, value: bool) -> (r: bool)
        ensures
            r == self.expectation_spec().met_by(value),
    ;
}

impl BoolExpect for bool {
    open spec fn expectation_spec(&self) -> BoolExpectation {
        BoolExpectation::Expect(*self)
    }

    fn expectation(&self) -> (r: BoolExpectation) {
        BoolExpectation::Expect(*self)
    }

    fn is_met_by(&self, value: bool) -> (r: bool) {
        value == *self
    }
}

impl BoolExpect for BoolExpectation {
    open spec fn expectation_spec(&self) -> BoolExpectation {
        *self
    }

    fn expectation(&self) -> (r: BoolExpectation) {
        *self
    }

    fn is_met_by(&self, value: bool) -> (r: bool) {
        match *self {
            BoolExpectation::Expect(expected) => expected == value,
            BoolExpectation::NoExpect => true,
        }
    }
}

/// Bit `idx` of `code`, as a boolean.
pub open spec fn bit_of(code: u64, idx: u64) -> bool {
    (code >> idx) & 1u64 == 1u64
}

/// A target for an integer code produced by an ensemble of units, one bit per
/// unit. Besides the whole-code check it hands each unit the expectation for
/// its own bit; a wildcard bit lets one class accept several codes.
pub trait IntExpect {
    spec fn met_spec(&self, value: u64) -> bool;

    spec fn bit_spec(&self, idx: int) -> BoolExpectation;

    fn is_met_by(&self, value: u64) -> (r: bool)
        ensures
            r == self.met_spec(value),
    ;

    fn bit_expectation(&self, idx: usize) -> (r: BoolExpectation)
        requires
            idx < 64,
        ensures
            r == self.bit_spec(idx as int),
    ;
}

/// A plain code: exactly this value is expected, every bit concretely.
impl IntExpect for u64 {
    open spec fn met_spec(&self, value: u64) -> bool {
        *self == value
    }

    open spec fn bit_spec(&self, idx: int) -> BoolExpectation {
        BoolExpectation::Expect(bit_of(*self, idx as u64))
    }

    fn is_met_by(&self, value: u64) -> (r: bool) {
        *self == value
    }

    fn bit_expectation(&self, idx: usize) -> (r: BoolExpectation) {
        let mask: u64 = 1u64 << (idx as u64);
        let set: bool = *self & mask != 0;
        assert(set == bit_of(*self, idx as u64)) by (bit_vector)
            requires
                mask == 1u64 << (idx as u64),
                set == (*self & mask != 0),
                idx < 64,
        ;
        BoolExpectation::Expect(set)
    }
}

} // verus!
