//! Iris species classification with a two-unit ensemble. Setosa owns two
//! codes (its low bit is a wildcard), Versicolor and Virginica one each.
use vstd::prelude::*;

use rand::seq::SliceRandom;

use crate::expectation::{bit_of, BoolExpectation, IntExpect};
use crate::fit::{fit_outcome, IterationBudget};
use crate::nn::{code_of, OneLayerNN};
use crate::perceptron::{input_seqs, UnitState};
use crate::score::{accuracy_from, score_of, Accuracy};

verus! {

/// The number of measurements per flower.
pub const FEATURES: usize = 4;

/// How many passes without progress the classifier's training tolerates.
pub const TRAINING_REATTEMPTS: u64 = 10;

#[derive(Clone, Copy, Debug, PartialEq, Eq, Structural)]
pub enum IrisSpecies {
    Setosa,
    Versicolor,
    Virginica,
}

/// A flower's measurements (sepal length and width, petal length and width),
/// each in tenths of a centimetre, with its species.
#[derive(Clone, Copy, Debug)]
pub struct ClassifiedIris {
    pub parameters: [i32; FEATURES],
    pub classification: IrisSpecies,
}

/// The codes a species accepts from the ensemble.
#[derive(Clone, Copy, Debug)]
pub struct ClassificationExpectation(pub IrisSpecies);

impl IntExpect for ClassificationExpectation {
    open spec fn met_spec(&self, value: u64) -> bool {
        match self.0 {
            IrisSpecies::Setosa => value == 2 || value == 3,
            IrisSpecies::Versicolor => value == 0,
            IrisSpecies::Virginica => value == 1,
        }
    }

    /// Bit 1 tells Setosa (set) from the other two; bit 0 tells Virginica
    /// (set) from Versicolor and is a wildcard for Setosa. Higher bits carry
    /// no expectation.
    open spec fn bit_spec(&self, idx: int) -> BoolExpectation {
        if idx == 0 {
            match self.0 {
                IrisSpecies::Setosa => BoolExpectation::NoExpect,
                IrisSpecies::Versicolor => BoolExpectation::Expect(false),
                IrisSpecies::Virginica => BoolExpectation::Expect(true),
            }
        } else if idx == 1 {
            BoolExpectation::Expect(self.0 == IrisSpecies::Setosa)
        } else {
            BoolExpectation::NoExpect
        }
    }

    fn is_met_by(&self, value: u64) -> (r: bool) {
        match self.0 {
            IrisSpecies::Setosa => value == 2 || value == 3,
            IrisSpecies::Versicolor => value == 0,
            IrisSpecies::Virginica => value == 1,
        }
    }

    fn bit_expectation(&self, idx: usize) -> (r: BoolExpectation) {
        if idx == 0 {
            match self.0 {
                IrisSpecies::Setosa => BoolExpectation::NoExpect,
                IrisSpecies::Versicolor => BoolExpectation::Expect(false),
                IrisSpecies::Virginica => BoolExpectation::Expect(true),
            }
        } else if idx == 1 {
            BoolExpectation::Expect(self.0 == IrisSpecies::Setosa)
        } else {
            BoolExpectation::NoExpect
        }
    }
}

/// A species accepts a two-bit code exactly when each of its two bits meets
/// the species' expectation for that bit.
pub proof fn lemma_code_matches_bits(e: ClassificationExpectation, value: u64)
    requires
        value < 4,
    ensures
        e.met_spec(value) == (e.bit_spec(0).met_by(bit_of(value, 0)) && e.bit_spec(1).met_by(
            bit_of(value, 1),
        )),
{
    assert(bit_of(0, 0) == false && bit_of(0, 1) == false) by (bit_vector);
    assert(bit_of(1, 0) == true && bit_of(1, 1) == false) by (bit_vector);
    assert(bit_of(2, 0) == false && bit_of(2, 1) == true) by (bit_vector);
    assert(bit_of(3, 0) == true && bit_of(3, 1) == true) by (bit_vector);
}

/// The species that a two-bit code stands for.
pub open spec fn species_of(prediction: u64) -> IrisSpecies {
    if prediction == 0 {
        IrisSpecies::Versicolor
    } else if prediction == 1 {
        IrisSpecies::Virginica
    } else {
        IrisSpecies::Setosa
    }
}

/// Converts the ensemble's code into a species.
pub fn prediction_to_classification(prediction: u64) -> (r: IrisSpecies)
    requires
        prediction < 4,
    ensures
        r == species_of(prediction),
        ClassificationExpectation(r).met_spec(prediction),
{
    if prediction == 0 {
        IrisSpecies::Versicolor
    } else if prediction == 1 {
        IrisSpecies::Virginica
    } else {
        IrisSpecies::Setosa
    }
}

/// Why a classifier could not be built.
#[derive(Clone, Copy, Debug, PartialEq, Eq, Structural)]
pub enum ClassifierError {
    /// The training table holds no flower.
    EmptyTrainingData,
}

/// A trained two-unit ensemble over iris measurements.
#[derive(Debug)]
pub struct IrisClassifier {
    pub nn: OneLayerNN<2, FEATURES>,
}

/// The inputs and expectations of a training table.
pub open spec fn table_inputs(irises: Seq<ClassifiedIris>) -> Seq<Seq<i32>> {
    irises.map_values(|ci: ClassifiedIris| ci.parameters@)
}

pub open spec fn table_expectations(irises: Seq<ClassifiedIris>) -> Seq<ClassificationExpectation> {
    irises.map_values(|ci: ClassifiedIris| ClassificationExpectation(ci.classification))
}

/// The state of a fresh ensemble of `n` units over iris measurements.
pub open spec fn fresh_units(n: nat) -> Seq<UnitState> {
    Seq::new(n, |i: int| UnitState { weights: Seq::new(FEATURES as nat, |k: int| 0i64), threshold: 0 })
}

/// Whether `units` are what [`OneLayerNN::fit_to`] makes of a fresh two-unit
/// ensemble trained on the table `t` in its order, with a zero score to beat
/// and a plateau of `TRAINING_REATTEMPTS + 1` passes, the last pass scoring.
pub open spec fn trained_on(t: Seq<ClassifiedIris>, units: Seq<UnitState>) -> bool {
    exists|b: (&Vec<[i32; FEATURES]>, &Vec<ClassificationExpectation>), k: nat, s: Option<Accuracy>|
        #[trigger] fit_outcome::<OneLayerNN<2, FEATURES>, (&Vec<[i32; FEATURES]>, &Vec<ClassificationExpectation>), Seq<UnitState>>(
            fresh_units(2),
            b,
            k,
            accuracy_from(score_of(0, 1)),
            TRAINING_REATTEMPTS,
            IterationBudget::Unbounded,
            units,
            s,
        ) && input_seqs(b.0@) == table_inputs(t) && b.1@ == table_expectations(t) && b.0@.len() == t.len()
            && s is Some
}

impl IrisClassifier {
    pub open spec fn wf(&self) -> bool {
        self.nn.wf()
    }

    /// The species of a flower with these measurements.
    pub fn classify(&self, parameters: &[i32; FEATURES]) -> (r: IrisSpecies)
        requires
            self.wf(),
        ensures
            r == species_of(code_of(self.nn@, parameters@, 2)),
    {
        let prediction: u64 = self.nn.decide_for(parameters);
        proof {
            let c1 = code_of(self.nn@, parameters@, 1);
            assert(code_of(self.nn@, parameters@, 0) == 0);
            assert((0u64 | (1u64 << 0u64)) == 1u64) by (bit_vector);
            assert(c1 <= 1);
            assert(forall|a: u64| a <= 1 ==> (a | (1u64 << 1u64)) <= 3) by (bit_vector);
        }
        prediction_to_classification(prediction)
    }
}

/// Relies on rand's `SliceRandom::shuffle` with the thread-local generator:
/// it only swaps elements, so the result is a permutation of the input.
#[verifier::external_body]
fn shuffle_irises(irises: &mut Vec<ClassifiedIris>)
    ensures
        final(irises)@.len() == old(irises)@.len(),
        final(irises)@.to_multiset() == old(irises)@.to_multiset(),
{
    irises.shuffle(&mut rand::thread_rng());
}

/// Trains a fresh classifier on a table, in its order, until a plateau of
/// eleven passes without progress.
pub fn train_classifier(irises: &Vec<ClassifiedIris>) -> (r: Result<IrisClassifier, ClassifierError>)
    ensures
        irises@.len() == 0 <==> r is Err,
        r matches Err(e) ==> e == ClassifierError::EmptyTrainingData,
        r matches Ok(c) ==> c.wf() && trained_on(irises@, c.nn@),
{
    let mut inputs: Vec<[i32; FEATURES]> = Vec::new();
    let mut expectations: Vec<ClassificationExpectation> = Vec::new();
    let mut i: usize = 0;
    while i < irises.len()
        invariant
            i <= irises@.len(),
            inputs@.len() == i,
            expectations@.len() == i,
            forall|k: int| 0 <= k < i ==> #[trigger] inputs@[k] == irises@[k].parameters,
            forall|k: int| 0 <= k < i ==> #[trigger] expectations@[k] == ClassificationExpectation(irises@[k].classification),
        decreases irises@.len() - i,
    {
        inputs.push(irises[i].parameters);
        expectations.push(ClassificationExpectation(irises[i].classification));
        i += 1;
    }
    assert(input_seqs(inputs@) =~= table_inputs(irises@));
    assert(expectations@ =~= table_expectations(irises@));
    let mut nn: OneLayerNN<2, FEATURES> = OneLayerNN::new();
    assert(nn@ =~= fresh_units(2));
    let score = nn.fit_to(&inputs, &expectations, TRAINING_REATTEMPTS);
    assert(input_seqs(inputs@) == table_inputs(irises@) && inputs@.len() == irises@.len());
    match score {
        None => Err(ClassifierError::EmptyTrainingData),
        Some(_) => Ok(IrisClassifier { nn }),
    }
}

/// Builds a classifier from a training table: the table is shuffled at
/// random, then trained on as by [`train_classifier`]. Fails exactly when the
/// table is empty; otherwise the classifier is the one trained on some
/// reordering of the table.
pub fn create_classifier(classified_irises: Vec<ClassifiedIris>) -> (r: Result<IrisClassifier, ClassifierError>)
    ensures
        classified_irises@.len() == 0 <==> r is Err,
        r matches Err(e) ==> e == ClassifierError::EmptyTrainingData,
        r matches Ok(c) ==> c.wf() && exists|t: Seq<ClassifiedIris>|
            #[trigger] trained_on(t, c.nn@) && t.to_multiset() == classified_irises@.to_multiset(),
{
    let mut irises = classified_irises;
    shuffle_irises(&mut irises);
    train_classifier(&irises)
}

} // verus!
