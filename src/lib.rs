//! A linear threshold classifier ("perceptron"), an ensemble of such units that
//! packs their decisions into one integer code, and an adaptive training loop
//! that stops on a plateau of exact rational accuracy scores.
//!
//! Feature values are fixed-point integers in whatever unit the caller picks
//! (tenths of a centimetre for iris measurements). Weights and thresholds are
//! kept in units of the learning rate, so every training step is exact.
pub mod expectation;
pub mod fit;
pub mod iris;
pub mod nn;
pub mod perceptron;
pub mod score;

pub use expectation::{BoolExpect, BoolExpectation, Correctness, IntExpect};
pub use fit::{IterationBudget, Plateau};
pub use iris::{
    create_classifier, prediction_to_classification, train_classifier, ClassificationExpectation,
    ClassifiedIris, ClassifierError, IrisClassifier, IrisSpecies,
};
pub use nn::OneLayerNN;
pub use perceptron::{add_scaled, dot_product, Perceptron};
pub use score::Accuracy;
