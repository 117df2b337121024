use perc_ic::{Accuracy, BoolExpect, BoolExpectation, Correctness, IterationBudget, Perceptron};

fn sample_unit() -> Perceptron<2> {
    let mut p: Perceptron<2> = Perceptron::new();
    p.weights = vec![3, -1];
    p.threshold = 2;
    p
}

#[test]
fn new_unit_is_zero() {
    let p: Perceptron<3> = Perceptron::new();
    assert_eq!(p.weights, vec![0, 0, 0]);
    assert_eq!(p.threshold, 0);
}

#[test]
fn decide_is_pure() {
    let p = sample_unit();
    let before = p.clone();
    let first = p.decide_for(&[1, 1]);
    let second = p.decide_for(&[1, 1]);
    assert_eq!(first, second);
    assert!(first);
    assert!(!p.decide_for(&[0, 1]));
    assert_eq!(p.weights, before.weights);
    assert_eq!(p.threshold, before.threshold);
}

#[test]
fn activation_compares_with_threshold() {
    let p = sample_unit();
    assert!(p.activation(2));
    assert!(p.activation(5));
    assert!(!p.activation(1));
}

#[test]
fn no_expectation_is_a_no_op() {
    let mut p = sample_unit();
    let r = p.train_on_sample(&[1, 1], BoolExpectation::NoExpect);
    assert_eq!(r, Correctness::Correct);
    assert_eq!(p.weights, vec![3, -1]);
    assert_eq!(p.threshold, 2);
    let r = p.train_on_sample(&[-5, 7], BoolExpectation::NoExpect);
    assert_eq!(r, Correctness::Correct);
    assert_eq!(p.weights, vec![3, -1]);
    assert_eq!(p.threshold, 2);
}

#[test]
fn met_expectation_changes_nothing() {
    let mut p = sample_unit();
    assert_eq!(p.train_on_sample(&[1, 1], true), Correctness::Correct);
    assert_eq!(p.weights, vec![3, -1]);
    assert_eq!(p.threshold, 2);
}

#[test]
fn false_positive_moves_away_from_input() {
    let mut p = sample_unit();
    assert_eq!(p.train_on_sample(&[1, 1], false), Correctness::Incorrect);
    assert_eq!(p.weights, vec![2, -2]);
    assert_eq!(p.threshold, 3);
}

#[test]
fn false_negative_moves_toward_input() {
    let mut p = sample_unit();
    assert_eq!(p.train_on_sample(&[0, 4], BoolExpectation::Expect(true)), Correctness::Incorrect);
    assert_eq!(p.weights, vec![3, 3]);
    assert_eq!(p.threshold, 1);
}

#[test]
fn weights_saturate() {
    let mut p: Perceptron<2> = Perceptron::new();
    p.weights = vec![i64::MAX - 1, i64::MIN];
    p.threshold = 0;
    assert_eq!(p.train_on_sample(&[5, 5], true), Correctness::Incorrect);
    assert_eq!(p.weights, vec![i64::MAX, i64::MIN + 5]);
    assert_eq!(p.threshold, -1);
    let mut q: Perceptron<2> = Perceptron::new();
    q.weights = vec![i64::MAX, 0];
    q.threshold = i64::MAX;
    assert_eq!(q.train_on_sample(&[1, 0], false), Correctness::Incorrect);
    assert_eq!(q.weights, vec![i64::MAX - 1, 0]);
    assert_eq!(q.threshold, i64::MAX);
}

#[test]
fn bool_expectations() {
    assert!(true.is_met_by(true));
    assert!(!true.is_met_by(false));
    assert_eq!(false.expectation(), BoolExpectation::Expect(false));
    assert!(BoolExpectation::NoExpect.is_met_by(false));
    assert!(BoolExpectation::NoExpect.is_met_by(true));
    assert!(!BoolExpectation::Expect(true).is_met_by(false));
    assert!(Correctness::Correct.is_correct());
    assert!(!Correctness::Incorrect.is_correct());
}

#[test]
fn empty_batch_has_no_score() {
    let mut p: Perceptron<2> = Perceptron::new();
    let inputs: Vec<[i32; 2]> = vec![];
    let expected: Vec<bool> = vec![];
    assert_eq!(p.accuracy_for(&inputs, &expected), None);
    assert_eq!(p.train_on(&inputs, &expected), None);
}

#[test]
fn evaluation_counts_met_decisions() {
    let p = sample_unit();
    let inputs: Vec<[i32; 2]> = vec![[1, 1], [0, 1], [5, 0], [0, 0]];
    let expected = vec![true, false, true, true];
    let r = p.accuracy_for(&inputs, &expected).unwrap();
    assert_eq!((r.numer(), r.denom()), (3, 4));
}

#[test]
fn end_to_end_two_points() {
    let inputs: Vec<[i32; 2]> = vec![[2, 0], [-2, 0]];
    let expected = vec![true, false];
    let mut p: Perceptron<2> = Perceptron::new();
    let first = p.train_on(&inputs, &expected).unwrap();
    assert_eq!((first.numer(), first.denom()), (1, 2));
    assert_eq!(p.weights, vec![2, 0]);
    assert_eq!(p.threshold, 1);
    let second = p.train_on(&inputs, &expected).unwrap();
    assert_eq!((second.numer(), second.denom()), (1, 1));
    assert_eq!(p.weights, vec![2, 0]);
    assert_eq!(p.threshold, 1);
    assert!(p.decide_for(&[2, 0]));
    assert!(!p.decide_for(&[-2, 0]));
}

#[test]
fn fit_to_converges_on_two_points() {
    let inputs: Vec<[i32; 2]> = vec![[2, 0], [-2, 0]];
    let expected = vec![true, false];
    let mut p: Perceptron<2> = Perceptron::new();
    let r = p.fit_to(&inputs, &expected, 1).unwrap();
    assert_eq!((r.numer(), r.denom()), (1, 1));
    assert!(p.decide_for(&[2, 0]));
    assert!(!p.decide_for(&[-2, 0]));
    assert_eq!(p.weights, vec![2, 0]);
    assert_eq!(p.threshold, 1);
}

#[test]
fn fit_respects_a_bounded_budget() {
    let inputs: Vec<[i32; 2]> = vec![[2, 0], [-2, 0]];
    let expected = vec![true, false];
    let mut p: Perceptron<2> = Perceptron::new();
    let r = p.fit(&inputs, &expected, 5, IterationBudget::Bounded(1), Accuracy::of(0, 1)).unwrap();
    assert_eq!((r.numer(), r.denom()), (1, 2));
    let mut q: Perceptron<2> = Perceptron::new();
    assert_eq!(q.fit(&inputs, &expected, 5, IterationBudget::Bounded(0), None), None);
    assert_eq!(q.weights, vec![0, 0]);
}

#[test]
fn fit_stops_on_a_plateau_of_xor() {
    // Not linearly separable: the run still ends, on a plateau.
    let inputs: Vec<[i32; 2]> = vec![[0, 0], [0, 1], [1, 0], [1, 1]];
    let expected = vec![false, true, true, false];
    let mut p: Perceptron<2> = Perceptron::new();
    let r = p.fit(&inputs, &expected, 3, IterationBudget::Unbounded, None);
    assert!(r.is_some());
    let r = r.unwrap();
    assert!(r.numer() < r.denom());
}

#[test]
fn fit_with_empty_batch_has_no_score() {
    let inputs: Vec<[i32; 2]> = vec![];
    let expected: Vec<bool> = vec![];
    let mut p: Perceptron<2> = Perceptron::new();
    assert_eq!(p.fit_to(&inputs, &expected, 2), None);
    assert_eq!(p.fit(&inputs, &expected, 2, IterationBudget::Bounded(10), None), None);
}

#[test]
fn default_unit_is_fresh() {
    let p: Perceptron<2> = Perceptron::default();
    assert_eq!(p.weights, vec![0, 0]);
    assert_eq!(p.threshold, 0);
    let nn: perc_ic::OneLayerNN<2, 3> = perc_ic::OneLayerNN::default();
    assert_eq!(nn.units.len(), 2);
    assert_eq!(nn.units[1].weights, vec![0, 0, 0]);
}

#[test]
fn dot_product_is_exact() {
    let w: Vec<i64> = vec![3, -2, 5];
    assert_eq!(perc_ic::dot_product(&w, &[4, 7, -1]), 12 - 14 - 5);
    let big: Vec<i64> = vec![i64::MAX, i64::MAX];
    let expected = 2 * (i64::MAX as i128) * (i32::MAX as i128);
    assert_eq!(perc_ic::dot_product(&big, &[i32::MAX, i32::MAX]), expected);
    let none: Vec<i64> = vec![];
    assert_eq!(perc_ic::dot_product(&none, &[]), 0);
}

#[test]
fn dot_product_matches_element_wise_sum() {
    let w: Vec<i64> = vec![-7, 11, 0, 13];
    let x: [i32; 4] = [5, -3, 100, 2];
    let naive: i128 = w.iter().zip(x.iter()).map(|(a, b)| (*a as i128) * (*b as i128)).sum();
    assert_eq!(perc_ic::dot_product(&w, &x), naive);
}

#[test]
fn add_scaled_adds_or_subtracts_each_element() {
    let mut w: Vec<i64> = vec![1, 2, 3];
    perc_ic::add_scaled(&mut w, &[10, -20, 30], 1);
    assert_eq!(w, vec![11, -18, 33]);
    perc_ic::add_scaled(&mut w, &[10, -20, 30], -1);
    assert_eq!(w, vec![1, 2, 3]);
    let mut edge: Vec<i64> = vec![i64::MAX, i64::MIN];
    perc_ic::add_scaled(&mut edge, &[1, 1], -1);
    assert_eq!(edge, vec![i64::MAX - 1, i64::MIN]);
    perc_ic::add_scaled(&mut edge, &[5, -5], 1);
    assert_eq!(edge, vec![i64::MAX, i64::MIN]);
}

#[test]
fn fit_through_the_shared_loop_reports_last_pass() {
    let inputs: Vec<[i32; 2]> = vec![[2, 0], [-2, 0]];
    let expected = vec![true, false];
    let mut p: Perceptron<2> = Perceptron::new();
    let r = p.fit(&inputs, &expected, 0, IterationBudget::Unbounded, None).unwrap();
    // Baseline 1/2 (fresh unit decides true); pass 1 scores 1/2: no progress, no reattempt left.
    assert_eq!((r.numer(), r.denom()), (1, 2));
    assert_eq!(p.weights, vec![2, 0]);
    assert_eq!(p.threshold, 1);
}
