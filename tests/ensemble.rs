use perc_ic::{
    create_classifier, prediction_to_classification, train_classifier, BoolExpectation,
    ClassificationExpectation, ClassifiedIris, ClassifierError, Correctness, IntExpect,
    IrisSpecies, OneLayerNN, Perceptron,
};

fn unit(weights: Vec<i64>, threshold: i64) -> Perceptron<2> {
    let mut p: Perceptron<2> = Perceptron::new();
    p.weights = weights;
    p.threshold = threshold;
    p
}

#[test]
fn decision_bits_follow_unit_order() {
    let mut nn: OneLayerNN<2, 2> = OneLayerNN::new();
    nn.units = vec![unit(vec![1, 0], 1), unit(vec![0, 1], 1)];
    assert_eq!(nn.decide_for(&[1, 0]), 0b01);
    assert_eq!(nn.decide_for(&[0, 1]), 0b10);
    assert_eq!(nn.decide_for(&[1, 1]), 0b11);
    assert_eq!(nn.decide_for(&[0, 0]), 0b00);
}

#[test]
fn fresh_ensemble_decides_all_ones() {
    let nn: OneLayerNN<3, 2> = OneLayerNN::new();
    assert_eq!(nn.decide_for(&[4, -4]), 0b111);
}

#[test]
fn plain_code_expectation() {
    let e: u64 = 0b10;
    assert!(e.is_met_by(0b10));
    assert!(!e.is_met_by(0b11));
    assert_eq!(e.bit_expectation(0), BoolExpectation::Expect(false));
    assert_eq!(e.bit_expectation(1), BoolExpectation::Expect(true));
    assert_eq!(e.bit_expectation(5), BoolExpectation::Expect(false));
}

#[test]
fn wildcard_label_accepts_two_codes() {
    let setosa = ClassificationExpectation(IrisSpecies::Setosa);
    assert!(setosa.is_met_by(0b10));
    assert!(setosa.is_met_by(0b11));
    assert!(!setosa.is_met_by(0b00));
    assert!(!setosa.is_met_by(0b01));
    assert_eq!(setosa.bit_expectation(0), BoolExpectation::NoExpect);
    assert_eq!(setosa.bit_expectation(1), BoolExpectation::Expect(true));
    let virginica = ClassificationExpectation(IrisSpecies::Virginica);
    assert!(virginica.is_met_by(0b01));
    assert!(!virginica.is_met_by(0b11));
    assert_eq!(virginica.bit_expectation(0), BoolExpectation::Expect(true));
    assert_eq!(virginica.bit_expectation(1), BoolExpectation::Expect(false));
    let versicolor = ClassificationExpectation(IrisSpecies::Versicolor);
    assert!(versicolor.is_met_by(0b00));
    assert_eq!(versicolor.bit_expectation(0), BoolExpectation::Expect(false));
}

#[test]
fn wildcard_bit_is_never_trained() {
    let mut nn: OneLayerNN<2, 2> = OneLayerNN::new();
    // Fresh units decide 0b11, which Setosa accepts: nothing moves.
    let r = nn.train_on_sample(&[3, 1], &ClassificationExpectation(IrisSpecies::Setosa));
    assert_eq!(r, Correctness::Correct);
    assert_eq!(nn.units[0].weights, vec![0, 0]);
    assert_eq!(nn.units[1].weights, vec![0, 0]);
}

#[test]
fn training_one_bit_leaves_the_other_unit_alone() {
    let mut nn: OneLayerNN<2, 2> = OneLayerNN::new();
    // Code 0b11 against Virginica (0b01): only unit 1 is wrong.
    let r = nn.train_on_sample(&[3, 1], &ClassificationExpectation(IrisSpecies::Virginica));
    assert_eq!(r, Correctness::Incorrect);
    assert_eq!(nn.units[0].weights, vec![0, 0]);
    assert_eq!(nn.units[0].threshold, 0);
    assert_eq!(nn.units[1].weights, vec![-3, -1]);
    assert_eq!(nn.units[1].threshold, 1);
}

#[test]
fn ensemble_accuracy_and_empty_batch() {
    let mut nn: OneLayerNN<2, 2> = OneLayerNN::new();
    let inputs: Vec<[i32; 2]> = vec![[1, 1], [2, 2], [3, 3], [4, 4]];
    let expected: Vec<u64> = vec![0b11, 0b11, 0b11, 0b01];
    let a = nn.accuracy_for(&inputs, &expected).unwrap();
    assert_eq!((a.numer(), a.denom()), (3, 4));
    let none: Vec<[i32; 2]> = vec![];
    let no_labels: Vec<u64> = vec![];
    assert_eq!(nn.accuracy_for(&none, &no_labels), None);
    assert_eq!(nn.train_on(&none, &no_labels), None);
}

#[test]
fn ensemble_fit_learns_separable_codes() {
    let mut nn: OneLayerNN<2, 2> = OneLayerNN::new();
    let inputs: Vec<[i32; 2]> = vec![[10, 0], [-10, 0], [0, 10], [0, -10]];
    let expected: Vec<u64> = vec![0b01, 0b00, 0b10, 0b00];
    let r = nn.fit_to(&inputs, &expected, 5).unwrap();
    assert_eq!((r.numer(), r.denom()), (1, 1));
    for (x, e) in inputs.iter().zip(expected.iter()) {
        assert_eq!(nn.decide_for(x), *e);
    }
}

#[test]
fn predictions_map_to_species() {
    assert_eq!(prediction_to_classification(0b00), IrisSpecies::Versicolor);
    assert_eq!(prediction_to_classification(0b01), IrisSpecies::Virginica);
    assert_eq!(prediction_to_classification(0b10), IrisSpecies::Setosa);
    assert_eq!(prediction_to_classification(0b11), IrisSpecies::Setosa);
}

fn iris(parameters: [i32; 4], classification: IrisSpecies) -> ClassifiedIris {
    ClassifiedIris { parameters, classification }
}

#[test]
fn empty_table_gives_no_classifier() {
    assert_eq!(create_classifier(vec![]).err(), Some(ClassifierError::EmptyTrainingData));
    assert_eq!(train_classifier(&vec![]).err(), Some(ClassifierError::EmptyTrainingData));
}

#[test]
fn classifier_learns_clearly_separated_flowers() {
    let table = vec![
        iris([51, 35, 14, 2], IrisSpecies::Setosa),
        iris([49, 30, 14, 2], IrisSpecies::Setosa),
        iris([70, 32, 47, 14], IrisSpecies::Versicolor),
        iris([64, 32, 45, 15], IrisSpecies::Versicolor),
        iris([63, 33, 60, 25], IrisSpecies::Virginica),
        iris([71, 30, 59, 21], IrisSpecies::Virginica),
    ];
    let classifier = train_classifier(&table).unwrap();
    let right = table
        .iter()
        .filter(|ci| classifier.classify(&ci.parameters) == ci.classification)
        .count();
    assert!(right >= 4);
    assert!(create_classifier(table).is_ok());
}
