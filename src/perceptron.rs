//! A single linear threshold unit.
//!
//! Weights and the threshold are stored in units of the learning rate (one
//! tenth): a training step moves each weight by exactly one input value and the
//! threshold by one. Every value saturates at the range of `i64`.
//!
//! The threshold acts as the weight of a constant input of one feature unit,
//! so the unit in which features are given matters: with features in tenths of
//! a centimetre a step moves the threshold ten times less, relative to the
//! weights, than with features in centimetres.
use vstd::prelude::*;

use crate::expectation::{BoolExpect, BoolExpectation, Correctness};
use crate::fit::{fit_outcome, IterationBudget, Learner};
use crate::score::{accuracy_from, score_of, terms, Accuracy};

verus! {

/// The largest input dimension a unit accepts; it keeps the dot product
/// within `i128`.
pub const MAX_DIM: usize = 0xffff_ffff;

/// The learning rate is `1 / ALPHA_DEN`: stored weights are real weights
/// times `ALPHA_DEN`.
pub const ALPHA_DEN: u64 = 10;

/// `sum_{i < n} w[i] * x[i]`.
pub open spec fn dot(w: Seq<i64>, x: Seq<i32>, n: int) -> int
    decreases n,
{
    if n <= 0 {
        0
    } else {
        dot(w, x, n - 1) + w[n - 1] * x[n - 1]
    }
}

/// `v` clamped to the range of `i64`.
pub open spec fn saturate(v: int) -> i64 {
    if v > i64::MAX {
        i64::MAX
    } else if v < i64::MIN {
        i64::MIN
    } else {
        v as i64
    }
}

/// The mathematical state of a unit.
pub struct UnitState {
    pub weights: Seq<i64>,
    pub threshold: i64,
}

impl UnitState {
    /// The unit's decision on `x`: the dot product reaches the threshold.
    pub open spec fn decides(self, x: Seq<i32>) -> bool {
        dot(self.weights, x, self.weights.len() as int) >= self.threshold
    }

    /// The step direction on `x` under `e`: `+1` when `true` was expected and
    /// `false` decided, `-1` for the reverse, `0` when nothing is to be learnt.
    pub open spec fn direction(self, x: Seq<i32>, e: BoolExpectation) -> int {
        match e {
            BoolExpectation::Expect(b) => if b == self.decides(x) {
                0
            } else if b {
                1
            } else {
                -1
            },
            BoolExpectation::NoExpect => 0,
        }
    }

    /// The state after one training step on `x` under `e`.
    pub open spec fn after(self, x: Seq<i32>, e: BoolExpectation) -> UnitState {
        let d: int = self.direction(x, e);
        if d == 0 {
            self
        } else {
            UnitState {
                weights: Seq::new(
                    self.weights.len(),
                    |i: int| saturate(self.weights[i] + d * x[i]),
                ),
                threshold: saturate(self.threshold - d),
            }
        }
    }

    /// How a training step on `x` under `e` reports the sample.
    pub open spec fn outcome(self, x: Seq<i32>, e: BoolExpectation) -> Correctness {
        if self.direction(x, e) == 0 {
            Correctness::Correct
        } else {
            Correctness::Incorrect
        }
    }

    /// The state and the number of correct samples after training on the
    /// first `n` samples in order.
    pub open spec fn pass(self, xs: Seq<Seq<i32>>, es: Seq<BoolExpectation>, n: int) -> (
        UnitState,
        nat,
    )
        decreases n,
    {
        if n <= 0 {
            (self, 0)
        } else {
            let (s, c) = self.pass(xs, es, n - 1);
            (
                s.after(xs[n - 1], es[n - 1]),
                if s.outcome(xs[n - 1], es[n - 1]) == Correctness::Correct {
                    c + 1
                } else {
                    c
                },
            )
        }
    }

    /// How many of the first `n` samples this state decides as expected.
    pub open spec fn count_met(self, xs: Seq<Seq<i32>>, es: Seq<BoolExpectation>, n: int) -> nat
        decreases n,
    {
        if n <= 0 {
            0
        } else {
            self.count_met(xs, es, n - 1) + if es[n - 1].met_by(self.decides(xs[n - 1])) {
                1nat
            } else {
                0nat
            }
        }
    }
}

/// The inputs of a batch, as sequences.
pub open spec fn input_seqs<const D: usize>(inputs: Seq<[i32; D]>) -> Seq<Seq<i32>> {
    inputs.map_values(|a: [i32; D]| a@)
}

/// The expectations of a batch.
pub open spec fn bool_targets<E: BoolExpect>(es: Seq<E>) -> Seq<BoolExpectation> {
    es.map_values(|e: E| e.expectation_spec())
}

/// The number of samples in a batch: inputs and expectations are paired in
/// order, as far as both go.
pub open spec fn batch_len(a: nat, b: nat) -> nat {
    if a <= b {
        a
    } else {
        b
    }
}

/// A linear threshold unit over inputs of dimension `D`.
#[derive(Clone, Debug)]
pub struct Perceptron<const D: usize> {
    pub weights: Vec<i64>,
    pub threshold: i64,
}

impl<const D: usize> View for Perceptron<D> {
    type V = UnitState;

    open spec fn view(&self) -> UnitState {
        UnitState { weights: self.weights@, threshold: self.threshold }
    }
}

/// A sample with no expectation never changes a unit and always counts as
/// correct.
pub proof fn lemma_no_expectation_is_no_op(s: UnitState, x: Seq<i32>)
    ensures
        s.after(x, BoolExpectation::NoExpect) == s,
        s.outcome(x, BoolExpectation::NoExpect) == Correctness::Correct,
{
}

proof fn lemma_pass_count(s: UnitState, xs: Seq<Seq<i32>>, es: Seq<BoolExpectation>, n: int)
    requires
        n >= 0,
    ensures
        s.pass(xs, es, n).1 <= n,
    decreases n,
{
    if n > 0 {
        lemma_pass_count(s, xs, es, n - 1);
    }
}

proof fn lemma_term_bound(w: i64, x: i32)
    ensures
        -0x4000_0000_0000_0000_0000_0000 <= (w as int) * (x as int) <= 0x4000_0000_0000_0000_0000_0000,
{
    assert(-0x4000_0000_0000_0000_0000_0000 <= (w as int) * (x as int) <= 0x4000_0000_0000_0000_0000_0000)
        by (nonlinear_arith)
        requires
            -0x8000_0000_0000_0000 <= w <= 0x7fff_ffff_ffff_ffff,
            -0x8000_0000 <= x <= 0x7fff_ffff,
    ;
}

proof fn lemma_dot_bound(w: Seq<i64>, x: Seq<i32>, n: int)
    requires
        0 <= n <= w.len(),
        n <= x.len(),
    ensures
        -n * 0x4000_0000_0000_0000_0000_0000 <= dot(w, x, n) <= n * 0x4000_0000_0000_0000_0000_0000,
    decreases n,
{
    if n > 0 {
        lemma_dot_bound(w, x, n - 1);
        lemma_term_bound(w[n - 1], x[n - 1]);
    }
}

fn saturating(v: i128) -> (r: i64)
    ensures
        r == saturate(v as int),
{
    if v > i64::MAX as i128 {
        i64::MAX
    } else if v < i64::MIN as i128 {
        i64::MIN
    } else {
        v as i64
    }
}

/// The dot product of `weights` and `input`, exactly.
pub fn dot_product<const D: usize>(weights: &Vec<i64>, input: &[i32; D]) -> (r: i128)
    requires
        weights@.len() == D,
        D <= MAX_DIM,
    ensures
        r == dot(weights@, input@, D as int),
{
    let mut acc: i128 = 0;
    let mut i: usize = 0;
    while i < D
        invariant
            weights@.len() == D,
            D <= MAX_DIM,
            input@.len() == D,
            i <= D,
            acc == dot(weights@, input@, i as int),
        decreases D - i,
    {
        proof {
            lemma_dot_bound(weights@, input@, i as int);
            lemma_term_bound(weights@[i as int], input@[i as int]);
        }
        acc = acc + (weights[i] as i128) * (input[i] as i128);
        i += 1;
    }
    acc
}

/// Adds `dir * input` to `weights` element by element, each sum saturating
/// at the range of `i64`.
pub fn add_scaled<const D: usize>(weights: &mut Vec<i64>, input: &[i32; D], dir: i64)
    requires
        old(weights)@.len() == D,
        dir == 1 || dir == -1,
    ensures
        final(weights)@ == Seq::new(D as nat, |k: int| saturate(old(weights)@[k] + dir * input@[k])),
{
    let ghost start = weights@;
    let mut i: usize = 0;
    while i < D
        invariant
            weights@.len() == D,
            input@.len() == D,
            start.len() == D,
            i <= D,
            dir == 1 || dir == -1,
            forall|k: int| 0 <= k < i ==> weights@[k] == saturate(start[k] + dir * input@[k]),
            forall|k: int| i <= k < D ==> weights@[k] == start[k],
        decreases D - i,
    {
        let w: i128 = if dir > 0 {
            weights[i] as i128 + input[i] as i128
        } else {
            weights[i] as i128 - input[i] as i128
        };
        weights.set(i, saturating(w));
        i += 1;
    }
    assert(weights@ =~= Seq::new(D as nat, |k: int| saturate(start[k] + dir * input@[k])));
}

impl<const D: usize> Default for Perceptron<D> {
    /// A fresh unit, as [`Perceptron::new`].
    fn default() -> (r: Self)
        ensures
            r.weights@.len() == D,
            r@.weights == Seq::new(D as nat, |i: int| 0i64),
            r@.threshold == 0,
    {
        Self::new()
    }
}

impl<const D: usize> Perceptron<D> {
    /// A unit is well formed when it has one weight per input dimension.
    pub open spec fn wf(&self) -> bool {
        &&& self.weights@.len() == D
        &&& D <= MAX_DIM
    }

    /// A fresh unit: all weights and the threshold are zero.
    pub fn new() -> (r: Self)
        ensures
            D <= MAX_DIM ==> r.wf(),
            r.weights@.len() == D,
            r@.weights == Seq::new(D as nat, |i: int| 0i64),
            r@.threshold == 0,
    {
        let mut weights: Vec<i64> = Vec::new();
        let mut i: usize = 0;
        while i < D
            invariant
                i <= D,
                weights@ == Seq::new(i as nat, |k: int| 0i64),
            decreases D - i,
        {
            weights.push(0);
            i += 1;
        }
        Perceptron { weights, threshold: 0 }
    }

    /// Whether `value` reaches the threshold.
    pub fn activation(&self, value: i128) -> (r: bool)
        ensures
            r == (value >= self.threshold),
    {
        value >= self.threshold as i128
    }

    /// The unit's decision on `input`.
    pub fn decide_for(&self, input: &[i32; D]) -> (r: bool)
        requires
            self.wf(),
        ensures
            r == self@.decides(input@),
    {
        let dot_prod: i128 = dot_product(&self.weights, input);
        self.activation(dot_prod)
    }
    /// One training step on `input` under `expectation`. A wildcard
    /// expectation, or one the current decision meets, changes nothing and is
    /// reported correct; otherwise the weights move by the input (toward it
    /// when `true` was expected), the threshold the other way, and the sample
    /// is reported incorrect.
    pub fn train_on_sample<E: BoolExpect>(&mut self, input: &[i32; D], expectation: E) -> (r:
        Correctness)
        requires
            old(self).wf(),
        ensures
            final(self).wf(),
            final(self)@ == old(self)@.after(input@, expectation.expectation_spec()),
            r == old(self)@.outcome(input@, expectation.expectation_spec()),
    {
        let prediction = self.decide_for(input);
        let dir: i64 = match expectation.expectation() {
            BoolExpectation::Expect(expected) => {
                if expected == prediction {
                    0
                } else if expected {
                    1
                } else {
                    -1
                }
            },
            BoolExpectation::NoExpect => 0,
        };
        let ghost start = self@;
        let ghost d: int = dir as int;
        assert(d == start.direction(input@, expectation.expectation_spec()));
        if dir == 0 {
            return Correctness::Correct;
        }
        add_scaled(&mut self.weights, input, dir);
        self.threshold = saturating(self.threshold as i128 - dir as i128);
        let ghost target = start.after(input@, expectation.expectation_spec());
        assert(self@.weights =~= target.weights);
        assert(self@ == target);
        Correctness::Incorrect
    }

    /// The accuracy of the unit's decisions on a batch, without training; none
    /// for an empty batch.
    pub fn accuracy_for<E: BoolExpect>(&self, inputs: &Vec<[i32; D]>, expectations: &Vec<E>) -> (r:
        Option<Accuracy>)
        requires
            self.wf(),
        ensures
            terms(r) == score_of(
                self@.count_met(
                    input_seqs(inputs@),
                    bool_targets(expectations@),
                    batch_len(inputs@.len(), expectations@.len()) as int,
                ),
                batch_len(inputs@.len(), expectations@.len()),
            ),
            r == accuracy_from(score_of(
                self@.count_met(
                    input_seqs(inputs@),
                    bool_targets(expectations@),
                    batch_len(inputs@.len(), expectations@.len()) as int,
                ),
                batch_len(inputs@.len(), expectations@.len()),
            )),
    {
        let n: usize = if inputs.len() <= expectations.len() {
            inputs.len()
        } else {
            expectations.len()
        };
        let ghost xs = input_seqs(inputs@);
        let ghost es = bool_targets(expectations@);
        let mut correct: u64 = 0;
        let mut i: usize = 0;
        while i < n
            invariant
                self.wf(),
                n <= inputs@.len(),
                n <= expectations@.len(),
                xs == input_seqs(inputs@),
                es == bool_targets(expectations@),
                i <= n,
                correct == self@.count_met(xs, es, i as int),
                correct <= i,
            decreases n - i,
        {
            if expectations[i].is_met_by(self.decide_for(&inputs[i])) {
                correct += 1;
            }
            i += 1;
        }
        Accuracy::of(correct, n as u64)
    }

    /// One training pass over a batch, in order; returns the accuracy of the
    /// pass itself (how many samples were right before their own step), or
    /// none for an empty batch.
    pub fn train_on<E: BoolExpect + Copy>(&mut self, inputs: &Vec<[i32; D]>, expecteds: &Vec<E>) -> (r:
        Option<Accuracy>)
        requires
            old(self).wf(),
        ensures
            final(self).wf(),
            final(self)@ == old(self)@.pass(
                input_seqs(inputs@),
                bool_targets(expecteds@),
                batch_len(inputs@.len(), expecteds@.len()) as int,
            ).0,
            terms(r) == score_of(
                old(self)@.pass(
                    input_seqs(inputs@),
                    bool_targets(expecteds@),
                    batch_len(inputs@.len(), expecteds@.len()) as int,
                ).1,
                batch_len(inputs@.len(), expecteds@.len()),
            ),
            r == accuracy_from(score_of(
                old(self)@.pass(
                    input_seqs(inputs@),
                    bool_targets(expecteds@),
                    batch_len(inputs@.len(), expecteds@.len()) as int,
                ).1,
                batch_len(inputs@.len(), expecteds@.len()),
            )),
    {
        let n: usize = if inputs.len() <= expecteds.len() {
            inputs.len()
        } else {
            expecteds.len()
        };
        let ghost xs = input_seqs(inputs@);
        let ghost es = bool_targets(expecteds@);
        let ghost start = self@;
        let mut correct: u64 = 0;
        let mut i: usize = 0;
        while i < n
            invariant
                self.wf(),
                n <= inputs@.len(),
                n <= expecteds@.len(),
                xs == input_seqs(inputs@),
                es == bool_targets(expecteds@),
                i <= n,
                (self@, correct as nat) == start.pass(xs, es, i as int),
                correct <= i,
            decreases n - i,
        {
            if self.train_on_sample(&inputs[i], expecteds[i]).is_correct() {
                correct += 1;
            }
            i += 1;
        }
        Accuracy::of(correct, n as u64)
    }
    /// Trains on the batch pass after pass until a plateau or the iteration
    /// budget ends the run, and returns the accuracy of the last pass (none if
    /// no pass ran or the batch is empty); see [`crate::fit::fit`].
    pub fn fit<E: BoolExpect + Copy>(
        &mut self,
        inputs: &Vec<[i32; D]>,
        expecteds: &Vec<E>,
        max_progress_reattempts: u64,
        max_iterations: IterationBudget,
        old_score: Option<Accuracy>,
    ) -> (r: Option<Accuracy>)
        requires
            old(self).wf(),
        ensures
            final(self).wf(),
            max_iterations.exhausted_spec() ==> r == None::<Accuracy> && final(self)@ == old(self)@,
            !max_iterations.exhausted_spec() ==> (r is Some <==> batch_len(inputs@.len(), expecteds@.len()) > 0),
            !max_iterations.exhausted_spec() ==> exists|k: nat|
                #[trigger] fit_outcome::<Perceptron<D>, (&Vec<[i32; D]>, &Vec<E>), UnitState>(
                    old(self)@,
                    (inputs, expecteds),
                    k,
                    old_score,
                    max_progress_reattempts,
                    max_iterations,
                    final(self)@,
                    r,
                ),
    {
        crate::fit::fit(self, &(inputs, expecteds), max_progress_reattempts, max_iterations, old_score)
    }

    /// Trains until a plateau of `max_progress_reattempts + 1` passes without
    /// progress, starting from a score of zero to beat.
    pub fn fit_to<E: BoolExpect + Copy>(
        &mut self,
        inputs: &Vec<[i32; D]>,
        expecteds: &Vec<E>,
        max_progress_reattempts: u64,
    ) -> (r: Option<Accuracy>)
        requires
            old(self).wf(),
        ensures
            final(self).wf(),
            r is Some <==> batch_len(inputs@.len(), expecteds@.len()) > 0,
            exists|k: nat|
                #[trigger] fit_outcome::<Perceptron<D>, (&Vec<[i32; D]>, &Vec<E>), UnitState>(
                    old(self)@,
                    (inputs, expecteds),
                    k,
                    accuracy_from(score_of(0, 1)),
                    max_progress_reattempts,
                    IterationBudget::Unbounded,
                    final(self)@,
                    r,
                ),
    {
        let zero = Accuracy::of(0, 1);
        self.fit(inputs, expecteds, max_progress_reattempts, IterationBudget::Unbounded, zero)
    }
}

impl<'a, const D: usize, E: BoolExpect + Copy> Learner<(&'a Vec<[i32; D]>, &'a Vec<E>), UnitState> for Perceptron<D> {
    open spec fn inv(&self) -> bool {
        self.wf()
    }

    open spec fn state(&self) -> UnitState {
        self@
    }

    open spec fn batch_size(batch: (&'a Vec<[i32; D]>, &'a Vec<E>)) -> nat {
        batch_len(batch.0@.len(), batch.1@.len())
    }

    open spec fn correct_now(s: UnitState, batch: (&'a Vec<[i32; D]>, &'a Vec<E>)) -> nat {
        s.count_met(input_seqs(batch.0@), bool_targets(batch.1@), batch_len(batch.0@.len(), batch.1@.len()) as int)
    }

    open spec fn after_pass(s: UnitState, batch: (&'a Vec<[i32; D]>, &'a Vec<E>)) -> UnitState {
        s.pass(input_seqs(batch.0@), bool_targets(batch.1@), batch_len(batch.0@.len(), batch.1@.len()) as int).0
    }

    open spec fn pass_correct(s: UnitState, batch: (&'a Vec<[i32; D]>, &'a Vec<E>)) -> nat {
        s.pass(input_seqs(batch.0@), bool_targets(batch.1@), batch_len(batch.0@.len(), batch.1@.len()) as int).1
    }

    proof fn lemma_pass_correct_bound(s: UnitState, batch: (&'a Vec<[i32; D]>, &'a Vec<E>)) {
        lemma_pass_count(s, input_seqs(batch.0@), bool_targets(batch.1@), batch_len(batch.0@.len(), batch.1@.len()) as int);
    }

    fn accuracy_on(&self, batch: &(&'a Vec<[i32; D]>, &'a Vec<E>)) -> (r: Option<Accuracy>) {
        self.accuracy_for(batch.0, batch.1)
    }

    fn train_pass(&mut self, batch: &(&'a Vec<[i32; D]>, &'a Vec<E>)) -> (r: Option<Accuracy>) {
        // The length of a `Vec` fits a `usize`, so the batch size fits a `u64`.
        let _inputs_len: usize = batch.0.len();
        self.train_on(batch.0, batch.1)
    }
}

} // verus!
