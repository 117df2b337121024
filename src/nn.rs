//! An ensemble of independent units whose decisions form the bits of one
//! integer code.
use vstd::prelude::*;

use rayon::iter::{IndexedParallelIterator, IntoParallelRefIterator, IntoParallelRefMutIterator, ParallelIterator};

use crate::expectation::{bit_of, BoolExpectation, Correctness, IntExpect};
use crate::fit::{fit_outcome, IterationBudget, Learner};
use crate::perceptron::{input_seqs, batch_len, Perceptron, UnitState, MAX_DIM};
use crate::score::{accuracy_from, score_of, terms, Accuracy};

verus! {

/// The code whose bit `i` is set exactly when unit `i` (of the first `k`)
/// decides `true` on `x`.
pub open spec fn code_of(units: Seq<UnitState>, x: Seq<i32>, k: int) -> u64
    decreases k,
{
    if k <= 0 {
        0
    } else if units[k - 1].decides(x) {
        code_of(units, x, k - 1) | (1u64 << ((k - 1) as u64))
    } else {
        code_of(units, x, k - 1)
    }
}

/// The units after one training step on `x`: each unit learns from the
/// expectation of its own bit, and from nothing else.
pub open spec fn units_after<E: IntExpect>(units: Seq<UnitState>, x: Seq<i32>, e: E) -> Seq<UnitState> {
    Seq::new(units.len(), |i: int| units[i].after(x, e.bit_spec(i)))
}

/// A sample is correct for the ensemble when it is correct for every unit.
pub open spec fn ensemble_outcome<E: IntExpect>(units: Seq<UnitState>, x: Seq<i32>, e: E) -> Correctness {
    if forall|i: int| 0 <= i < units.len() ==> #[trigger] units[i].outcome(x, e.bit_spec(i)) == Correctness::Correct {
        Correctness::Correct
    } else {
        Correctness::Incorrect
    }
}

/// The units and the number of correct samples after training on the first
/// `n` samples in order.
pub open spec fn ensemble_pass<E: IntExpect>(units: Seq<UnitState>, xs: Seq<Seq<i32>>, es: Seq<E>, n: int) -> (
    Seq<UnitState>,
    nat,
)
    decreases n,
{
    if n <= 0 {
        (units, 0)
    } else {
        let (u, c) = ensemble_pass(units, xs, es, n - 1);
        (
            units_after(u, xs[n - 1], es[n - 1]),
            if ensemble_outcome(u, xs[n - 1], es[n - 1]) == Correctness::Correct {
                c + 1
            } else {
                c
            },
        )
    }
}

/// How many of the first `n` samples the code of `units` meets.
pub open spec fn ensemble_count_met<E: IntExpect>(units: Seq<UnitState>, xs: Seq<Seq<i32>>, es: Seq<E>, n: int) -> nat
    decreases n,
{
    if n <= 0 {
        0
    } else {
        ensemble_count_met(units, xs, es, n - 1) + if es[n - 1].met_spec(
            code_of(units, xs[n - 1], units.len() as int),
        ) {
            1nat
        } else {
            0nat
        }
    }
}

/// Training one unit of the ensemble never changes another: the new state of
/// unit `j` depends on unit `j`, the input and the expectation alone.
pub proof fn lemma_bit_independence<E: IntExpect>(a: Seq<UnitState>, b: Seq<UnitState>, x: Seq<i32>, e: E, j: int)
    requires
        0 <= j < a.len(),
        0 <= j < b.len(),
        a[j] == b[j],
    ensures
        units_after(a, x, e)[j] == units_after(b, x, e)[j],
        units_after(a, x, e)[j] == a[j].after(x, e.bit_spec(j)),
{
}

/// Relies on rayon's `par_iter().map(..).collect()` over a slice: an indexed
/// parallel iterator collects into a `Vec` in the order of the units.
#[verifier::external_body]
fn decide_each<const D: usize>(units: &Vec<Perceptron<D>>, input: &[i32; D]) -> (r: Vec<bool>)
    requires
        forall|i: int| 0 <= i < units@.len() ==> #[trigger] units@[i].wf(),
    ensures
        r@.len() == units@.len(),
        forall|i: int| 0 <= i < r@.len() ==> r@[i] == #[trigger] units@[i]@.decides(input@),
{
    units.par_iter().map(|unit| unit.decide_for(input)).collect()
}

/// Relies on rayon's `par_iter_mut().zip(..).map(..).collect()` over slices:
/// each unit is trained once with the expectation at its own index, and the
/// reports are collected in the order of the units.
#[verifier::external_body]
fn train_each<const D: usize>(
    units: &mut Vec<Perceptron<D>>,
    input: &[i32; D],
    bits: &Vec<BoolExpectation>,
) -> (r: Vec<Correctness>)
    requires
        old(units)@.len() == bits@.len(),
        forall|i: int| 0 <= i < old(units)@.len() ==> #[trigger] old(units)@[i].wf(),
    ensures
        final(units)@.len() == old(units)@.len(),
        r@.len() == old(units)@.len(),
        forall|i: int|
            0 <= i < r@.len() ==> {
                &&& final(units)@[i].wf()
                &&& final(units)@[i]@ == old(units)@[i]@.after(input@, bits@[i])
                &&& #[trigger] r@[i] == old(units)@[i]@.outcome(input@, bits@[i])
            },
{
    units.par_iter_mut().zip(bits.par_iter()).map(|(unit, bit)| unit.train_on_sample(input, *bit)).collect()
}

/// `N` units over inputs of dimension `D`; unit `i` gives bit `i` of the code.
#[derive(Debug)]
pub struct OneLayerNN<const N: usize, const D: usize> {
    pub units: Vec<Perceptron<D>>,
}

impl<const N: usize, const D: usize> View for OneLayerNN<N, D> {
    type V = Seq<UnitState>;

    open spec fn view(&self) -> Seq<UnitState> {
        self.units@.map_values(|p: Perceptron<D>| p@)
    }
}

impl<const N: usize, const D: usize> Default for OneLayerNN<N, D> {
    /// An ensemble of fresh units, as [`OneLayerNN::new`].
    fn default() -> (r: Self)
        ensures
            r.units@.len() == N,
            forall|i: int| 0 <= i < N ==> #[trigger] r@[i] == (UnitState { weights: Seq::new(D as nat, |k: int| 0i64), threshold: 0 }),
    {
        Self::new()
    }
}

impl<const N: usize, const D: usize> OneLayerNN<N, D> {
    /// `N` well-formed units; the code has room for a bit per unit.
    pub open spec fn wf(&self) -> bool {
        &&& self.units@.len() == N
        &&& N <= 64
        &&& D <= MAX_DIM
        &&& forall|i: int| 0 <= i < N ==> #[trigger] self.units@[i].wf()
    }

    /// An ensemble of fresh units.
    pub fn new() -> (r: Self)
        ensures
            N <= 64 && D <= MAX_DIM ==> r.wf(),
            r.units@.len() == N,
            forall|i: int| 0 <= i < N ==> #[trigger] r@[i] == (UnitState { weights: Seq::new(D as nat, |k: int| 0i64), threshold: 0 }),
    {
        let mut units: Vec<Perceptron<D>> = Vec::new();
        let mut i: usize = 0;
        while i < N
            invariant
                i <= N,
                units@.len() == i,
                forall|k: int| 0 <= k < i ==> D <= MAX_DIM ==> #[trigger] units@[k].wf(),
                forall|k: int| 0 <= k < i ==> #[trigger] units@[k]@ == (UnitState { weights: Seq::new(D as nat, |k: int| 0i64), threshold: 0 }),
            decreases N - i,
        {
            units.push(Perceptron::new());
            i += 1;
        }
        OneLayerNN { units }
    }

    /// The code of the units' decisions on `input`: bit `i` is set exactly
    /// when unit `i` decides `true`; bits from `N` up are clear.
    pub fn decide_for(&self, input: &[i32; D]) -> (r: u64)
        requires
            self.wf(),
        ensures
            r == code_of(self@, input@, N as int),
            forall|i: u64| i < N ==> #[trigger] bit_of(r, i) == self@[i as int].decides(input@),
            forall|i: u64| N <= i < 64 ==> !#[trigger] bit_of(r, i),
    {
        let decisions = decide_each(&self.units, input);
        let mut code: u64 = 0;
        assert forall|k: u64| k < 64 implies !#[trigger] bit_of(0u64, k) by {
            assert((0u64 >> k) & 1u64 == 0u64) by (bit_vector);
        }
        let mut i: usize = 0;
        while i < N
            invariant
                self.wf(),
                decisions@.len() == N,
                forall|k: int| 0 <= k < N ==> decisions@[k] == #[trigger] self.units@[k]@.decides(input@),
                i <= N,
                code == code_of(self@, input@, i as int),
                forall|k: u64| k < i ==> #[trigger] bit_of(code, k) == self@[k as int].decides(input@),
                forall|k: u64| i <= k < 64 ==> !#[trigger] bit_of(code, k),
            decreases N - i,
        {
            let ghost prev = code;
            if decisions[i] {
                code = code | (1u64 << (i as u64));
                assert forall|k: u64| k < 64 implies #[trigger] bit_of(code, k) == (k == i || bit_of(prev, k)) by {
                    let ii: u64 = i as u64;
                    assert(((prev | (1u64 << ii)) >> k) & 1u64 == 1u64 <==> (k == ii || (prev >> k) & 1u64 == 1u64)) by (bit_vector)
                        requires
                            k < 64,
                            ii < 64,
                    ;
                }
            }
            assert(self@[i as int] == self.units@[i as int]@);
            i += 1;
        }
        code
    }
    /// One training step on `input`: every unit trains against the
    /// expectation of its own bit. The sample is correct when it was correct
    /// for every unit.
    pub fn train_on_sample<E: IntExpect>(&mut self, input: &[i32; D], expectation: &E) -> (r: Correctness)
        requires
            old(self).wf(),
        ensures
            final(self).wf(),
            final(self)@ == units_after(old(self)@, input@, *expectation),
            r == ensemble_outcome(old(self)@, input@, *expectation),
    {
        let mut bits: Vec<BoolExpectation> = Vec::new();
        let mut i: usize = 0;
        while i < N
            invariant
                N <= 64,
                i <= N,
                bits@.len() == i,
                forall|k: int| 0 <= k < i ==> bits@[k] == #[trigger] expectation.bit_spec(k),
            decreases N - i,
        {
            bits.push(expectation.bit_expectation(i));
            i += 1;
        }
        let ghost before = self@;
        let ghost old_units = self.units@;
        let reports = train_each(&mut self.units, input, &bits);
        assert forall|k: int| 0 <= k < N implies {
            &&& self.units@[k].wf()
            &&& #[trigger] self@[k] == units_after(before, input@, *expectation)[k]
            &&& reports@[k] == before[k].outcome(input@, expectation.bit_spec(k))
        } by {
            assert(reports@[k] == old_units[k]@.outcome(input@, bits@[k]));
            assert(before[k] == old_units[k]@);
        }
        assert(self@.len() == N);
        assert forall|k: int| 0 <= k < N implies #[trigger] self.units@[k].wf() by {
            assert(self@[k] == units_after(before, input@, *expectation)[k]);
        }
        assert(self@ =~= units_after(before, input@, *expectation));
        let mut all_correct = true;
        let mut j: usize = 0;
        while j < N
            invariant
                self.wf(),
                self@ == units_after(before, input@, *expectation),
                reports@.len() == N,
                before.len() == N,
                j <= N,
                forall|k: int| 0 <= k < N ==> reports@[k] == #[trigger] before[k].outcome(input@, expectation.bit_spec(k)),
                all_correct == forall|k: int| 0 <= k < j ==> #[trigger] before[k].outcome(input@, expectation.bit_spec(k)) == Correctness::Correct,
            decreases N - j,
        {
            assert(reports@[j as int] == before[j as int].outcome(input@, expectation.bit_spec(j as int)));
            if !reports[j].is_correct() {
                all_correct = false;
            }
            j += 1;
        }
        if all_correct {
            Correctness::Correct
        } else {
            Correctness::Incorrect
        }
    }

    /// The accuracy of the codes on a batch, without training; none for an
    /// empty batch.
    pub fn accuracy_for<E: IntExpect>(&self, inputs: &Vec<[i32; D]>, expected: &Vec<E>) -> (r: Option<Accuracy>)
        requires
            self.wf(),
        ensures
            terms(r) == score_of(
                ensemble_count_met(self@, input_seqs(inputs@), expected@, batch_len(inputs@.len(), expected@.len()) as int),
                batch_len(inputs@.len(), expected@.len()),
            ),
            r == accuracy_from(score_of(
                ensemble_count_met(self@, input_seqs(inputs@), expected@, batch_len(inputs@.len(), expected@.len()) as int),
                batch_len(inputs@.len(), expected@.len()),
            )),
    {
        let n: usize = if inputs.len() <= expected.len() {
            inputs.len()
        } else {
            expected.len()
        };
        let ghost xs = input_seqs(inputs@);
        let mut correct: u64 = 0;
        let mut i: usize = 0;
        while i < n
            invariant
                self.wf(),
                n <= inputs@.len(),
                n <= expected@.len(),
                xs == input_seqs(inputs@),
                i <= n,
                correct == ensemble_count_met(self@, xs, expected@, i as int),
                correct <= i,
            decreases n - i,
        {
            if expected[i].is_met_by(self.decide_for(&inputs[i])) {
                correct += 1;
            }
            i += 1;
        }
        Accuracy::of(correct, n as u64)
    }

    /// One training pass over a batch, in order; returns the accuracy of the
    /// pass itself, or none for an empty batch.
    pub fn train_on<E: IntExpect>(&mut self, inputs: &Vec<[i32; D]>, expecteds: &Vec<E>) -> (r: Option<Accuracy>)
        requires
            old(self).wf(),
        ensures
            final(self).wf(),
            final(self)@ == ensemble_pass(old(self)@, input_seqs(inputs@), expecteds@, batch_len(inputs@.len(), expecteds@.len()) as int).0,
            terms(r) == score_of(
                ensemble_pass(old(self)@, input_seqs(inputs@), expecteds@, batch_len(inputs@.len(), expecteds@.len()) as int).1,
                batch_len(inputs@.len(), expecteds@.len()),
            ),
            r == accuracy_from(score_of(
                ensemble_pass(old(self)@, input_seqs(inputs@), expecteds@, batch_len(inputs@.len(), expecteds@.len()) as int).1,
                batch_len(inputs@.len(), expecteds@.len()),
            )),
    {
        let n: usize = if inputs.len() <= expecteds.len() {
            inputs.len()
        } else {
            expecteds.len()
        };
        let ghost xs = input_seqs(inputs@);
        let ghost start = self@;
        let mut correct: u64 = 0;
        let mut i: usize = 0;
        while i < n
            invariant
                self.wf(),
                n <= inputs@.len(),
                n <= expecteds@.len(),
                xs == input_seqs(inputs@),
                i <= n,
                (self@, correct as nat) == ensemble_pass(start, xs, expecteds@, i as int),
                correct <= i,
            decreases n - i,
        {
            if self.train_on_sample(&inputs[i], &expecteds[i]).is_correct() {
                correct += 1;
            }
            i += 1;
        }
        Accuracy::of(correct, n as u64)
    }

    /// Trains on the batch pass after pass until a plateau or the iteration
    /// budget ends the run, and returns the accuracy of the last pass (none if
    /// no pass ran or the batch is empty); see [`crate::fit::fit`].
    pub fn fit<E: IntExpect>(
        &mut self,
        inputs: &Vec<[i32; D]>,
        expecteds: &Vec<E>,
        max_progress_reattempts: u64,
        max_iterations: IterationBudget,
        old_score: Option<Accuracy>,
    ) -> (r: Option<Accuracy>)
        requires
            old(self).wf(),
        ensures
            final(self).wf(),
            max_iterations.exhausted_spec() ==> r == None::<Accuracy> && final(self)@ == old(self)@,
            !max_iterations.exhausted_spec() ==> (r is Some <==> batch_len(inputs@.len(), expecteds@.len()) > 0),
            !max_iterations.exhausted_spec() ==> exists|k: nat|
                #[trigger] fit_outcome::<OneLayerNN<N, D>, (&Vec<[i32; D]>, &Vec<E>), Seq<UnitState>>(
                    old(self)@,
                    (inputs, expecteds),
                    k,
                    old_score,
                    max_progress_reattempts,
                    max_iterations,
                    final(self)@,
                    r,
                ),
    {
        crate::fit::fit(self, &(inputs, expecteds), max_progress_reattempts, max_iterations, old_score)
    }

    /// Trains until a plateau of `max_progress_reattempts + 1` passes without
    /// progress, starting from a score of zero to beat.
    pub fn fit_to<E: IntExpect>(
        &mut self,
        inputs: &Vec<[i32; D]>,
        expecteds: &Vec<E>,
        max_progress_reattempts: u64,
    ) -> (r: Option<Accuracy>)
        requires
            old(self).wf(),
        ensures
            final(self).wf(),
            r is Some <==> batch_len(inputs@.len(), expecteds@.len()) > 0,
            exists|k: nat|
                #[trigger] fit_outcome::<OneLayerNN<N, D>, (&Vec<[i32; D]>, &Vec<E>), Seq<UnitState>>(
                    old(self)@,
                    (inputs, expecteds),
                    k,
                    accuracy_from(score_of(0, 1)),
                    max_progress_reattempts,
                    IterationBudget::Unbounded,
                    final(self)@,
                    r,
                ),
    {
        let zero = Accuracy::of(0, 1);
        self.fit(inputs, expecteds, max_progress_reattempts, IterationBudget::Unbounded, zero)
    }
}

impl<'a, const N: usize, const D: usize, E: IntExpect> Learner<(&'a Vec<[i32; D]>, &'a Vec<E>), Seq<UnitState>> for OneLayerNN<N, D> {
    open spec fn inv(&self) -> bool {
        self.wf()
    }

    open spec fn state(&self) -> Seq<UnitState> {
        self@
    }

    open spec fn batch_size(batch: (&'a Vec<[i32; D]>, &'a Vec<E>)) -> nat {
        batch_len(batch.0@.len(), batch.1@.len())
    }

    open spec fn correct_now(s: Seq<UnitState>, batch: (&'a Vec<[i32; D]>, &'a Vec<E>)) -> nat {
        ensemble_count_met(s, input_seqs(batch.0@), batch.1@, batch_len(batch.0@.len(), batch.1@.len()) as int)
    }

    open spec fn after_pass(s: Seq<UnitState>, batch: (&'a Vec<[i32; D]>, &'a Vec<E>)) -> Seq<UnitState> {
        ensemble_pass(s, input_seqs(batch.0@), batch.1@, batch_len(batch.0@.len(), batch.1@.len()) as int).0
    }

    open spec fn pass_correct(s: Seq<UnitState>, batch: (&'a Vec<[i32; D]>, &'a Vec<E>)) -> nat {
        ensemble_pass(s, input_seqs(batch.0@), batch.1@, batch_len(batch.0@.len(), batch.1@.len()) as int).1
    }

    proof fn lemma_pass_correct_bound(s: Seq<UnitState>, batch: (&'a Vec<[i32; D]>, &'a Vec<E>)) {
        lemma_ensemble_pass_count(s, input_seqs(batch.0@), batch.1@, batch_len(batch.0@.len(), batch.1@.len()) as int);
    }

    fn accuracy_on(&self, batch: &(&'a Vec<[i32; D]>, &'a Vec<E>)) -> (r: Option<Accuracy>) {
        self.accuracy_for(batch.0, batch.1)
    }

    fn train_pass(&mut self, batch: &(&'a Vec<[i32; D]>, &'a Vec<E>)) -> (r: Option<Accuracy>) {
        // The length of a `Vec` fits a `usize`, so the batch size fits a `u64`.
        let _inputs_len: usize = batch.0.len();
        self.train_on(batch.0, batch.1)
    }
}

proof fn lemma_ensemble_pass_count<E: IntExpect>(u: Seq<UnitState>, xs: Seq<Seq<i32>>, es: Seq<E>, n: int)
    requires
        n >= 0,
    ensures
        ensemble_pass(u, xs, es, n).1 <= n,
    decreases n,
{
    if n > 0 {
        lemma_ensemble_pass_count(u, xs, es, n - 1);
    }
}

} // verus!
