//! The decisions of the adaptive training loop: when a pass counts as
//! progress, when a plateau ends the run, and how many passes are allowed.
use vstd::prelude::*;

use crate::score::{
    accuracy_from, improves, lemma_accuracy_exists, lemma_accuracy_value, lemma_improvement_counts, score_of, Accuracy,
};

verus! {

/// How many training passes a run may make.
#[derive(Clone, Copy, Debug, PartialEq, Eq, Structural)]
pub enum IterationBudget {
    /// At most this many more passes.
    Bounded(u64),
    /// No limit: only a plateau ends the run.
    Unbounded,
}

impl IterationBudget {
    pub open spec fn exhausted_spec(self) -> bool {
        self == IterationBudget::Bounded(0)
    }

    /// The budget after one more pass.
    pub open spec fn decremented(self) -> IterationBudget {
        match self {
            IterationBudget::Bounded(n) => if n > 0 {
                IterationBudget::Bounded((n - 1) as u64)
            } else {
                self
            },
            IterationBudget::Unbounded => self,
        }
    }

    /// Whether no pass is left; never for an unbounded budget.
    pub fn is_exhausted(&self) -> (r: bool)
        ensures
            r == self.exhausted_spec(),
    {
        match self {
            IterationBudget::Bounded(n) => *n == 0,
            IterationBudget::Unbounded => false,
        }
    }

    /// Counts one pass; does nothing to an unbounded or exhausted budget.
    pub fn decrement(&mut self)
        ensures
            *final(self) == old(self).decremented(),
    {
        if let IterationBudget::Bounded(n) = self {
            if *n > 0 {
                *n = *n - 1;
            }
        }
    }
}

/// Plateau detection: the best score so far and how many more passes without
/// progress are tolerated.
#[derive(Clone, Copy, Debug)]
pub struct Plateau {
    pub best: Option<Accuracy>,
    pub reattempts_left: u64,
    pub max_reattempts: u64,
}

impl Plateau {
    /// The state after a pass that scored `score`, and whether the run stops.
    /// A strict improvement is committed and restores the full reattempt
    /// budget; anything else uses one reattempt, and stops the run when none
    /// is left.
    pub open spec fn next(self, score: Option<Accuracy>) -> (Plateau, bool) {
        if improves(score, self.best) {
            (Plateau { best: score, reattempts_left: self.max_reattempts, ..self }, false)
        } else if self.reattempts_left == 0 {
            (self, true)
        } else {
            (Plateau { reattempts_left: (self.reattempts_left - 1) as u64, ..self }, false)
        }
    }

    /// The state after a run of pass scores, and whether one of them stopped
    /// the run (after which the rest are ignored).
    pub open spec fn run(self, scores: Seq<Option<Accuracy>>) -> (Plateau, bool)
        decreases scores.len(),
    {
        if scores.len() == 0 {
            (self, false)
        } else {
            let (p, stopped) = self.run(scores.drop_last());
            if stopped {
                (p, true)
            } else {
                p.next(scores.last())
            }
        }
    }

    /// Whether a run fed `scores` (one per pass, `k` of them) stops exactly
    /// after the last: it had not stopped before it, and it stopped there
    /// unless the iteration budget ran out.
    pub open spec fn stops_at(self, scores: Seq<Option<Accuracy>>, k: nat, budget: IterationBudget) -> bool {
        &&& scores.len() == k
        &&& 1 <= k
        &&& !self.run(scores.take(k - 1)).1
        &&& (self.run(scores).1 || budget == IterationBudget::Bounded(k as u64))
    }

    /// A fresh detector: `initial` is the score to beat.
    pub fn new(initial: Option<Accuracy>, max_reattempts: u64) -> (r: Plateau)
        ensures
            r == (Plateau { best: initial, reattempts_left: max_reattempts, max_reattempts }),
    {
        Plateau { best: initial, reattempts_left: max_reattempts, max_reattempts }
    }

    /// Takes the score of one pass; returns whether the run stops.
    pub fn observe(&mut self, score: Option<Accuracy>) -> (stop: bool)
        ensures
            (*final(self), stop) == old(self).next(score),
    {
        if crate::score::is_improvement(&score, &self.best) {
            self.best = score;
            self.reattempts_left = self.max_reattempts;
            false
        } else if self.reattempts_left == 0 {
            true
        } else {
            self.reattempts_left = self.reattempts_left - 1;
            false
        }
    }
}

/// Committed scores only go up: whenever a pass changes the best score, the
/// new best is a strict improvement on the old one.
pub proof fn lemma_commit_is_improvement(p: Plateau, score: Option<Accuracy>)
    ensures
        p.next(score).0.best != p.best ==> improves(p.next(score).0.best, p.best),
{
}

proof fn lemma_plateau_prefix(p: Plateau, scores: Seq<Option<Accuracy>>)
    requires
        forall|i: int| 0 <= i < scores.len() ==> !improves(#[trigger] scores[i], p.best),
    ensures
        scores.len() <= p.reattempts_left ==> p.run(scores) == (
        Plateau { reattempts_left: (p.reattempts_left - scores.len()) as u64, ..p },
        false,
        ),
        scores.len() > p.reattempts_left ==> p.run(scores).1,
    decreases scores.len(),
{
    if scores.len() > 0 {
        let init = scores.drop_last();
        assert forall|i: int| 0 <= i < init.len() implies !improves(#[trigger] init[i], p.best) by {
            assert(init[i] == scores[i]);
        }
        lemma_plateau_prefix(p, init);
        assert(!improves(scores.last(), p.best));
    }
}

proof fn lemma_run_step(p: Plateau, scores: Seq<Option<Accuracy>>, i: int)
    requires
        0 <= i < scores.len(),
    ensures
        p.run(scores.take(i + 1)) == (if p.run(scores.take(i)).1 {
            (p.run(scores.take(i)).0, true)
        } else {
            p.run(scores.take(i)).0.next(scores[i])
        }),
{
    assert(scores.take(i + 1).drop_last() =~= scores.take(i));
    assert(scores.take(i + 1).last() == scores[i]);
}

proof fn lemma_run_sticky(p: Plateau, scores: Seq<Option<Accuracy>>, i: int, j: int)
    requires
        0 <= i <= j <= scores.len(),
        p.run(scores.take(i)).1,
    ensures
        p.run(scores.take(j)).1,
    decreases j - i,
{
    if i < j {
        lemma_run_step(p, scores, i);
        lemma_run_sticky(p, scores, i + 1, j);
    }
}

proof fn lemma_run_split(p: Plateau, scores: Seq<Option<Accuracy>>, i: int, m: int)
    requires
        0 <= i,
        0 <= m,
        i + m <= scores.len(),
        !p.run(scores.take(i)).1,
    ensures
        p.run(scores.take(i + m)) == p.run(scores.take(i)).0.run(scores.subrange(i, i + m)),
    decreases m,
{
    let q = p.run(scores.take(i)).0;
    if m == 0 {
        assert(scores.subrange(i, i) =~= Seq::<Option<Accuracy>>::empty());
    } else {
        lemma_run_split(p, scores, i, m - 1);
        lemma_run_step(p, scores, i + m - 1);
        let w = scores.subrange(i, i + m);
        assert(w.drop_last() =~= scores.subrange(i, i + m - 1));
        assert(w.last() == scores[i + m - 1]);
    }
}

proof fn lemma_run_in_range(p: Plateau, scores: Seq<Option<Accuracy>>)
    requires
        p.reattempts_left <= p.max_reattempts,
    ensures
        p.run(scores).0.reattempts_left <= p.max_reattempts,
        p.run(scores).0.max_reattempts == p.max_reattempts,
    decreases scores.len(),
{
    if scores.len() > 0 {
        lemma_run_in_range(p, scores.drop_last());
    }
}

/// Over a whole run, pass `i` is measured against the last committed score
/// only: it is committed exactly when it strictly improves on that score,
/// and a commit restores the full reattempt budget. So the committed scores,
/// in pass order, rise strictly from the initial one.
pub proof fn lemma_run_commits_increase(p: Plateau, scores: Seq<Option<Accuracy>>, i: int)
    requires
        0 <= i < scores.len(),
        !p.run(scores.take(i)).1,
        p.reattempts_left <= p.max_reattempts,
    ensures
        ({
            let before = p.run(scores.take(i)).0;
            let after = p.run(scores.take(i + 1)).0;
            &&& improves(scores[i], before.best) ==> after.best == scores[i]
                && after.reattempts_left == p.max_reattempts && !p.run(scores.take(i + 1)).1
            &&& !improves(scores[i], before.best) ==> after.best == before.best
            &&& after.best != before.best ==> improves(after.best, before.best)
        }),
{
    lemma_run_step(p, scores, i);
    lemma_run_in_range(p, scores.take(i));
}

/// Over a whole run: once `R + 1` passes in a row fail to improve on the
/// score committed before them, the run has stopped, `R` being the
/// reattempt budget.
pub proof fn lemma_run_reattempt_bound(p: Plateau, scores: Seq<Option<Accuracy>>, i: int)
    requires
        p.reattempts_left <= p.max_reattempts,
        0 <= i,
        i + p.max_reattempts + 1 <= scores.len(),
        forall|j: int|
            i <= j < i + p.max_reattempts + 1 ==> !improves(
                #[trigger] scores[j],
                p.run(scores.take(i)).0.best,
            ),
    ensures
        p.run(scores.take(i + p.max_reattempts + 1)).1,
{
    let m = p.max_reattempts + 1;
    if p.run(scores.take(i)).1 {
        lemma_run_sticky(p, scores, i, i + m);
    } else {
        let q = p.run(scores.take(i)).0;
        lemma_run_in_range(p, scores.take(i));
        lemma_run_split(p, scores, i, m);
        let w = scores.subrange(i, i + m);
        assert forall|j: int| 0 <= j < w.len() implies !improves(#[trigger] w[j], q.best) by {
            assert(w[j] == scores[i + j]);
        }
        lemma_reattempt_bound(q, w);
    }
}

/// For a run that stops after pass `k`: every pass before the stop is
/// measured against the last committed score, and committed scores rise
/// strictly (see [`lemma_run_commits_increase`]).
pub proof fn lemma_stopped_run_commits_increase(
    p: Plateau,
    scores: Seq<Option<Accuracy>>,
    k: nat,
    budget: IterationBudget,
    i: int,
)
    requires
        p.stops_at(scores, k, budget),
        p.reattempts_left <= p.max_reattempts,
        0 <= i < k,
    ensures
        !p.run(scores.take(i)).1,
        ({
            let before = p.run(scores.take(i)).0;
            let after = p.run(scores.take(i + 1)).0;
            &&& improves(scores[i], before.best) ==> after.best == scores[i]
                && after.reattempts_left == p.max_reattempts
            &&& !improves(scores[i], before.best) ==> after.best == before.best
            &&& after.best != before.best ==> improves(after.best, before.best)
        }),
{
    if p.run(scores.take(i)).1 {
        lemma_run_sticky(p, scores, i, k - 1);
    }
    lemma_run_commits_increase(p, scores, i);
}

/// For a run that stops after pass `k`: if passes `i` to `i + R` (that is,
/// `R + 1` in a row) all fail to improve on the score committed before
/// them, the run stops right after the last of them, whatever the budget.
pub proof fn lemma_stopped_run_reattempt_bound(
    p: Plateau,
    scores: Seq<Option<Accuracy>>,
    k: nat,
    budget: IterationBudget,
    i: int,
)
    requires
        p.stops_at(scores, k, budget),
        p.reattempts_left <= p.max_reattempts,
        0 <= i,
        i + p.max_reattempts + 1 <= k,
        forall|j: int|
            i <= j < i + p.max_reattempts + 1 ==> !improves(
                #[trigger] scores[j],
                p.run(scores.take(i)).0.best,
            ),
    ensures
        k == i + p.max_reattempts + 1,
        p.run(scores).1,
{
    lemma_run_reattempt_bound(p, scores, i);
    let m = i + p.max_reattempts + 1;
    if m < k {
        lemma_run_sticky(p, scores, m, k - 1);
    }
    assert(scores.take(k as int) =~= scores);
}

/// A run stops within `R + 1` consecutive passes that fail to improve on the
/// best score, where `R` is the reattempt budget, whatever the iteration
/// budget.
pub proof fn lemma_reattempt_bound(p: Plateau, scores: Seq<Option<Accuracy>>)
    requires
        p.reattempts_left <= p.max_reattempts,
        scores.len() == p.max_reattempts + 1,
        forall|i: int| 0 <= i < scores.len() ==> !improves(#[trigger] scores[i], p.best),
    ensures
        p.run(scores).1,
{
    lemma_plateau_prefix(p, scores);
}

/// A model trained pass after pass on a batch of type `B`; `S` is the
/// mathematical state of the model.
pub trait Learner<B, S> {
    /// The model is well formed.
    spec fn inv(&self) -> bool;

    /// The model's state.
    spec fn state(&self) -> S;

    /// How many samples the batch holds.
    spec fn batch_size(batch: B) -> nat;

    /// How many samples state `s` decides correctly, without training.
    spec fn correct_now(s: S, batch: B) -> nat;

    /// The state after one training pass over the batch.
    spec fn after_pass(s: S, batch: B) -> S;

    /// How many samples were correct before their own step in that pass.
    spec fn pass_correct(s: S, batch: B) -> nat;

    proof fn lemma_pass_correct_bound(s: S, batch: B)
        ensures
            Self::pass_correct(s, batch) <= Self::batch_size(batch),
    ;

    /// The accuracy on the batch, without training.
    fn accuracy_on(&self, batch: &B) -> (r: Option<Accuracy>)
        requires
            self.inv(),
        ensures
            r == accuracy_from(score_of(Self::correct_now(self.state(), *batch), Self::batch_size(*batch))),
    ;

    /// One training pass; returns the accuracy of the pass itself.
    fn train_pass(&mut self, batch: &B) -> (r: Option<Accuracy>)
        requires
            old(self).inv(),
        ensures
            final(self).inv(),
            final(self).state() == Self::after_pass(old(self).state(), *batch),
            Self::batch_size(*batch) <= u64::MAX,
            r == accuracy_from(score_of(Self::pass_correct(old(self).state(), *batch), Self::batch_size(*batch))),
    ;
}

/// The state after `k` whole passes.
pub open spec fn repeat<L: Learner<B, S>, B, S>(s: S, batch: B, k: nat) -> S
    decreases k,
{
    if k == 0 {
        s
    } else {
        L::after_pass(repeat::<L, B, S>(s, batch, (k - 1) as nat), batch)
    }
}

/// The score of pass `j + 1`, counting from state `s`.
pub open spec fn pass_score<L: Learner<B, S>, B, S>(s: S, batch: B, j: nat) -> Option<Accuracy> {
    accuracy_from(score_of(L::pass_correct(repeat::<L, B, S>(s, batch, j), batch), L::batch_size(batch)))
}

/// The scores of the first `k` passes.
pub open spec fn pass_scores<L: Learner<B, S>, B, S>(s: S, batch: B, k: nat) -> Seq<Option<Accuracy>> {
    Seq::new(k, |j: int| pass_score::<L, B, S>(s, batch, j as nat))
}

/// The score a run has to beat: the one given, or else the accuracy of state
/// `s` on the batch.
pub open spec fn baseline<L: Learner<B, S>, B, S>(s: S, batch: B, given: Option<Accuracy>) -> Option<Accuracy> {
    if given is Some {
        given
    } else {
        accuracy_from(score_of(L::correct_now(s, batch), L::batch_size(batch)))
    }
}

/// The plateau detector a run starts with.
pub open spec fn fit_plateau<L: Learner<B, S>, B, S>(s: S, batch: B, given: Option<Accuracy>, max_reattempts: u64) -> Plateau {
    Plateau { best: baseline::<L, B, S>(s, batch, given), reattempts_left: max_reattempts, max_reattempts }
}

/// Whether a run of `k` passes from state `s` ends in state `after` with the
/// score `r` of its last pass, and stops exactly there: the plateau detector,
/// fed the pass scores, had not stopped before the last pass, and stopped at
/// it unless the budget ran out.
pub open spec fn fit_outcome<L: Learner<B, S>, B, S>(
    s: S,
    batch: B,
    k: nat,
    given: Option<Accuracy>,
    max_reattempts: u64,
    budget: IterationBudget,
    after: S,
    r: Option<Accuracy>,
) -> bool {
    &&& after == repeat::<L, B, S>(s, batch, k)
    &&& r == pass_score::<L, B, S>(s, batch, (k - 1) as nat)
    &&& (budget matches IterationBudget::Bounded(m) ==> k <= m)
    &&& fit_plateau::<L, B, S>(s, batch, given, max_reattempts).stops_at(pass_scores::<L, B, S>(s, batch, k), k, budget)
}

/// Trains `learner` on `batch` pass after pass until a plateau or the
/// iteration budget ends the run, and returns the accuracy of the last pass
/// (none if no pass ran or the batch is empty). Without `old_score` the score
/// to beat is the learner's accuracy on the batch before training. With an
/// unbounded budget the run still ends: each committed improvement needs
/// strictly more correct samples than the last.
pub fn fit<L: Learner<B, S>, B, S>(
    learner: &mut L,
    batch: &B,
    max_progress_reattempts: u64,
    max_iterations: IterationBudget,
    old_score: Option<Accuracy>,
) -> (r: Option<Accuracy>)
    requires
        old(learner).inv(),
    ensures
        final(learner).inv(),
        max_iterations.exhausted_spec() ==> r == None::<Accuracy> && final(learner).state() == old(learner).state(),
        !max_iterations.exhausted_spec() ==> (r is Some <==> L::batch_size(*batch) > 0),
        !max_iterations.exhausted_spec() ==> exists|k: nat|
            #[trigger] fit_outcome::<L, B, S>(
                old(learner).state(),
                *batch,
                k,
                old_score,
                max_progress_reattempts,
                max_iterations,
                final(learner).state(),
                r,
            ),
{
    let ghost start = learner.state();
    let ghost n: int = L::batch_size(*batch) as int;
    let mut baseline = old_score;
    if baseline.is_none() {
        baseline = learner.accuracy_on(batch);
    }
    let mut plateau = Plateau::new(baseline, max_progress_reattempts);
    let ghost p0 = plateau;
    assert(p0 == fit_plateau::<L, B, S>(start, *batch, old_score, max_progress_reattempts));
    assert(pass_scores::<L, B, S>(start, *batch, 0) =~= Seq::<Option<Accuracy>>::empty());
    let mut budget = max_iterations;
    let mut new_score: Option<Accuracy> = None;
    let ghost mut bc: int = -1;
    let ghost mut k: nat = 0;
    while !budget.is_exhausted()
        invariant
            learner.inv(),
            n == L::batch_size(*batch) as int,
            start == old(learner).state(),
            learner.state() == repeat::<L, B, S>(start, *batch, k),
            p0 == fit_plateau::<L, B, S>(start, *batch, old_score, max_progress_reattempts),
            (plateau, false) == p0.run(pass_scores::<L, B, S>(start, *batch, k)),
            k == 0 ==> new_score == None::<Accuracy>,
            k > 0 ==> new_score == pass_score::<L, B, S>(start, *batch, (k - 1) as nat),
            k > 0 ==> (new_score is Some <==> n > 0),
            max_iterations matches IterationBudget::Bounded(m) ==> k <= m && budget == IterationBudget::Bounded((m - k) as u64),
            max_iterations == IterationBudget::Unbounded ==> budget == IterationBudget::Unbounded,
            plateau.max_reattempts == max_progress_reattempts,
            plateau.reattempts_left <= max_progress_reattempts,
            -1 <= bc <= n,
            bc >= 0 ==> (plateau.best matches Some(b) && b.denom_spec() > 0 && b.numer_spec() * n == bc * b.denom_spec()),
        decreases n - bc, plateau.reattempts_left,
    {
        let ghost before = learner.state();
        new_score = learner.train_pass(batch);
        let ghost c: nat = L::pass_correct(before, *batch);
        proof {
            lemma_accuracy_exists(c, n as nat);
            L::lemma_pass_correct_bound(before, *batch);
            k = k + 1;
            assert(learner.state() == repeat::<L, B, S>(start, *batch, k));
            let prev = pass_scores::<L, B, S>(start, *batch, (k - 1) as nat);
            let cur = pass_scores::<L, B, S>(start, *batch, k);
            assert(cur.drop_last() =~= prev);
            assert(cur.take(k - 1) =~= prev);
            assert(cur.last() == new_score);
        }
        let ghost old_plateau = plateau;
        let stop = plateau.observe(new_score);
        if stop {
            assert(fit_outcome::<L, B, S>(start, *batch, k, old_score, max_progress_reattempts, max_iterations, learner.state(), new_score));
            return new_score;
        }
        proof {
            if improves(new_score, old_plateau.best) {
                lemma_accuracy_value(c, n as nat);
                if bc >= 0 {
                    lemma_improvement_counts(new_score.unwrap(), old_plateau.best.unwrap(), c, bc as nat, n as nat);
                }
                bc = c as int;
            }
        }
        budget.decrement();
    }
    proof {
        if k > 0 {
            let cur = pass_scores::<L, B, S>(start, *batch, k);
            assert(cur.take(k - 1) =~= cur.drop_last());
            assert(fit_outcome::<L, B, S>(start, *batch, k, old_score, max_progress_reattempts, max_iterations, learner.state(), new_score));
        }
    }
    new_score
}

/// Over a whole run of [`fit`] (`k` passes from state `s`): pass `i` is
/// committed exactly when its score strictly improves on the last committed
/// one (the baseline before any commit), a commit restores the full
/// reattempt budget, and so the committed scores rise strictly.
pub proof fn lemma_fit_commits_increase<L: Learner<B, S>, B, S>(
    s: S,
    batch: B,
    k: nat,
    given: Option<Accuracy>,
    max_reattempts: u64,
    budget: IterationBudget,
    after: S,
    r: Option<Accuracy>,
    i: int,
)
    requires
        fit_outcome::<L, B, S>(s, batch, k, given, max_reattempts, budget, after, r),
        0 <= i < k,
    ensures
        ({
            let p0 = fit_plateau::<L, B, S>(s, batch, given, max_reattempts);
            let scores = pass_scores::<L, B, S>(s, batch, k);
            let before = p0.run(scores.take(i)).0;
            let next = p0.run(scores.take(i + 1)).0;
            &&& improves(scores[i], before.best) ==> next.best == scores[i]
                && next.reattempts_left == max_reattempts
            &&& !improves(scores[i], before.best) ==> next.best == before.best
            &&& next.best != before.best ==> improves(next.best, before.best)
        }),
{
    lemma_stopped_run_commits_increase(
        fit_plateau::<L, B, S>(s, batch, given, max_reattempts),
        pass_scores::<L, B, S>(s, batch, k),
        k,
        budget,
        i,
    );
}

/// A run of [`fit`] (`k` passes from state `s`) never makes more than `R + 1`
/// passes in a row that fail to improve on the last committed score: after
/// the `R + 1`-th it has returned, with that pass's score, whatever the
/// budget.
pub proof fn lemma_fit_reattempt_bound<L: Learner<B, S>, B, S>(
    s: S,
    batch: B,
    k: nat,
    given: Option<Accuracy>,
    max_reattempts: u64,
    budget: IterationBudget,
    after: S,
    r: Option<Accuracy>,
    i: int,
)
    requires
        fit_outcome::<L, B, S>(s, batch, k, given, max_reattempts, budget, after, r),
        0 <= i,
        i + max_reattempts + 1 <= k,
        forall|j: int|
            i <= j < i + max_reattempts + 1 ==> !improves(
                #[trigger] pass_scores::<L, B, S>(s, batch, k)[j],
                fit_plateau::<L, B, S>(s, batch, given, max_reattempts).run(
                    pass_scores::<L, B, S>(s, batch, k).take(i),
                ).0.best,
            ),
    ensures
        k == i + max_reattempts + 1,
        r == pass_scores::<L, B, S>(s, batch, k)[i + max_reattempts],
{
    lemma_stopped_run_reattempt_bound(
        fit_plateau::<L, B, S>(s, batch, given, max_reattempts),
        pass_scores::<L, B, S>(s, batch, k),
        k,
        budget,
        i,
    );
}

} // verus!
