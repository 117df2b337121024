use perc_ic::score::is_improvement;
use perc_ic::{Accuracy, IterationBudget, Plateau};

#[test]
fn three_of_four_is_exactly_three_quarters() {
    let a = Accuracy::of(3, 4).unwrap();
    assert_eq!(a.numer(), 3);
    assert_eq!(a.denom(), 4);
}

#[test]
fn scores_are_reduced() {
    let a = Accuracy::of(2, 4).unwrap();
    assert_eq!((a.numer(), a.denom()), (1, 2));
    let z = Accuracy::of(0, 7).unwrap();
    assert_eq!((z.numer(), z.denom()), (0, 1));
    let one = Accuracy::of(9, 9).unwrap();
    assert_eq!((one.numer(), one.denom()), (1, 1));
    let b = Accuracy::of(6, 15).unwrap();
    assert_eq!((b.numer(), b.denom()), (2, 5));
}

#[test]
fn empty_total_has_no_score() {
    assert_eq!(Accuracy::of(0, 0), None);
}

#[test]
fn improvement_is_strict_and_exact() {
    let half = Accuracy::of(1, 2);
    let two_quarters = Accuracy::of(2, 4);
    let third = Accuracy::of(1, 3);
    assert!(!is_improvement(&two_quarters, &half));
    assert!(is_improvement(&half, &third));
    assert!(!is_improvement(&third, &half));
    assert!(is_improvement(&third, &None));
    assert!(!is_improvement(&None, &None));
    assert!(!is_improvement(&None, &half));
    let close = Accuracy::of(u64::MAX - 1, u64::MAX);
    let closer = Accuracy::of(u64::MAX - 2, u64::MAX - 1);
    assert!(is_improvement(&close, &closer));
}

#[test]
fn budget_counts_down() {
    let mut b = IterationBudget::Bounded(2);
    assert!(!b.is_exhausted());
    b.decrement();
    assert_eq!(b, IterationBudget::Bounded(1));
    b.decrement();
    assert!(b.is_exhausted());
    b.decrement();
    assert_eq!(b, IterationBudget::Bounded(0));
    let mut u = IterationBudget::Unbounded;
    u.decrement();
    assert!(!u.is_exhausted());
}

#[test]
fn plateau_commits_only_improvements() {
    let mut p = Plateau::new(Accuracy::of(1, 4), 2);
    assert!(!p.observe(Accuracy::of(1, 2)));
    assert_eq!(p.best, Accuracy::of(1, 2));
    assert_eq!(p.reattempts_left, 2);
    assert!(!p.observe(Accuracy::of(1, 4)));
    assert_eq!(p.best, Accuracy::of(1, 2));
    assert_eq!(p.reattempts_left, 1);
    assert!(!p.observe(Accuracy::of(3, 4)));
    assert_eq!(p.best, Accuracy::of(3, 4));
    assert_eq!(p.reattempts_left, 2);
}

#[test]
fn plateau_stops_after_reattempts_plus_one() {
    let mut p = Plateau::new(Accuracy::of(1, 2), 2);
    assert!(!p.observe(Accuracy::of(1, 2)));
    assert!(!p.observe(Accuracy::of(1, 3)));
    assert!(p.observe(Accuracy::of(2, 4)));
    assert_eq!(p.best, Accuracy::of(1, 2));
}
