//! Exact rational accuracy scores.
use vstd::prelude::*;

verus! {

/// Greatest common divisor, by Euclid's rule.
pub open spec fn gcd(a: nat, b: nat) -> nat
    decreases b,
{
    if b == 0 {
        a
    } else {
        gcd(b, a % b)
    }
}

proof fn lemma_gcd_divides(a: nat, b: nat)
    requires
        a > 0 || b > 0,
    ensures
        gcd(a, b) > 0,
        a % gcd(a, b) == 0,
        b % gcd(a, b) == 0,
    decreases b,
{
    if b == 0 {
        vstd::arithmetic::div_mod::lemma_mod_self_0(a as int);
    } else {
        let r: nat = a % b;
        lemma_gcd_divides(b, r);
        let g: nat = gcd(b, r);
        assert(gcd(a, b) == g);
        vstd::arithmetic::div_mod::lemma_fundamental_div_mod(a as int, b as int);
        vstd::arithmetic::div_mod::lemma_fundamental_div_mod(b as int, g as int);
        vstd::arithmetic::div_mod::lemma_fundamental_div_mod(r as int, g as int);
        let k: nat = (a / b) * (b / g) + r / g;
        assert(a == k * g) by (nonlinear_arith)
            requires
                a == b * (a / b) + r,
                b == g * (b / g),
                r == g * (r / g),
                k == (a / b) * (b / g) + r / g,
        ;
        vstd::arithmetic::div_mod::lemma_mod_multiples_basic(k as int, g as int);
    }
}

/// A reduced score keeps the value of `correct / total`.
pub proof fn lemma_score_value(correct: nat, total: nat)
    requires
        total > 0,
    ensures
        score_of(correct, total) matches Some((p, q)) && q > 0 && p * total == correct * q,
{
    lemma_gcd_divides(correct, total);
    let g: nat = gcd(correct, total);
    vstd::arithmetic::div_mod::lemma_fundamental_div_mod(correct as int, g as int);
    vstd::arithmetic::div_mod::lemma_fundamental_div_mod(total as int, g as int);
    let p: nat = correct / g;
    let q: nat = total / g;
    assert(p * total == correct * q && q > 0) by (nonlinear_arith)
        requires
            correct == g * p,
            total == g * q,
            total > 0,
            g > 0,
    ;
}

/// Between two scores of passes over the same `total` samples, a strict
/// improvement means strictly more correct samples.
pub proof fn lemma_improvement_counts(new: Accuracy, best: Accuracy, c: nat, bc: nat, total: nat)
    requires
        total > 0,
        new.denom_spec() > 0,
        best.denom_spec() > 0,
        new.numer_spec() * total == c * new.denom_spec(),
        best.numer_spec() * total == bc * best.denom_spec(),
        improves(Some(new), Some(best)),
    ensures
        c > bc,
{
    let an: int = new.numer_spec() as int;
    let ad: int = new.denom_spec() as int;
    let bn: int = best.numer_spec() as int;
    let bd: int = best.denom_spec() as int;
    assert(c * ad * bd > bc * bd * ad) by (nonlinear_arith)
        requires
            an * bd > bn * ad,
            an * total == c * ad,
            bn * total == bc * bd,
            total > 0,
    ;
    assert(c > bc) by (nonlinear_arith)
        requires
            c * ad * bd > bc * bd * ad,
            ad > 0,
            bd > 0,
    ;
}

/// Declares num_rational's fraction type so that it can be built here.
#[verifier::external_type_specification]
#[verifier::external_body]
#[verifier::reject_recursive_types(T)]
pub struct ExRatio<T>(num_rational::Ratio<T>);

/// Relies on num_rational::Ratio::new, numer and denom: the fraction is reduced
/// by the gcd of its terms (zero becomes 0/1, equal terms become 1/1); it panics
/// on a zero denominator.
#[verifier::external_body]
fn reduced_terms(numer: u64, denom: u64) -> (r: (u64, u64))
    requires
        denom > 0,
    ensures
        r.0 == numer as nat / gcd(numer as nat, denom as nat),
        r.1 == denom as nat / gcd(numer as nat, denom as nat),
{
    let ratio = num_rational::Ratio::new(numer, denom);
    (*ratio.numer(), *ratio.denom())
}

/// An accuracy `numer / denom` in lowest terms, with a positive denominator.
#[derive(Clone, Copy, Debug, PartialEq, Eq, Structural)]
pub struct Accuracy {
    numer: u64,
    denom: u64,
}

/// The score of a pass in which `correct` out of `total` samples were right;
/// none for an empty pass.
pub open spec fn score_of(correct: nat, total: nat) -> Option<(nat, nat)> {
    if total == 0 {
        None
    } else {
        Some((correct / gcd(correct, total), total / gcd(correct, total)))
    }
}

/// The terms of an optional accuracy.
pub open spec fn terms(s: Option<Accuracy>) -> Option<(nat, nat)> {
    match s {
        Some(a) => Some((a.numer_spec() as nat, a.denom_spec() as nat)),
        None => None,
    }
}

/// Whether `new` is a strict improvement on `old`: any score beats none, and
/// two scores compare as fractions.
pub open spec fn improves(new: Option<Accuracy>, old: Option<Accuracy>) -> bool {
    match (new, old) {
        (Some(n), Some(o)) => n.numer_spec() * o.denom_spec() > o.numer_spec()
            * n.denom_spec(),
        (Some(_), None) => true,
        (None, _) => false,
    }
}

/// The accuracy with these terms, if any.
pub closed spec fn accuracy_from(t: Option<(nat, nat)>) -> Option<Accuracy> {
    match t {
        Some((p, q)) => Some(Accuracy { numer: p as u64, denom: q as u64 }),
        None => None,
    }
}

/// A pass has an accuracy exactly when it is not empty.
pub proof fn lemma_accuracy_exists(correct: nat, total: nat)
    ensures
        accuracy_from(score_of(correct, total)) is Some <==> total > 0,
{
}

/// The accuracy of `correct` out of a positive `total` holds the reduced
/// terms, which keep the value of the fraction.
pub proof fn lemma_accuracy_value(correct: nat, total: nat)
    requires
        0 < total <= u64::MAX,
        correct <= total,
    ensures
        accuracy_from(score_of(correct, total)) matches Some(a) && a.denom_spec() > 0
            && a.numer_spec() * total == correct * a.denom_spec(),
{
    lemma_score_value(correct, total);
    let g = gcd(correct, total);
    lemma_gcd_divides(correct, total);
    assert(correct / g <= correct && total / g <= total) by {
        vstd::arithmetic::div_mod::lemma_div_is_ordered_by_denominator(correct as int, 1, g as int);
        vstd::arithmetic::div_mod::lemma_div_is_ordered_by_denominator(total as int, 1, g as int);
    }
}

impl Accuracy {
    pub closed spec fn numer_spec(self) -> u64 {
        self.numer
    }

    pub closed spec fn denom_spec(self) -> u64 {
        self.denom
    }

    /// The accuracy of `correct` right answers out of `total`, reduced.
    pub fn of(correct: u64, total: u64) -> (r: Option<Accuracy>)
        ensures
            terms(r) == score_of(correct as nat, total as nat),
            r == accuracy_from(score_of(correct as nat, total as nat)),
    {
        if total == 0 {
            None
        } else {
            let (numer, denom) = reduced_terms(correct, total);
            Some(Accuracy { numer, denom })
        }
    }

    pub fn numer(&self) -> (r: u64)
        ensures
            r == self.numer_spec(),
    {
        self.numer
    }

    pub fn denom(&self) -> (r: u64)
        ensures
            r == self.denom_spec(),
    {
        self.denom
    }
}

/// Whether `new` strictly improves on `old` (see [`improves`]).
pub fn is_improvement(new: &Option<Accuracy>, old: &Option<Accuracy>) -> (r: bool)
    ensures
        r == improves(*new, *old),
{
    match (new, old) {
        (Some(n), Some(o)) => {
            proof {
                lemma_product_fits(n.numer, o.denom);
                lemma_product_fits(o.numer, n.denom);
            }
            (n.numer as u128) * (o.denom as u128) > (o.numer as u128) * (n.denom as u128)
        },
        (Some(_), None) => true,
        (None, _) => false,
    }
}

proof fn lemma_product_fits(a: u64, b: u64)
    ensures
        (a as int) * (b as int) <= u128::MAX,
{
    assert((a as int) * (b as int) <= (u64::MAX as int) * (u64::MAX as int)) by (nonlinear_arith)
        requires
            a <= u64::MAX,
            b <= u64::MAX,
            0 <= a,
            0 <= b,
    ;
}

} // verus!
