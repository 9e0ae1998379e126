//! Difference scores and thresholds, as exact rationals.

use vstd::prelude::*;

verus! {

/// Mean absolute per-pixel difference between two frames.
#[derive(Clone, Copy, Debug, PartialEq, Eq, Structural)]
pub enum Score {
    /// Frames of equal size: the mean is `total / pixels`.
    Mean { total: u64, pixels: u64 },
    /// Frames of different sizes: treated as maximally different.
    Incomparable,
}

/// A non-negative rational threshold `num / den`, with `den > 0`.
#[derive(Clone, Copy, Debug)]
pub struct Threshold {
    num: u64,
    den: u64,
}

impl View for Threshold {
    type V = (nat, nat);

    closed spec fn view(&self) -> (nat, nat) {
        (self.num as nat, self.den as nat)
    }
}

/// Whether `s` lies strictly above the threshold `t = (num, den)`.
pub open spec fn exceeds(s: Score, t: (nat, nat)) -> bool {
    match s {
        Score::Incomparable => true,
        Score::Mean { total, pixels } => total * t.1 > t.0 * pixels,
    }
}

impl Threshold {
    #[verifier::type_invariant]
    spec fn inv(self) -> bool {
        self.den > 0
    }

    /// The threshold `num / den`; `None` when `den` is zero.
    pub fn new(num: u64, den: u64) -> (r: Option<Threshold>)
        ensures
            den == 0 <==> r.is_none(),
            r matches Some(t) ==> t@ == (num as nat, den as nat),
    {
        if den == 0 {
            None
        } else {
            Some(Threshold { num, den })
        }
    }

    /// The whole-number threshold `n`.
    pub fn whole(n: u64) -> (r: Threshold)
        ensures
            r@ == (n as nat, 1nat),
    {
        Threshold { num: n, den: 1 }
    }

    /// Numerator.
    pub fn numerator(&self) -> (r: u64)
        ensures
            r == self@.0,
    {
        self.num
    }

    /// Denominator, never zero.
    pub fn denominator(&self) -> (r: u64)
        ensures
            r == self@.1,
            r > 0,
    {
        proof {
            use_type_invariant(self);
        }
        self.den
    }
}

impl Score {
    /// Whether this score lies strictly above `t`.  An incomparable pair is
    /// above every threshold.
    pub fn exceeds(&self, t: &Threshold) -> (r: bool)
        ensures
            r == exceeds(*self, t@),
    {
        match *self {
            Score::Incomparable => true,
            Score::Mean { total, pixels } => {
                let num = t.numerator();
                let den = t.denominator();
                let (t, d, m, p) = (total as u128, den as u128, num as u128, pixels as u128);
                assert(t * d <= u64::MAX * u64::MAX) by (nonlinear_arith)
                    requires
                        t <= u64::MAX,
                        d <= u64::MAX,
                ;
                assert(m * p <= u64::MAX * u64::MAX) by (nonlinear_arith)
                    requires
                        m <= u64::MAX,
                        p <= u64::MAX,
                ;
                let lhs: u128 = t * d;
                let rhs: u128 = m * p;
                lhs > rhs
            },
        }
    }
}

} // verus!
