//! The gene and its two variation operators.
//!
//! Both operators follow one pattern. The plan (`mutation_plan`, `crossover_plan`) checks the
//! gene and the draw, chooses the formula and computes the number whose power the formula
//! takes. The host evaluates the formula in floating point. The operator (`mutate`,
//! `crossover`) takes what the host computed and settles the new value.

use crate::double::{
    lemma_between_finite, lemma_half_and_one, lemma_units_determine_bits, units_per_one, Double,
    HALF_BITS,
};
use crate::source::{is_power_base, is_unit_draw, lower_base, spec_is_unit_draw, upper_base};
use vstd::prelude::*;

verus! {

/// Distribution index of the crossover: the larger, the nearer the offspring stay to their
/// parents.
pub const CROSSOVER_INDEX: u64 = 2;

/// Distribution index of the mutation: the larger, the nearer the new value stays to the
/// old one.
pub const MUTATION_INDEX: u64 = 5;

/// Why an operator or the constructor refused its input.
#[derive(Clone, Copy, Debug, PartialEq, Eq, Structural)]
pub enum GeneError {
    /// The lower bound of the range is above the upper bound.
    MalformedRange,
    /// A number of the gene is infinite or a NaN, or the host computed a number that cannot
    /// be stored: a moved value that is a NaN, or an offspring that is infinite or a NaN.
    NonFinite,
    /// The draw is not a number in `[0, 1)`.
    InvalidDraw,
}

/// The bound whose distance from the value scales the step of a mutation.
#[derive(Clone, Copy, Debug, PartialEq, Eq, Structural)]
pub enum Pull {
    /// The draw `u` is below one half and the base is `2u`. With `k = index + 1`, the step
    /// factor is `d = base^(1/k) - 1` and the moved value is `value + d * (value - lo)`.
    TowardLower,
    /// The draw `u` is one half or more and the base is `2(1 - u)`. With `k = index + 1`,
    /// the step factor is `d = 1 - base^(-1/k)` and the moved value is
    /// `value + d * (hi - value)`.
    TowardUpper,
}

/// What a crossover does to the distance between the two values.
#[derive(Clone, Copy, Debug, PartialEq, Eq, Structural)]
pub enum Spread {
    /// The draw `u` is one half or less and the base is `2u`. With `k = index + 1`, the
    /// spread factor is `b = base^(1/k)`, which is at most one.
    Contract,
    /// The draw `u` is above one half and the base is `2(1 - u)`. With `k = index + 1`,
    /// the spread factor is `b = base^(-1/k)`, which is above one.
    Expand,
}

/// What the host has to compute for a mutation.
#[derive(Clone, Copy, Debug)]
pub enum MutationPlan {
    /// The value sits on the bound that scales the step, so it stays: nothing to compute.
    Keep,
    /// Evaluate the formula of `pull` with the given base and distribution index.
    Move { pull: Pull, base: Double, index: u64 },
}

/// What the host has to compute for a crossover.
#[derive(Clone, Copy, Debug)]
pub enum CrossoverPlan {
    /// The two values are the same number, so both stay: nothing to compute.
    Keep,
    /// With the spread factor `b` of `spread` for the given base and distribution index,
    /// the midpoint `m` of the two values and half their distance `h`, the offspring are
    /// `m + b * h` and `m - b * h`.
    Cross { spread: Spread, base: Double, index: u64 },
}

/// One real-valued gene: a value and the inclusive range `(lo, hi)` it is meant to stay in.
#[derive(Clone, Copy, Debug)]
pub struct CandidateF64 {
    pub val: Double,
    pub range: (Double, Double),
}

/// The bound that the draw `u` selects: the lower one where `u` is below one half.
pub open spec fn spec_pull(u: Double) -> Pull {
    if 2 * u.units() < units_per_one() {
        Pull::TowardLower
    } else {
        Pull::TowardUpper
    }
}

/// The spread that the draw `u` selects: a contraction where `u` is at most one half.
pub open spec fn spec_spread(u: Double) -> Spread {
    if 2 * u.units() <= units_per_one() {
        Spread::Contract
    } else {
        Spread::Expand
    }
}

fn pull_of(u: Double) -> (p: Pull)
    requires
        spec_is_unit_draw(u),
    ensures
        p == spec_pull(u),
{
    proof {
        lemma_half_and_one();
    }
    if u.lt(Double::from_bits(HALF_BITS)) {
        Pull::TowardLower
    } else {
        Pull::TowardUpper
    }
}

fn spread_of(u: Double) -> (s: Spread)
    requires
        spec_is_unit_draw(u),
    ensures
        s == spec_spread(u),
{
    proof {
        lemma_half_and_one();
    }
    if u.le(Double::from_bits(HALF_BITS)) {
        Spread::Contract
    } else {
        Spread::Expand
    }
}

impl CandidateF64 {
    /// The lower bound of the range.
    pub open spec fn lo(self) -> Double {
        self.range.0
    }

    /// The upper bound of the range.
    pub open spec fn hi(self) -> Double {
        self.range.1
    }

    /// What is wrong with the gene, if anything: first a bound that is not finite, then
    /// bounds in the wrong order, then a value that is not finite. A value outside the
    /// range is no fault.
    pub open spec fn fault(self) -> Option<GeneError> {
        if !self.lo().spec_is_finite() || !self.hi().spec_is_finite() {
            Some(GeneError::NonFinite)
        } else if self.hi().units() < self.lo().units() {
            Some(GeneError::MalformedRange)
        } else if !self.val.spec_is_finite() {
            Some(GeneError::NonFinite)
        } else {
            None
        }
    }

    /// The three numbers are finite and the bounds are in order.
    pub open spec fn well_formed(self) -> bool {
        self.fault() is None
    }

    /// The value lies within the range, bounds included.
    pub open spec fn in_range(self) -> bool {
        self.lo().spec_le(self.val) && self.val.spec_le(self.hi())
    }

    /// Why a mutation with the draw `u` cannot start, if it cannot: the gene's fault if it
    /// has one, else `InvalidDraw` if `u` is not in `[0, 1)`.
    pub open spec fn refusal(self, u: Double) -> Option<GeneError> {
        if self.fault() is Some {
            self.fault()
        } else if !spec_is_unit_draw(u) {
            Some(GeneError::InvalidDraw)
        } else {
            None
        }
    }

    /// Why a crossover of `self` and `other` with the draw `u` cannot start, if it cannot:
    /// the fault of `self` if it has one, else that of `other`, else `InvalidDraw` if `u`
    /// is not in `[0, 1)`.
    pub open spec fn pair_refusal(self, other: CandidateF64, u: Double) -> Option<GeneError> {
        if self.fault() is Some {
            self.fault()
        } else {
            other.refusal(u)
        }
    }

    /// Whether the value is the same number as the bound that scales the step. The step
    /// is then zero, so the mutation leaves the value where it is.
    pub open spec fn held(self, pull: Pull) -> bool {
        match pull {
            Pull::TowardLower => self.val.units() == self.lo().units(),
            Pull::TowardUpper => self.val.units() == self.hi().units(),
        }
    }

    /// Whether `plan` is the plan of a mutation with the draw `u`.
    pub open spec fn is_mutation_plan(
        self,
        u: Double,
        plan: Result<MutationPlan, GeneError>,
    ) -> bool {
        match plan {
            Err(e) => self.refusal(u) == Some(e),
            Ok(MutationPlan::Keep) => self.refusal(u) is None && self.held(spec_pull(u)),
            Ok(MutationPlan::Move { pull, base, index }) => {
                &&& self.refusal(u) is None
                &&& !self.held(spec_pull(u))
                &&& pull == spec_pull(u)
                &&& is_power_base(base, u, pull is TowardLower)
                &&& index == MUTATION_INDEX
            },
        }
    }

    /// Whether `plan` is the plan of a crossover of `self` and `other` with the draw `u`.
    pub open spec fn is_crossover_plan(
        self,
        other: CandidateF64,
        u: Double,
        plan: Result<CrossoverPlan, GeneError>,
    ) -> bool {
        match plan {
            Err(e) => self.pair_refusal(other, u) == Some(e),
            Ok(CrossoverPlan::Keep) => {
                &&& self.pair_refusal(other, u) is None
                &&& self.val.units() == other.val.units()
            },
            Ok(CrossoverPlan::Cross { spread, base, index }) => {
                &&& self.pair_refusal(other, u) is None
                &&& self.val.units() != other.val.units()
                &&& spread == spec_spread(u)
                &&& is_power_base(base, u, spread is Contract)
                &&& index == CROSSOVER_INDEX
            },
        }
    }

    /// The gene after a mutation with the draw `u`, where `moved` is what the host computed
    /// by the plan's formula: the gene itself where the plan keeps it, else `moved` clamped
    /// into the range. A `moved` that is a NaN is refused; an infinite one is clamped.
    pub open spec fn spec_mutate(self, u: Double, moved: Double) -> Result<
        CandidateF64,
        GeneError,
    > {
        if self.refusal(u) is Some {
            Err(self.refusal(u).unwrap())
        } else if self.held(spec_pull(u)) {
            Ok(self)
        } else if moved.spec_is_nan() {
            Err(GeneError::NonFinite)
        } else {
            Ok(CandidateF64 { val: moved.spec_clamp(self.lo(), self.hi()), range: self.range })
        }
    }

    /// The two genes after a crossover with the draw `u`, where `upper` and `lower` are the
    /// offspring the host computed by the plan's formula: the genes themselves where the
    /// plan keeps them, else `self` with the value `upper` and `other` with the value
    /// `lower`. Offspring are not clamped into the ranges; one that is not finite is
    /// refused.
    pub open spec fn spec_crossover(
        self,
        other: CandidateF64,
        u: Double,
        upper: Double,
        lower: Double,
    ) -> Result<(CandidateF64, CandidateF64), GeneError> {
        if self.pair_refusal(other, u) is Some {
            Err(self.pair_refusal(other, u).unwrap())
        } else if self.val.units() == other.val.units() {
            Ok((self, other))
        } else if !upper.spec_is_finite() || !lower.spec_is_finite() {
            Err(GeneError::NonFinite)
        } else {
            Ok(
                (
                    CandidateF64 { val: upper, range: self.range },
                    CandidateF64 { val: lower, range: other.range },
                ),
            )
        }
    }

    /// A gene with the given value and range, where the three numbers are finite and
    /// `lo <= hi`. The value need not lie in the range.
    pub fn new(val: Double, lo: Double, hi: Double) -> (r: Result<CandidateF64, GeneError>)
        ensures
            match (CandidateF64 { val, range: (lo, hi) }).fault() {
                Some(e) => r == Err::<CandidateF64, GeneError>(e),
                None => r == Ok::<CandidateF64, GeneError>(CandidateF64 { val, range: (lo, hi) }),
            },
            r matches Ok(gene) ==> gene.well_formed(),
    {
        let gene = CandidateF64 { val, range: (lo, hi) };
        match gene.check() {
            Ok(()) => Ok(gene),
            Err(e) => Err(e),
        }
    }

    /// Reports the gene's fault, if it has one.
    pub fn check(&self) -> (r: Result<(), GeneError>)
        ensures
            match self.fault() {
                Some(e) => r == Err::<(), GeneError>(e),
                None => r is Ok,
            },
    {
        if !self.range.0.is_finite() || !self.range.1.is_finite() {
            Err(GeneError::NonFinite)
        } else if self.range.1.lt(self.range.0) {
            Err(GeneError::MalformedRange)
        } else if !self.val.is_finite() {
            Err(GeneError::NonFinite)
        } else {
            Ok(())
        }
    }

    /// Tells the host what to compute for a mutation with the draw `u`. The base of the
    /// power is never negative, and it is above zero where its exponent is negative.
    pub fn mutation_plan(&self, u: Double) -> (r: Result<MutationPlan, GeneError>)
        ensures
            self.is_mutation_plan(u, r),
            r matches Ok(MutationPlan::Move { pull, base, index }) ==> {
                &&& 0 <= base.units() <= units_per_one()
                &&& pull is TowardUpper ==> 0 < base.units()
            },
    {
        match self.check() {
            Err(e) => Err(e),
            Ok(()) => {
                if !is_unit_draw(u) {
                    Err(GeneError::InvalidDraw)
                } else {
                    match pull_of(u) {
                        Pull::TowardLower => {
                            if self.val.same_number(self.range.0) {
                                Ok(MutationPlan::Keep)
                            } else {
                                Ok(
                                    MutationPlan::Move {
                                        pull: Pull::TowardLower,
                                        base: lower_base(u),
                                        index: MUTATION_INDEX,
                                    },
                                )
                            }
                        },
                        Pull::TowardUpper => {
                            if self.val.same_number(self.range.1) {
                                Ok(MutationPlan::Keep)
                            } else {
                                Ok(
                                    MutationPlan::Move {
                                        pull: Pull::TowardUpper,
                                        base: upper_base(u),
                                        index: MUTATION_INDEX,
                                    },
                                )
                            }
                        },
                    }
                }
            },
        }
    }

    /// Polynomial mutation. `u` is a uniform draw from `[0, 1)` and `moved` the number that
    /// the formula of `mutation_plan(u)` gives. On success the value is `moved` clamped into
    /// the range, or unchanged where the plan keeps it, and lies within the range. On
    /// failure the gene is unchanged. The range never changes.
    pub fn mutate(&mut self, u: Double, moved: Double) -> (r: Result<(), GeneError>)
        ensures
            match old(self).spec_mutate(u, moved) {
                Ok(g) => r is Ok && *final(self) == g,
                Err(e) => r == Err::<(), GeneError>(e) && *final(self) == *old(self),
            },
            final(self).range == old(self).range,
            r is Ok ==> final(self).well_formed() && final(self).in_range(),
            old(self).in_range() ==> final(self).in_range(),
            old(self).held(spec_pull(u)) ==> final(self).val == old(self).val,
    {
        match self.mutation_plan(u) {
            Err(e) => Err(e),
            Ok(MutationPlan::Keep) => Ok(()),
            Ok(MutationPlan::Move { .. }) => {
                if moved.is_nan() {
                    Err(GeneError::NonFinite)
                } else {
                    self.val = moved.clamp(self.range.0, self.range.1);
                    proof {
                        lemma_between_finite(self.range.0, self.val, self.range.1);
                    }
                    Ok(())
                }
            },
        }
    }

    /// Tells the host what to compute for a crossover of `self` and `other` with the draw
    /// `u`. The base of the power is never negative, and it is above zero where its
    /// exponent is negative.
    pub fn crossover_plan(&self, other: &CandidateF64, u: Double) -> (r: Result<
        CrossoverPlan,
        GeneError,
    >)
        ensures
            self.is_crossover_plan(*other, u, r),
            r matches Ok(CrossoverPlan::Cross { spread, base, index }) ==> {
                &&& 0 <= base.units() <= units_per_one()
                &&& spread is Expand ==> 0 < base.units()
            },
    {
        match self.check() {
            Err(e) => Err(e),
            Ok(()) => match other.check() {
                Err(e) => Err(e),
                Ok(()) => {
                    if !is_unit_draw(u) {
                        Err(GeneError::InvalidDraw)
                    } else if self.val.same_number(other.val) {
                        Ok(CrossoverPlan::Keep)
                    } else {
                        match spread_of(u) {
                            Spread::Contract => Ok(
                                CrossoverPlan::Cross {
                                    spread: Spread::Contract,
                                    base: lower_base(u),
                                    index: CROSSOVER_INDEX,
                                },
                            ),
                            Spread::Expand => Ok(
                                CrossoverPlan::Cross {
                                    spread: Spread::Expand,
                                    base: upper_base(u),
                                    index: CROSSOVER_INDEX,
                                },
                            ),
                        }
                    }
                },
            },
        }
    }

    /// Simulated binary crossover. `u` is a uniform draw from `[0, 1)`, and `upper` and
    /// `lower` are the offspring that the formula of `crossover_plan(other, u)` gives. On
    /// success `self` takes `upper` and `other` takes `lower`, as they are: offspring are
    /// not clamped into the ranges, the next mutation does that. Two genes with the same
    /// value keep it. On failure both genes are unchanged. The ranges never change.
    pub fn crossover(
        &mut self,
        other: &mut CandidateF64,
        u: Double,
        upper: Double,
        lower: Double,
    ) -> (r: Result<(), GeneError>)
        ensures
            match old(self).spec_crossover(*old(other), u, upper, lower) {
                Ok(pair) => {
                    &&& r is Ok
                    &&& *final(self) == pair.0
                    &&& *final(other) == pair.1
                },
                Err(e) => {
                    &&& r == Err::<(), GeneError>(e)
                    &&& *final(self) == *old(self)
                    &&& *final(other) == *old(other)
                },
            },
            final(self).range == old(self).range,
            final(other).range == old(other).range,
            r is Ok ==> final(self).well_formed() && final(other).well_formed(),
            old(self).val.spec_same_number(old(other).val) ==> final(self).val == old(self).val,
            old(self).val.spec_same_number(old(other).val) ==> final(other).val == old(other).val,
    {
        match self.crossover_plan(other, u) {
            Err(e) => Err(e),
            Ok(CrossoverPlan::Keep) => Ok(()),
            Ok(CrossoverPlan::Cross { .. }) => {
                if !upper.is_finite() || !lower.is_finite() {
                    Err(GeneError::NonFinite)
                } else {
                    self.val = upper;
                    other.val = lower;
                    Ok(())
                }
            },
        }
    }
}

/// A gene and a draw have one mutation plan: the plan is a function of the value, the range
/// and the draw.
pub proof fn lemma_mutation_plan_determined(
    gene: CandidateF64,
    u: Double,
    first: Result<MutationPlan, GeneError>,
    second: Result<MutationPlan, GeneError>,
)
    requires
        gene.is_mutation_plan(u, first),
        gene.is_mutation_plan(u, second),
    ensures
        first == second,
{
    if let Ok(MutationPlan::Move { base: a, .. }) = first {
        if let Ok(MutationPlan::Move { base: b, .. }) = second {
            lemma_units_determine_bits(a, b);
        }
    }
}

/// Two genes and a draw have one crossover plan: the plan is a function of the two genes
/// and the draw.
pub proof fn lemma_crossover_plan_determined(
    first_gene: CandidateF64,
    second_gene: CandidateF64,
    u: Double,
    first: Result<CrossoverPlan, GeneError>,
    second: Result<CrossoverPlan, GeneError>,
)
    requires
        first_gene.is_crossover_plan(second_gene, u, first),
        first_gene.is_crossover_plan(second_gene, u, second),
    ensures
        first == second,
{
    if let Ok(CrossoverPlan::Cross { base: a, .. }) = first {
        if let Ok(CrossoverPlan::Cross { base: b, .. }) = second {
            lemma_units_determine_bits(a, b);
        }
    }
}

} // verus!
