//! Exact ratios of counts, their unweighted means, and presentation tiers.

use vstd::prelude::*;

verus! {

/// The quotient `num / den` of two counts, kept exact.
///
/// A ratio with `den == 0` has no value: it stands for a rate over no samples.
#[derive(Clone, Copy, Debug, PartialEq, Eq, Structural)]
pub struct Ratio {
    pub num: u32,
    pub den: u32,
}

/// How good an accuracy is, for presentation. Each tier is an interval of
/// values that excludes its lower end and includes its upper end, so a value
/// that sits exactly on a boundary belongs to the lower tier.
#[derive(Clone, Copy, Debug, PartialEq, Eq, Structural)]
pub enum Tier {
    /// From 0% to 60%.
    Lowest,
    /// Above 60%, to 80%.
    Low,
    /// Above 80%, to 95%.
    Middle,
    /// Above 95%, to 99%.
    High,
    /// Above 99%.
    Highest,
}

impl Tier {
    /// Position of the tier, from the lowest.
    pub open spec fn rank(self) -> nat {
        match self {
            Tier::Lowest => 0,
            Tier::Low => 1,
            Tier::Middle => 2,
            Tier::High => 3,
            Tier::Highest => 4,
        }
    }

    /// The highest value of the tier, in percent.
    pub open spec fn upper_percent(self) -> nat {
        match self {
            Tier::Lowest => 60,
            Tier::Low => 80,
            Tier::Middle => 95,
            Tier::High => 99,
            Tier::Highest => 100,
        }
    }

    /// The highest value of the tier, as a ratio over 100.
    pub fn upper_bound(self) -> (bound: Ratio)
        ensures
            bound.num == self.upper_percent(),
            bound.den == 100,
    {
        match self {
            Tier::Lowest => Ratio { num: 60, den: 100 },
            Tier::Low => Ratio { num: 80, den: 100 },
            Tier::Middle => Ratio { num: 95, den: 100 },
            Tier::High => Ratio { num: 99, den: 100 },
            Tier::Highest => Ratio { num: 100, den: 100 },
        }
    }
}

impl Ratio {
    /// Whether the ratio has a value.
    pub open spec fn has_value(self) -> bool {
        self.den > 0
    }

    /// Whether the value is exactly 1.
    pub open spec fn is_one(self) -> bool {
        self.den > 0 && self.num == self.den
    }

    /// Whether the value is exactly 0.
    pub open spec fn is_zero(self) -> bool {
        self.den > 0 && self.num == 0
    }

    /// `self <= other` as values, for two ratios that have one.
    pub open spec fn le(self, other: Ratio) -> bool {
        self.num * other.den <= other.num * self.den
    }

    /// `self < other` as values, for two ratios that have one.
    pub open spec fn lt(self, other: Ratio) -> bool {
        self.num * other.den < other.num * self.den
    }

    /// Whether the value is at most `percent` per cent.
    pub open spec fn at_most_percent(self, percent: nat) -> bool {
        self.num * 100 <= percent * self.den
    }

    /// The tier of the value; none where the ratio has no value.
    pub open spec fn tier_of(self) -> Option<Tier> {
        if self.den == 0 {
            None
        } else if self.at_most_percent(Tier::Lowest.upper_percent()) {
            Some(Tier::Lowest)
        } else if self.at_most_percent(Tier::Low.upper_percent()) {
            Some(Tier::Low)
        } else if self.at_most_percent(Tier::Middle.upper_percent()) {
            Some(Tier::Middle)
        } else if self.at_most_percent(Tier::High.upper_percent()) {
            Some(Tier::High)
        } else {
            Some(Tier::Highest)
        }
    }

    pub fn new(num: u32, den: u32) -> (r: Ratio)
        ensures
            r.num == num,
            r.den == den,
    {
        Ratio { num, den }
    }

    /// Whether the ratio has a value, that is, whether `den` is not 0.
    pub fn is_defined(&self) -> (b: bool)
        ensures
            b == self.has_value(),
    {
        self.den > 0
    }

    /// Compares the values of two ratios exactly.
    pub fn at_most(&self, other: &Ratio) -> (b: bool)
        ensures
            b == self.le(*other),
    {
        let left: u64 = widen(self.num, other.den);
        let right: u64 = widen(other.num, self.den);
        left <= right
    }

    /// Compares the values of two ratios exactly.
    pub fn less_than(&self, other: &Ratio) -> (b: bool)
        ensures
            b == self.lt(*other),
    {
        let left: u64 = widen(self.num, other.den);
        let right: u64 = widen(other.num, self.den);
        left < right
    }

    /// The presentation tier of the value; `None` where the ratio has no value.
    pub fn tier(&self) -> (t: Option<Tier>)
        ensures
            t == self.tier_of(),
    {
        if self.den == 0 {
            None
        } else if self.at_most(&Tier::Lowest.upper_bound()) {
            Some(Tier::Lowest)
        } else if self.at_most(&Tier::Low.upper_bound()) {
            Some(Tier::Low)
        } else if self.at_most(&Tier::Middle.upper_bound()) {
            Some(Tier::Middle)
        } else if self.at_most(&Tier::High.upper_bound()) {
            Some(Tier::High)
        } else {
            Some(Tier::Highest)
        }
    }
}

/// The unweighted arithmetic mean of a list of ratios, kept exact as the list
/// of its terms: every term has the same weight, whatever its denominator.
///
/// The mean has a value where it has at least one term and every term has one.
pub struct Mean {
    pub terms: Vec<Ratio>,
}

impl View for Mean {
    type V = Seq<Ratio>;

    open spec fn view(&self) -> Seq<Ratio> {
        self.terms@
    }
}

impl Mean {
    /// Whether the mean of `terms` has a value.
    pub open spec fn has_value(terms: Seq<Ratio>) -> bool {
        terms.len() > 0 && forall|i: int| 0 <= i < terms.len() ==> (#[trigger] terms[i]).has_value()
    }

    /// Whether the mean has a value.
    pub fn is_defined(&self) -> (b: bool)
        ensures
            b == Mean::has_value(self@),
    {
        if self.terms.len() == 0 {
            return false;
        }
        for i in 0..self.terms.len()
            invariant
                forall|j: int| 0 <= j < i ==> (#[trigger] self@[j]).has_value(),
        {
            if !self.terms[i].is_defined() {
                return false;
            }
        }
        true
    }
}

/// The terms of each mean of a list.
pub open spec fn mean_views(means: Seq<Mean>) -> Seq<Seq<Ratio>> {
    means.map_values(|m: Mean| m@)
}

/// The unweighted arithmetic mean of a list of means, kept exact as the list
/// of those means.
///
/// It has a value where it has at least one term and every term has one.
pub struct GrandMean {
    pub means: Vec<Mean>,
}

impl View for GrandMean {
    type V = Seq<Seq<Ratio>>;

    open spec fn view(&self) -> Seq<Seq<Ratio>> {
        mean_views(self.means@)
    }
}

impl GrandMean {
    /// Whether the mean of the means `means` has a value.
    pub open spec fn has_value(means: Seq<Seq<Ratio>>) -> bool {
        means.len() > 0 && forall|i: int| 0 <= i < means.len() ==> Mean::has_value(#[trigger] means[i])
    }

    /// Whether the mean has a value.
    pub fn is_defined(&self) -> (b: bool)
        ensures
            b == GrandMean::has_value(self@),
    {
        if self.means.len() == 0 {
            return false;
        }
        for i in 0..self.means.len()
            invariant
                forall|j: int| 0 <= j < i ==> Mean::has_value(#[trigger] self@[j]),
        {
            if !self.means[i].is_defined() {
                assert(self@[i as int] == self.means[i as int]@);
                return false;
            }
            assert(self@[i as int] == self.means[i as int]@);
        }
        true
    }
}

/// The product of two 32-bit counts, which always fits in 64 bits.
fn widen(a: u32, b: u32) -> (p: u64)
    ensures
        p == a * b,
{
    assert(a * b <= 0xffff_ffff * 0xffff_ffff) by (nonlinear_arith)
        requires
            0 <= a <= 0xffff_ffff,
            0 <= b <= 0xffff_ffff,
    ;
    (a as u64) * (b as u64)
}

/// `le` is the order of the values: it is transitive on ratios that have one.
pub proof fn le_is_transitive(a: Ratio, b: Ratio, c: Ratio)
    requires
        a.has_value(),
        b.has_value(),
        c.has_value(),
        a.le(b),
        b.le(c),
    ensures
        a.le(c),
{
    let (an, ad) = (a.num as int, a.den as int);
    let (bn, bd) = (b.num as int, b.den as int);
    let (cn, cd) = (c.num as int, c.den as int);
    assert(an * cd <= cn * ad) by (nonlinear_arith)
        requires
            an * bd <= bn * ad,
            bn * cd <= cn * bd,
            an >= 0,
            bn >= 0,
            cn >= 0,
            ad > 0,
            bd > 0,
            cd > 0,
    ;
}

/// A bound in percent that holds of a value holds of every lower value.
pub proof fn percent_bound_is_inherited(a: Ratio, b: Ratio, percent: nat)
    requires
        a.has_value(),
        b.has_value(),
        a.le(b),
        b.at_most_percent(percent),
    ensures
        a.at_most_percent(percent),
{
    let (an, ad) = (a.num as int, a.den as int);
    let (bn, bd) = (b.num as int, b.den as int);
    let p = percent as int;
    assert(an * 100 <= p * ad) by (nonlinear_arith)
        requires
            an * bd <= bn * ad,
            bn * 100 <= p * bd,
            an >= 0,
            bn >= 0,
            p >= 0,
            ad > 0,
            bd > 0,
    ;
}

/// A higher value is never in a lower tier.
pub proof fn tier_is_monotonic(a: Ratio, b: Ratio)
    requires
        a.has_value(),
        b.has_value(),
        a.le(b),
    ensures
        a.tier_of().unwrap().rank() <= b.tier_of().unwrap().rank(),
{
    if b.at_most_percent(60) {
        percent_bound_is_inherited(a, b, 60);
    }
    if b.at_most_percent(80) {
        percent_bound_is_inherited(a, b, 80);
    }
    if b.at_most_percent(95) {
        percent_bound_is_inherited(a, b, 95);
    }
    if b.at_most_percent(99) {
        percent_bound_is_inherited(a, b, 99);
    }
}

/// A value of exactly 1 is in the highest tier, and a value of 0 in the lowest.
pub proof fn tier_of_extremes(r: Ratio)
    requires
        r.has_value(),
    ensures
        r.is_one() ==> r.tier_of() == Some(Tier::Highest),
        r.is_zero() ==> r.tier_of() == Some(Tier::Lowest),
{
    if r.is_one() {
        assert(!r.at_most_percent(99));
        assert(!r.at_most_percent(95));
        assert(!r.at_most_percent(80));
        assert(!r.at_most_percent(60));
    }
    if r.is_zero() {
        assert(r.at_most_percent(60));
    }
}

} // verus!
