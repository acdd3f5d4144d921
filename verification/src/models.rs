//! The kinds of quantity, where a unit may stand, and the unit descriptors.

use vstd::prelude::*;

verus! {

/// The kind of quantity that a unit measures. Each kind has its own
/// reference magnitude: what one davinci amounts to in the kind's base unit.
#[derive(Clone, Copy, Debug, PartialEq, Eq, Structural)]
pub enum Metric {
    Weight,
    Length,
    Area,
    Volume,
    Charge,
    Energy,
    Currency,
}

/// Where the alias of a unit is expected relative to the amount.
#[derive(Clone, Copy, Debug, PartialEq, Eq, Structural)]
pub enum Position {
    BeforeAmount,
    AfterAmount,
    Both,
}

/// A decimal number held exactly: `digits` divided by ten to the power `scale`.
#[derive(Clone, Copy, Debug, PartialEq, Eq, Structural)]
pub struct Decimal {
    pub digits: u64,
    pub scale: u8,
}

/// A unit descriptor. `factor` is the number of this unit that make up one
/// base unit of its kind (a thousand for the gram, the base being the
/// kilogram).
#[derive(Clone, Copy, Debug, PartialEq, Eq, Structural)]
pub struct Unit {
    pub metric: Metric,
    pub position: Position,
    pub factor: Decimal,
}

impl Decimal {
    /// Whether the number is greater than zero.
    pub open spec fn is_positive(self) -> bool {
        self.digits > 0
    }
}

impl Metric {
    /// One davinci in the base unit of this kind: 0.191 kg, 0.1567 m,
    /// 0.01164281 m², 0.0001024567 m³, 4 Ah, 55440 J and 1999 CNY.
    pub open spec fn spec_reference(self) -> Decimal {
        match self {
            Metric::Weight => Decimal { digits: 191, scale: 3 },
            Metric::Length => Decimal { digits: 1567, scale: 4 },
            Metric::Area => Decimal { digits: 1164281, scale: 8 },
            Metric::Volume => Decimal { digits: 1024567, scale: 10 },
            Metric::Charge => Decimal { digits: 4, scale: 0 },
            Metric::Energy => Decimal { digits: 55440, scale: 0 },
            Metric::Currency => Decimal { digits: 1999, scale: 0 },
        }
    }

    /// The reference magnitude by which a base amount of this kind is divided.
    #[verifier::when_used_as_spec(spec_reference)]
    pub fn reference(self) -> (r: Decimal)
        ensures
            r == self.spec_reference(),
            r.is_positive(),
    {
        match self {
            Metric::Weight => Decimal { digits: 191, scale: 3 },
            Metric::Length => Decimal { digits: 1567, scale: 4 },
            Metric::Area => Decimal { digits: 1164281, scale: 8 },
            Metric::Volume => Decimal { digits: 1024567, scale: 10 },
            Metric::Charge => Decimal { digits: 4, scale: 0 },
            Metric::Energy => Decimal { digits: 55440, scale: 0 },
            Metric::Currency => Decimal { digits: 1999, scale: 0 },
        }
    }
}

impl Position {
    /// Whether an alias with this position may stand in front of the amount.
    pub open spec fn spec_allows_before(self) -> bool {
        self == Position::BeforeAmount || self == Position::Both
    }

    /// Whether an alias with this position may stand behind the amount.
    pub open spec fn spec_allows_after(self) -> bool {
        self == Position::AfterAmount || self == Position::Both
    }

    #[verifier::when_used_as_spec(spec_allows_before)]
    pub fn allows_before(self) -> (r: bool)
        ensures
            r == self.spec_allows_before(),
    {
        match self {
            Position::BeforeAmount => true,
            Position::AfterAmount => false,
            Position::Both => true,
        }
    }

    #[verifier::when_used_as_spec(spec_allows_after)]
    pub fn allows_after(self) -> (r: bool)
        ensures
            r == self.spec_allows_after(),
    {
        match self {
            Position::BeforeAmount => false,
            Position::AfterAmount => true,
            Position::Both => true,
        }
    }
}

impl Unit {
    /// A descriptor is well formed when its factor is greater than zero.
    pub open spec fn wf(self) -> bool {
        self.factor.is_positive()
    }
}

} // verus!
