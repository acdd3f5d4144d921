//! The units of the vocabulary, one constant each.
//!
//! A constant gives, in this order, the kind of quantity, the position of the
//! alias, and the digits and the scale of the factor: `(Length, AfterAmount,
//! 1000, 0)` is the millimetre, of which a thousand make a metre, and
//! `(Weight, AfterAmount, 1, 3)` is the ton, of which 0.001 make a kilogram.

use vstd::prelude::*;
use crate::models::{Decimal, Metric, Position, Unit};

verus! {

/// A unit descriptor as a constant writes it: kind, position, digits and
/// scale of the factor.
pub type Descriptor = (Metric, Position, u64, u8);

impl Unit {
    /// The descriptor that a constant stands for.
    pub open spec fn spec_from_descriptor(d: Descriptor) -> Unit {
        Unit { metric: d.0, position: d.1, factor: Decimal { digits: d.2, scale: d.3 } }
    }

    /// Builds the descriptor that a constant stands for.
    #[verifier::when_used_as_spec(spec_from_descriptor)]
    pub fn from_descriptor(d: Descriptor) -> (unit: Unit)
        ensures
            unit == Unit::spec_from_descriptor(d),
    {
        Unit { metric: d.0, position: d.1, factor: Decimal { digits: d.2, scale: d.3 } }
    }
}

// Mass, counted in kilograms.

pub const KILOGRAM: Descriptor = (Metric::Weight, Position::AfterAmount, 1, 0);

pub const GRAM: Descriptor = (Metric::Weight, Position::AfterAmount, 1000, 0);

pub const MILLIGRAM: Descriptor = (Metric::Weight, Position::AfterAmount, 1_000_000, 0);

pub const MICROGRAM: Descriptor = (Metric::Weight, Position::AfterAmount, 1_000_000_000, 0);

pub const TON: Descriptor = (Metric::Weight, Position::AfterAmount, 1, 3);

// Length, counted in metres.

pub const METRE: Descriptor = (Metric::Length, Position::AfterAmount, 1, 0);

pub const DECIMETRE: Descriptor = (Metric::Length, Position::AfterAmount, 10, 0);

pub const CENTIMETRE: Descriptor = (Metric::Length, Position::AfterAmount, 100, 0);

pub const MILLIMETRE: Descriptor = (Metric::Length, Position::AfterAmount, 1000, 0);

pub const MICROMETRE: Descriptor = (Metric::Length, Position::AfterAmount, 1_000_000, 0);

pub const NANOMETRE: Descriptor = (Metric::Length, Position::AfterAmount, 1_000_000_000, 0);

pub const KILOMETRE: Descriptor = (Metric::Length, Position::AfterAmount, 1, 3);

pub const MILE: Descriptor = (Metric::Length, Position::AfterAmount, 6_213_711_922_373_339, 19);

pub const FOOT: Descriptor = (Metric::Length, Position::AfterAmount, 3_280_839_895_013_123, 15);

pub const INCH: Descriptor = (Metric::Length, Position::AfterAmount, 3_937_007_874_015_748, 14);

pub const YARD: Descriptor = (Metric::Length, Position::AfterAmount, 10_936_132_983_377_078, 16);

// Area, counted in square metres.

pub const QM: Descriptor = (Metric::Area, Position::AfterAmount, 1, 0);

pub const QDM: Descriptor = (Metric::Area, Position::AfterAmount, 100, 0);

pub const QCM: Descriptor = (Metric::Area, Position::AfterAmount, 10_000, 0);

pub const QMM: Descriptor = (Metric::Area, Position::AfterAmount, 1_000_000, 0);

pub const AR: Descriptor = (Metric::Area, Position::AfterAmount, 1, 2);

pub const HECTAR: Descriptor = (Metric::Area, Position::AfterAmount, 1, 4);

pub const QKM: Descriptor = (Metric::Area, Position::AfterAmount, 1, 6);

// Volume, counted in cubic metres.

pub const CUBICMETRE: Descriptor = (Metric::Volume, Position::AfterAmount, 1, 0);

pub const BARREL: Descriptor = (Metric::Volume, Position::AfterAmount, 6_289_810_770_432_105, 15);

pub const CUBICFOOT: Descriptor = (
    Metric::Volume,
    Position::AfterAmount,
    3_531_466_672_148_859,
    14,
);

pub const LITRE: Descriptor = (Metric::Volume, Position::AfterAmount, 1000, 0);

pub const GALLON: Descriptor = (Metric::Volume, Position::AfterAmount, 2_641_720_523_581_484, 13);

pub const PINT: Descriptor = (Metric::Volume, Position::AfterAmount, 2_113_376_418_865_187, 12);

pub const CUBICINCH: Descriptor = (
    Metric::Volume,
    Position::AfterAmount,
    6_102_374_409_473_229,
    11,
);

pub const CUBICCENTIMETRE: Descriptor = (Metric::Volume, Position::AfterAmount, 1_000_000, 0);

// Electric charge, counted in ampere hours.

pub const AH: Descriptor = (Metric::Charge, Position::AfterAmount, 1, 0);

pub const MILLIAH: Descriptor = (Metric::Charge, Position::AfterAmount, 1000, 0);

pub const KILOAH: Descriptor = (Metric::Charge, Position::AfterAmount, 1, 3);

pub const MEGAAH: Descriptor = (Metric::Charge, Position::AfterAmount, 1, 6);

// Energy, counted in joules.

pub const JOULE: Descriptor = (Metric::Energy, Position::AfterAmount, 1, 0);

pub const KJOULE: Descriptor = (Metric::Energy, Position::AfterAmount, 1, 3);

pub const WH: Descriptor = (Metric::Energy, Position::AfterAmount, 2_777_777_777_778, 16);

pub const KWH: Descriptor = (Metric::Energy, Position::AfterAmount, 2_777_777_778, 16);

pub const MEGAWH: Descriptor = (Metric::Energy, Position::AfterAmount, 2_777_778, 16);

pub const GWH: Descriptor = (Metric::Energy, Position::AfterAmount, 2778, 16);

pub const MILLIWH: Descriptor = (Metric::Energy, Position::AfterAmount, 2_777_777_777_777_778, 16);

// Money, counted in Chinese yuan.

pub const EUR: Descriptor = (Metric::Currency, Position::Both, 1_338_586, 7);

pub const EUR_SUFFIX: Descriptor = (Metric::Currency, Position::AfterAmount, 1_338_586, 7);

pub const USD: Descriptor = (Metric::Currency, Position::Both, 14_519_601, 8);

pub const USD_SUFFIX: Descriptor = (Metric::Currency, Position::AfterAmount, 14_519_601, 8);

pub const HUF: Descriptor = (Metric::Currency, Position::Both, 50_891_426, 6);

pub const HUF_SUFFIX: Descriptor = (Metric::Currency, Position::AfterAmount, 50_891_426, 6);

pub const INR: Descriptor = (Metric::Currency, Position::Both, 11_941_661, 6);

pub const INR_SUFFIX: Descriptor = (Metric::Currency, Position::AfterAmount, 11_941_661, 6);

pub const GBP: Descriptor = (Metric::Currency, Position::Both, 11_786_355, 8);

pub const GBP_SUFFIX: Descriptor = (Metric::Currency, Position::AfterAmount, 11_786_355, 8);

pub const CNY: Descriptor = (Metric::Currency, Position::Both, 1, 0);

pub const CNY_SUFFIX: Descriptor = (Metric::Currency, Position::AfterAmount, 1, 0);

} // verus!
