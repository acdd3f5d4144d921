//! The vocabulary: every alias that is recognised, with its unit.

use vstd::prelude::*;
use crate::units;
use crate::units::Descriptor;

verus! {

/// The number of aliases in the vocabulary.
pub const VOCABULARY_LEN: usize = 264;

/// Every alias with the unit it names, in the order in which the table is
/// filled. All aliases are written in lower case.
pub const VOCABULARY: [(&'static str, Descriptor); VOCABULARY_LEN] = [
    ("kg", units::KILOGRAM),
    ("kgs", units::KILOGRAM),
    ("kilo", units::KILOGRAM),
    ("kilogram", units::KILOGRAM),
    ("kilos", units::KILOGRAM),
    ("kilograms", units::KILOGRAM),
    ("g", units::GRAM),
    ("gram", units::GRAM),
    ("grams", units::GRAM),
    ("mg", units::MILLIGRAM),
    ("mgs", units::MILLIGRAM),
    ("milligram", units::MILLIGRAM),
    ("milligrams", units::MILLIGRAM),
    ("ug", units::MICROGRAM),
    ("μg", units::MICROGRAM),
    ("ugs", units::MICROGRAM),
    ("μgs", units::MICROGRAM),
    ("microgram", units::MICROGRAM),
    ("micrograms", units::MICROGRAM),
    ("t", units::TON),
    ("ton", units::TON),
    ("tons", units::TON),
    ("m", units::METRE),
    ("meter", units::METRE),
    ("meters", units::METRE),
    ("metres", units::METRE),
    ("metre", units::METRE),
    ("dm", units::DECIMETRE),
    ("decimeter", units::DECIMETRE),
    ("decimeters", units::DECIMETRE),
    ("decimetres", units::DECIMETRE),
    ("decimetre", units::DECIMETRE),
    ("cm", units::CENTIMETRE),
    ("centimeter", units::CENTIMETRE),
    ("centimeters", units::CENTIMETRE),
    ("centimetres", units::CENTIMETRE),
    ("centimetre", units::CENTIMETRE),
    ("mm", units::MILLIMETRE),
    ("millimeter", units::MILLIMETRE),
    ("millimeters", units::MILLIMETRE),
    ("millimetres", units::MILLIMETRE),
    ("millimetre", units::MILLIMETRE),
    ("um", units::MICROMETRE),
    ("μm", units::MICROMETRE),
    ("micrometer", units::MICROMETRE),
    ("micrometers", units::MICROMETRE),
    ("micrometres", units::MICROMETRE),
    ("micrometre", units::MICROMETRE),
    ("nm", units::NANOMETRE),
    ("nanometer", units::NANOMETRE),
    ("nanometers", units::NANOMETRE),
    ("nanometres", units::NANOMETRE),
    ("nanometre", units::NANOMETRE),
    ("km", units::KILOMETRE),
    ("kilometer", units::KILOMETRE),
    ("kilometers", units::KILOMETRE),
    ("kilometres", units::KILOMETRE),
    ("kilometre", units::KILOMETRE),
    ("mile", units::MILE),
    ("miles", units::MILE),
    ("foot", units::FOOT),
    ("feet", units::FOOT),
    ("in", units::INCH),
    ("inch", units::INCH),
    ("inches", units::INCH),
    ("yd", units::YARD),
    ("yard", units::YARD),
    ("yards", units::YARD),
    ("m²", units::QM),
    ("qm", units::QM),
    ("sqm", units::QM),
    ("m2", units::QM),
    ("squaremeter", units::QM),
    ("squaremeters", units::QM),
    ("squaremetre", units::QM),
    ("squaremetres", units::QM),
    ("square meter", units::QM),
    ("square meters", units::QM),
    ("square metre", units::QM),
    ("square metres", units::QM),
    ("dm²", units::QDM),
    ("qdm", units::QDM),
    ("sqdm", units::QDM),
    ("dm2", units::QDM),
    ("squaredecimeter", units::QDM),
    ("squaredecimeters", units::QDM),
    ("squaredecimetre", units::QDM),
    ("squaredecimetres", units::QDM),
    ("square decimeter", units::QDM),
    ("square decimeters", units::QDM),
    ("square decimetre", units::QDM),
    ("square decimetres", units::QDM),
    ("cm²", units::QCM),
    ("qcm", units::QCM),
    ("sqcm", units::QCM),
    ("cm2", units::QCM),
    ("squarecentimeter", units::QCM),
    ("squarecentimeters", units::QCM),
    ("squarecentimetre", units::QCM),
    ("squarecentimetres", units::QCM),
    ("square centimeter", units::QCM),
    ("square centimeters", units::QCM),
    ("square centimetre", units::QCM),
    ("square centimetres", units::QCM),
    ("mm²", units::QMM),
    ("qmm", units::QMM),
    ("sqmm", units::QMM),
    ("mm2", units::QMM),
    ("squaremillimeter", units::QMM),
    ("squaremillimeters", units::QMM),
    ("squaremillimetre", units::QMM),
    ("squaremillimetres", units::QMM),
    ("square millimeter", units::QMM),
    ("square millimeters", units::QMM),
    ("square millimetre", units::QMM),
    ("square millimetres", units::QMM),
    ("ar", units::AR),
    ("ars", units::AR),
    ("ha", units::HECTAR),
    ("has", units::HECTAR),
    ("hectar", units::HECTAR),
    ("hectars", units::HECTAR),
    ("km²", units::QKM),
    // Not the square kilometre: "qkm" names the square metre.
    ("qkm", units::QM),
    ("sqkm", units::QKM),
    ("km2", units::QKM),
    ("squarekilometer", units::QKM),
    ("squarekilometers", units::QKM),
    ("squarekilometre", units::QKM),
    ("squarekilometres", units::QKM),
    ("square kilometer", units::QKM),
    ("square kilometers", units::QKM),
    ("square kilometre", units::QKM),
    ("square kilometres", units::QKM),
    ("m³", units::CUBICMETRE),
    ("m3", units::CUBICMETRE),
    ("cubicmeter", units::CUBICMETRE),
    ("cubicmeters", units::CUBICMETRE),
    ("cubicmetre", units::CUBICMETRE),
    ("cubicmetres", units::CUBICMETRE),
    ("cubic meter", units::CUBICMETRE),
    ("cubic meters", units::CUBICMETRE),
    ("cubic metre", units::CUBICMETRE),
    ("cubic metres", units::CUBICMETRE),
    ("barrel", units::BARREL),
    ("barrels", units::BARREL),
    ("cubicfoot", units::CUBICFOOT),
    ("cubic foot", units::CUBICFOOT),
    ("cubicfeet", units::CUBICFOOT),
    ("cubic feet", units::CUBICFOOT),
    ("dm³", units::LITRE),
    ("dm3", units::LITRE),
    ("cubicdecimeter", units::LITRE),
    ("cubicdecimetre", units::LITRE),
    ("cubicdecimeters", units::LITRE),
    ("cubicdecimetres", units::LITRE),
    ("cubic decimeter", units::LITRE),
    ("cubic decimetre", units::LITRE),
    ("cubic decimeters", units::LITRE),
    ("cubic decimetres", units::LITRE),
    ("liter", units::LITRE),
    ("litre", units::LITRE),
    ("liters", units::LITRE),
    ("litres", units::LITRE),
    ("gallon", units::GALLON),
    ("gallons", units::GALLON),
    ("gal", units::GALLON),
    ("pint", units::PINT),
    ("pints", units::PINT),
    ("cubic inch", units::CUBICINCH),
    ("cubic inches", units::CUBICINCH),
    ("cubicinch", units::CUBICINCH),
    ("cubicinches", units::CUBICINCH),
    ("cm³", units::CUBICCENTIMETRE),
    ("cm3", units::CUBICCENTIMETRE),
    ("cubiccentimeter", units::CUBICCENTIMETRE),
    ("cubiccentimeters", units::CUBICCENTIMETRE),
    ("cubiccentimetre", units::CUBICCENTIMETRE),
    ("cubiccentimetres", units::CUBICCENTIMETRE),
    ("cubic centimeter", units::CUBICCENTIMETRE),
    ("cubic centimeters", units::CUBICCENTIMETRE),
    ("cubic centimetre", units::CUBICCENTIMETRE),
    ("cubic centimetres", units::CUBICCENTIMETRE),
    ("ah", units::AH),
    ("amperehour", units::AH),
    ("amperehours", units::AH),
    ("ampere hour", units::AH),
    ("ampere hours", units::AH),
    ("mah", units::MILLIAH),
    ("milliamperehour", units::MILLIAH),
    ("milliamperehours", units::MILLIAH),
    ("milliampere hour", units::MILLIAH),
    ("milliampere hours", units::MILLIAH),
    ("kah", units::KILOAH),
    ("kiloamperehour", units::KILOAH),
    ("kiloamperehours", units::KILOAH),
    ("kiloampere hour", units::KILOAH),
    ("kiloampere hours", units::KILOAH),
    ("megaamperehour", units::MEGAAH),
    ("megaamperehours", units::MEGAAH),
    ("megaampere hour", units::MEGAAH),
    ("megaampere hours", units::MEGAAH),
    ("j", units::JOULE),
    ("joule", units::JOULE),
    ("joules", units::JOULE),
    ("kj", units::KJOULE),
    ("kilojoule", units::KJOULE),
    ("kilojoules", units::KJOULE),
    ("kilo joule", units::KJOULE),
    ("kilo joules", units::KJOULE),
    ("wh", units::WH),
    ("watthour", units::WH),
    ("watthours", units::WH),
    ("watt hour", units::WH),
    ("watt hours", units::WH),
    ("kwh", units::KWH),
    ("kilowatthour", units::KWH),
    ("kilowatthours", units::KWH),
    ("kilowatt hour", units::KWH),
    ("kilowatt hours", units::KWH),
    ("mwh", units::MEGAWH),
    ("megawatthour", units::MEGAWH),
    ("megawatthours", units::MEGAWH),
    ("megawatt hour", units::MEGAWH),
    ("megawatt hours", units::MEGAWH),
    ("gwh", units::GWH),
    ("gigawatthour", units::GWH),
    ("gigawatthours", units::GWH),
    ("gigawatt hour", units::GWH),
    ("gigawatt hours", units::GWH),
    ("milliwatthour", units::MILLIWH),
    ("milliwatthours", units::MILLIWH),
    ("milliwatt hour", units::MILLIWH),
    ("milliwatt hours", units::MILLIWH),
    ("€", units::EUR),
    ("eur", units::EUR),
    ("euro", units::EUR_SUFFIX),
    ("euros", units::EUR_SUFFIX),
    ("$", units::USD),
    ("usd", units::USD),
    ("dollar", units::USD_SUFFIX),
    ("dollars", units::USD_SUFFIX),
    ("ft", units::HUF),
    ("huf", units::HUF),
    ("fts", units::HUF_SUFFIX),
    ("hufs", units::HUF_SUFFIX),
    ("forint", units::HUF_SUFFIX),
    ("forints", units::HUF_SUFFIX),
    ("₹", units::INR),
    ("inr", units::INR),
    ("rs", units::INR),
    ("rupee", units::INR_SUFFIX),
    ("rupees", units::INR_SUFFIX),
    ("£", units::GBP),
    ("gbp", units::GBP),
    ("pound", units::GBP_SUFFIX),
    ("pounds", units::GBP_SUFFIX),
    ("pound sterling", units::GBP_SUFFIX),
    ("pounds sterling", units::GBP_SUFFIX),
    ("¥", units::CNY),
    ("cny", units::CNY),
    ("rmb", units::CNY),
    ("yuan", units::CNY_SUFFIX),
    ("chinese yuan", units::CNY_SUFFIX),
];

} // verus!
