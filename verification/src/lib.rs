//! A multi-calendar library centred on an astronomically driven Chinese
//! lunisolar calendar engine.
//!
//! A [`Date`] names a civil day by its
//! [Julian day number](https://en.wikipedia.org/wiki/Julian_day) and is the
//! bridge between the supported calendar systems:
//!
//! * [`GregorianCalendar`]: the proleptic Gregorian calendar, with exact
//!   integer conversion between `(year, month, day)` and Julian day numbers;
//! * [`ChineseCalendar`]: the Chinese lunisolar calendar, whose months are
//!   derived from new moons and solar terms.
//!
//! Sun and Moon ecliptic longitudes enter through an [`Ephemeris`] table of
//! per-day samples in fixed-point nanodegrees, so the calendar logic itself
//! is exact integer arithmetic.

pub mod astronomy;
pub mod chinese;
pub mod date;
pub mod gregorian;
pub mod num;

pub use astronomy::{Ephemeris, LunarPhase, SolarTerm};
pub use chinese::{
    Branch, Calendar as ChineseCalendar, Day as ChineseDay, Month as ChineseMonth, Stem,
    StemBranch, Year as ChineseYear,
};
pub use date::{Date, Weekday};
pub use gregorian::{
    Calendar as GregorianCalendar, Day as GregorianDay, Month as GregorianMonth, MonthName,
    Year as GregorianYear,
};

use vstd::prelude::*;

verus! {

/// The inner value of an `Option` known to hold one.
pub fn ignore_none<T>(x: &Option<T>) -> (r: &T)
    requires
        x is Some,
    ensures
        Some(*r) == *x,
{
    match x {
        Some(v) => v,
        None => vstd::pervasive::unreached(),
    }
}

} // verus!
