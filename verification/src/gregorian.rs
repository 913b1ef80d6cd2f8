//! The proleptic Gregorian calendar, with exact integer conversion between
//! `(year, month, day)` triples and Julian day numbers.
use vstd::prelude::*;

verus! {

use crate::date::{sat_add_jdn, Date, Weekday};
use crate::num::lemma_div_shift_multiple;
use vstd::arithmetic::div_mod::{
    lemma_fundamental_div_mod,
    lemma_fundamental_div_mod_converse_mod,
};

/// Whether `y` is a Gregorian leap year.
pub open spec fn is_leap_year(y: int) -> bool {
    y % 400 == 0 || (y % 4 == 0 && y % 100 != 0)
}

/// The number of days in year `y`.
pub open spec fn days_in_year(y: int) -> int {
    if is_leap_year(y) {
        366
    } else {
        365
    }
}

/// The number of days in month `m` (1-based) of year `y`.
pub open spec fn days_in_month_of(y: int, m: int) -> int {
    if m == 2 {
        if is_leap_year(y) {
            29
        } else {
            28
        }
    } else if m == 4 || m == 6 || m == 9 || m == 11 {
        30
    } else {
        31
    }
}

/// The number of days of year `y` that precede month `m`; month 13 stands
/// for the start of the next year.
pub open spec fn days_before_month_of(y: int, m: int) -> int {
    let base: int = if m <= 1 {
        0
    } else if m == 2 {
        31
    } else if m == 3 {
        59
    } else if m == 4 {
        90
    } else if m == 5 {
        120
    } else if m == 6 {
        151
    } else if m == 7 {
        181
    } else if m == 8 {
        212
    } else if m == 9 {
        243
    } else if m == 10 {
        273
    } else if m == 11 {
        304
    } else if m == 12 {
        334
    } else {
        365
    };
    if m > 2 && is_leap_year(y) {
        base + 1
    } else {
        base
    }
}

/// The number of leap years among the years strictly before year `y`
/// and at or after year 1 (negative for earlier years).
pub open spec fn leap_count_before(y: int) -> int {
    (y - 1) / 4 - (y - 1) / 100 + (y - 1) / 400
}

/// The number of days from the start of year 1 to the start of year `y`
/// (negative for earlier years).
pub open spec fn days_before_year(y: int) -> int {
    365 * (y - 1) + leap_count_before(y)
}

/// The 1-based ordinal of the day `(y, m, d)` within year `y`.
pub open spec fn day_of_year(y: int, m: int, d: int) -> int {
    days_before_month_of(y, m) + d
}

/// Whether `(y, m, d)` names a day of the proleptic Gregorian calendar.
pub open spec fn valid_ymd(y: int, m: int, d: int) -> bool {
    1 <= m <= 12 && 1 <= d <= days_in_month_of(y, m)
}

/// The Julian day number of the Gregorian day `(y, m, d)`:
/// day (1, 1, 1) has Julian day number 1721426.
pub open spec fn jdn_of_ymd(y: int, m: int, d: int) -> int {
    1721425 + days_before_year(y) + day_of_year(y, m, d)
}

/// If `y` is divisible by `big == small * factor`, it is divisible by `small`.
proof fn lemma_divides_coarser(y: int, big: int, small: int, factor: int)
    requires
        big == small * factor,
        big > 0,
        small > 0,
        factor > 0,
        y % big == 0,
    ensures
        y % small == 0,
{
    lemma_fundamental_div_mod(y, big);
    let q = y / big;
    assert(y == small * (factor * q) + 0) by (nonlinear_arith)
        requires
            y == big * q && big == small * factor,
    ;
    lemma_fundamental_div_mod_converse_mod(y, small, factor * q, 0);
}

/// Crossing from year `y` to year `y + 1` adds exactly the length of year `y`.
pub proof fn lemma_days_before_year_step(y: int)
    ensures
        days_before_year(y + 1) == days_before_year(y) + days_in_year(y),
{
    crate::num::lemma_div_step(y, 4);
    crate::num::lemma_div_step(y, 100);
    crate::num::lemma_div_step(y, 400);
    if y % 400 == 0 {
        lemma_divides_coarser(y, 400, 100, 4);
        lemma_divides_coarser(y, 400, 4, 100);
    }
    if y % 100 == 0 {
        lemma_divides_coarser(y, 100, 4, 25);
    }
}

/// `days_before_year` grows by at least 365 per year.
pub proof fn lemma_days_before_year_mono(y1: int, y2: int)
    requires
        y1 <= y2,
    ensures
        days_before_year(y1) + 365 * (y2 - y1) <= days_before_year(y2),
    decreases y2 - y1,
{
    if y1 < y2 {
        lemma_days_before_year_mono(y1, y2 - 1);
        lemma_days_before_year_step(y2 - 1);
    }
}

/// Crossing from month `m` to month `m + 1` adds exactly the length of `m`.
pub proof fn lemma_days_before_month_step(y: int, m: int)
    requires
        1 <= m <= 12,
    ensures
        days_before_month_of(y, m + 1) == days_before_month_of(y, m) + days_in_month_of(y, m),
{
}

/// `days_before_month_of` is monotone in the month.
pub proof fn lemma_days_before_month_mono(y: int, m1: int, m2: int)
    requires
        1 <= m1 <= m2 <= 13,
    ensures
        days_before_month_of(y, m1) <= days_before_month_of(y, m2),
{
}

/// The day-of-year ordinal of a valid day lies within the year.
pub proof fn lemma_day_of_year_bounds(y: int, m: int, d: int)
    requires
        valid_ymd(y, m, d),
    ensures
        1 <= day_of_year(y, m, d) <= days_in_year(y),
{
    lemma_days_before_month_step(y, m);
    lemma_days_before_month_mono(y, m + 1, 13);
}

/// Distinct valid `(y, m, d)` triples have distinct Julian day numbers.
pub proof fn lemma_jdn_of_ymd_injective(y1: int, m1: int, d1: int, y2: int, m2: int, d2: int)
    requires
        valid_ymd(y1, m1, d1),
        valid_ymd(y2, m2, d2),
        jdn_of_ymd(y1, m1, d1) == jdn_of_ymd(y2, m2, d2),
    ensures
        y1 == y2,
        m1 == m2,
        d1 == d2,
{
    lemma_day_of_year_bounds(y1, m1, d1);
    lemma_day_of_year_bounds(y2, m2, d2);
    if y1 < y2 {
        lemma_days_before_year_step(y1);
        lemma_days_before_year_mono(y1 + 1, y2);
        assert(false);
    }
    if y2 < y1 {
        lemma_days_before_year_step(y2);
        lemma_days_before_year_mono(y2 + 1, y1);
        assert(false);
    }
    if m1 < m2 {
        lemma_days_before_month_step(y1, m1);
        lemma_days_before_month_mono(y1, m1 + 1, m2);
        assert(false);
    }
    if m2 < m1 {
        lemma_days_before_month_step(y1, m2);
        lemma_days_before_month_mono(y1, m2 + 1, m1);
        assert(false);
    }
}

/// Whether `y` is a Gregorian leap year.
pub fn is_leap_year_exec(y: i32) -> (r: bool)
    ensures
        r == is_leap_year(y as int),
{
    let u: u64 = (y as i64 + 4_000_000_000) as u64;
    proof {
        lemma_div_shift_multiple(y as int, 4, 1_000_000_000);
        lemma_div_shift_multiple(y as int, 100, 40_000_000);
        lemma_div_shift_multiple(y as int, 400, 10_000_000);
    }
    u % 400 == 0 || (u % 4 == 0 && u % 100 != 0)
}

/// The number of days from the start of year 1 to the start of year `y`,
/// negative for earlier years.
pub fn days_before_year_exec(y: i32) -> (r: i64)
    requires
        -5_000_000 <= y <= 12_000_000,
    ensures
        r == days_before_year(y as int),
{
    let yy: i64 = y as i64;
    let u: u64 = (yy - 1 + 5_000_400) as u64;
    let q4: i64 = (u / 4) as i64 - 1_250_100;
    let q100: i64 = (u / 100) as i64 - 50_004;
    let q400: i64 = (u / 400) as i64 - 12_501;
    proof {
        lemma_div_shift_multiple(yy - 1, 4, 1_250_100);
        lemma_div_shift_multiple(yy - 1, 100, 50_004);
        lemma_div_shift_multiple(yy - 1, 400, 12_501);
    }
    365 * (yy - 1) + q4 - q100 + q400
}

/// The number of days of year `y` that precede month `m`; month 13 stands
/// for the start of the next year.
pub fn days_before_month_exec(y: i32, m: u8) -> (r: u16)
    requires
        1 <= m <= 13,
    ensures
        r == days_before_month_of(y as int, m as int),
{
    let base: u16 = match m {
        1 => 0,
        2 => 31,
        3 => 59,
        4 => 90,
        5 => 120,
        6 => 151,
        7 => 181,
        8 => 212,
        9 => 243,
        10 => 273,
        11 => 304,
        12 => 334,
        _ => 365,
    };
    if m > 2 && is_leap_year_exec(y) {
        base + 1
    } else {
        base
    }
}

/// The number of days in month `m` (1-based) of year `y`.
pub fn days_in_month_exec(y: i32, m: u8) -> (r: u8)
    requires
        1 <= m <= 12,
    ensures
        r == days_in_month_of(y as int, m as int),
{
    match m {
        2 => {
            if is_leap_year_exec(y) {
                29
            } else {
                28
            }
        },
        4 | 6 | 9 | 11 => 30,
        _ => 31,
    }
}

/// The Julian day number of the Gregorian day `(y, m, d)`, as a signed count
/// (negative for days before −4713-11-24).
pub fn gregorian_to_jdn(y: i32, m: u8, d: u8) -> (r: i64)
    requires
        -5_000_000 <= y <= 12_000_000,
        1 <= m <= 12,
    ensures
        r == jdn_of_ymd(y as int, m as int, d as int),
{
    1721425 + days_before_year_exec(y) + days_before_month_exec(y, m) as i64 + d as i64
}

/// The Gregorian day `(y, m, d)` with the given Julian day number.
pub fn jdn_to_gregorian(jdn: u32) -> (r: (i32, u8, u8))
    ensures
        valid_ymd(r.0 as int, r.1 as int, r.2 as int),
        jdn_of_ymd(r.0 as int, r.1 as int, r.2 as int) == jdn,
        -4714 <= r.0 <= 11_800_000,
{
    let n: i64 = jdn as i64 - 1721425;
    let mut lo: i64 = -4800;
    let mut hi: i64 = 12_000_000;
    proof {
        assert(days_before_year(-4800) < -1721425);
        assert(days_before_year(12_000_000) > 4294967295);
    }
    while lo + 1 < hi
        invariant
            -4800 <= lo < hi <= 12_000_000,
            days_before_year(lo as int) < n,
            n <= days_before_year(hi as int),
            n == jdn - 1721425,
        decreases hi - lo,
    {
        let mid: i64 = lo + (hi - lo) / 2;
        if days_before_year_exec(mid as i32) < n {
            lo = mid;
        } else {
            hi = mid;
        }
    }
    let y: i32 = lo as i32;
    let doy: i64 = n - days_before_year_exec(y);
    proof {
        lemma_days_before_year_step(y as int);
    }
    let doy: u16 = doy as u16;
    let mut m: u8 = 1;
    while m < 12 && days_before_month_exec(y, m + 1) < doy
        invariant
            1 <= m <= 12,
            days_before_month_of(y as int, m as int) < doy,
            1 <= doy <= days_in_year(y as int),
        decreases 12 - m,
    {
        m = m + 1;
    }
    proof {
        lemma_days_before_month_step(y as int, m as int);
    }
    let d: u8 = (doy - days_before_month_exec(y, m)) as u8;
    (y, m, d)
}


/// The 12 month names of the Gregorian calendar.
#[derive(Debug, Clone, Copy, PartialEq, Eq, Structural)]
pub enum MonthName {
    January,
    February,
    March,
    April,
    May,
    June,
    July,
    August,
    September,
    October,
    November,
    December,
}

impl MonthName {
    /// 0-based position of the variant, January first.
    pub open spec fn index_spec(self) -> int {
        match self {
            MonthName::January => 0,
            MonthName::February => 1,
            MonthName::March => 2,
            MonthName::April => 3,
            MonthName::May => 4,
            MonthName::June => 5,
            MonthName::July => 6,
            MonthName::August => 7,
            MonthName::September => 8,
            MonthName::October => 9,
            MonthName::November => 10,
            MonthName::December => 11,
        }
    }

    /// The variant at a 0-based position in 0..12.
    pub open spec fn from_index_spec(i: int) -> MonthName {
        if i == 0 {
            MonthName::January
        } else if i == 1 {
            MonthName::February
        } else if i == 2 {
            MonthName::March
        } else if i == 3 {
            MonthName::April
        } else if i == 4 {
            MonthName::May
        } else if i == 5 {
            MonthName::June
        } else if i == 6 {
            MonthName::July
        } else if i == 7 {
            MonthName::August
        } else if i == 8 {
            MonthName::September
        } else if i == 9 {
            MonthName::October
        } else if i == 10 {
            MonthName::November
        } else {
            MonthName::December
        }
    }

    /// The variant at a 0-based position; `None` outside 0..12.
    pub fn from_repr(repr: usize) -> (r: Option<MonthName>)
        ensures
            r == if repr < 12 {
                Some(MonthName::from_index_spec(repr as int))
            } else {
                None::<MonthName>
            },
    {
        match repr {
            0 => Some(MonthName::January),
            1 => Some(MonthName::February),
            2 => Some(MonthName::March),
            3 => Some(MonthName::April),
            4 => Some(MonthName::May),
            5 => Some(MonthName::June),
            6 => Some(MonthName::July),
            7 => Some(MonthName::August),
            8 => Some(MonthName::September),
            9 => Some(MonthName::October),
            10 => Some(MonthName::November),
            11 => Some(MonthName::December),
            _ => None,
        }
    }

    /// The 1-based ordinal, January = 1 .. December = 12.
    pub fn ord(&self) -> (r: u8)
        ensures
            r == self.index_spec() + 1,
    {
        match self {
            MonthName::January => 1,
            MonthName::February => 2,
            MonthName::March => 3,
            MonthName::April => 4,
            MonthName::May => 5,
            MonthName::June => 6,
            MonthName::July => 7,
            MonthName::August => 8,
            MonthName::September => 9,
            MonthName::October => 10,
            MonthName::November => 11,
            MonthName::December => 12,
        }
    }

    /// The variant with the given 1-based ordinal; `None` outside 1..=12.
    pub fn from_ord(ord: u8) -> (r: Option<MonthName>)
        ensures
            r == if 1 <= ord <= 12 {
                Some(MonthName::from_index_spec(ord - 1))
            } else {
                None::<MonthName>
            },
    {
        if ord >= 1 {
            MonthName::from_repr((ord - 1) as usize)
        } else {
            None
        }
    }

    /// The first month of the year.
    pub fn first() -> (r: MonthName)
        ensures
            r == MonthName::January,
    {
        MonthName::January
    }

    /// The last month of the year.
    pub fn last() -> (r: MonthName)
        ensures
            r == MonthName::December,
    {
        MonthName::December
    }

    /// The next month name; `None` after December.
    pub fn succ(&self) -> (r: Option<MonthName>)
        ensures
            r == if self.index_spec() < 11 {
                Some(MonthName::from_index_spec(self.index_spec() + 1))
            } else {
                None::<MonthName>
            },
    {
        match self {
            MonthName::January => Some(MonthName::February),
            MonthName::February => Some(MonthName::March),
            MonthName::March => Some(MonthName::April),
            MonthName::April => Some(MonthName::May),
            MonthName::May => Some(MonthName::June),
            MonthName::June => Some(MonthName::July),
            MonthName::July => Some(MonthName::August),
            MonthName::August => Some(MonthName::September),
            MonthName::September => Some(MonthName::October),
            MonthName::October => Some(MonthName::November),
            MonthName::November => Some(MonthName::December),
            MonthName::December => None,
        }
    }

    /// The previous month name; `None` before January.
    pub fn pred(&self) -> (r: Option<MonthName>)
        ensures
            r == if self.index_spec() > 0 {
                Some(MonthName::from_index_spec(self.index_spec() - 1))
            } else {
                None::<MonthName>
            },
    {
        match self {
            MonthName::January => None,
            MonthName::February => Some(MonthName::January),
            MonthName::March => Some(MonthName::February),
            MonthName::April => Some(MonthName::March),
            MonthName::May => Some(MonthName::April),
            MonthName::June => Some(MonthName::May),
            MonthName::July => Some(MonthName::June),
            MonthName::August => Some(MonthName::July),
            MonthName::September => Some(MonthName::August),
            MonthName::October => Some(MonthName::September),
            MonthName::November => Some(MonthName::October),
            MonthName::December => Some(MonthName::November),
        }
    }

    /// The month name with the given English name, as a sequence of
    /// characters.
    pub open spec fn from_name_spec(s: Seq<char>) -> Option<MonthName> {
        if s == "January"@ {
            Some(MonthName::January)
        } else if s == "February"@ {
            Some(MonthName::February)
        } else if s == "March"@ {
            Some(MonthName::March)
        } else if s == "April"@ {
            Some(MonthName::April)
        } else if s == "May"@ {
            Some(MonthName::May)
        } else if s == "June"@ {
            Some(MonthName::June)
        } else if s == "July"@ {
            Some(MonthName::July)
        } else if s == "August"@ {
            Some(MonthName::August)
        } else if s == "September"@ {
            Some(MonthName::September)
        } else if s == "October"@ {
            Some(MonthName::October)
        } else if s == "November"@ {
            Some(MonthName::November)
        } else if s == "December"@ {
            Some(MonthName::December)
        } else {
            None
        }
    }

    /// The month name with the given English name; `None` for any other
    /// string.
    pub fn from_name(name: &str) -> (r: Option<MonthName>)
        ensures
            r == MonthName::from_name_spec(name@),
    {
        let owned = name.to_owned();
        if owned == "January".to_owned() {
            Some(MonthName::January)
        } else if owned == "February".to_owned() {
            Some(MonthName::February)
        } else if owned == "March".to_owned() {
            Some(MonthName::March)
        } else if owned == "April".to_owned() {
            Some(MonthName::April)
        } else if owned == "May".to_owned() {
            Some(MonthName::May)
        } else if owned == "June".to_owned() {
            Some(MonthName::June)
        } else if owned == "July".to_owned() {
            Some(MonthName::July)
        } else if owned == "August".to_owned() {
            Some(MonthName::August)
        } else if owned == "September".to_owned() {
            Some(MonthName::September)
        } else if owned == "October".to_owned() {
            Some(MonthName::October)
        } else if owned == "November".to_owned() {
            Some(MonthName::November)
        } else if owned == "December".to_owned() {
            Some(MonthName::December)
        } else {
            None
        }
    }

    /// The English name, as a sequence of characters.
    pub open spec fn name_spec(self) -> Seq<char> {
        match self {
            MonthName::January => "January"@,
            MonthName::February => "February"@,
            MonthName::March => "March"@,
            MonthName::April => "April"@,
            MonthName::May => "May"@,
            MonthName::June => "June"@,
            MonthName::July => "July"@,
            MonthName::August => "August"@,
            MonthName::September => "September"@,
            MonthName::October => "October"@,
            MonthName::November => "November"@,
            MonthName::December => "December"@,
        }
    }

    /// The English name of the variant.
    pub fn name(&self) -> (r: &'static str)
        ensures
            r@ == self.name_spec(),
    {
        match self {
            MonthName::January => "January",
            MonthName::February => "February",
            MonthName::March => "March",
            MonthName::April => "April",
            MonthName::May => "May",
            MonthName::June => "June",
            MonthName::July => "July",
            MonthName::August => "August",
            MonthName::September => "September",
            MonthName::October => "October",
            MonthName::November => "November",
            MonthName::December => "December",
        }
    }
}

/// A year of the proleptic Gregorian calendar.
///
/// The view of a `Year` is its year number.
#[derive(Debug, Clone, Copy, PartialEq, Eq, Structural)]
pub struct Year {
    year: i32,
}

impl View for Year {
    type V = int;

    closed spec fn view(&self) -> int {
        self.year as int
    }
}

impl PartialOrd for Year {
    /// Years are totally ordered by their numbers.
    fn partial_cmp(&self, other: &Year) -> (r: Option<core::cmp::Ordering>) {
        if self.year < other.year {
            Some(core::cmp::Ordering::Less)
        } else if self.year == other.year {
            Some(core::cmp::Ordering::Equal)
        } else {
            Some(core::cmp::Ordering::Greater)
        }
    }
}

impl vstd::std_specs::cmp::PartialOrdSpecImpl for Year {
    open spec fn obeys_partial_cmp_spec() -> bool {
        true
    }

    open spec fn partial_cmp_spec(&self, other: &Year) -> Option<core::cmp::Ordering> {
        if self@ < other@ {
            Some(core::cmp::Ordering::Less)
        } else if self@ == other@ {
            Some(core::cmp::Ordering::Equal)
        } else {
            Some(core::cmp::Ordering::Greater)
        }
    }
}

impl Year {
    /// The year with the given number, without a range check; `Calendar::from_y`
    /// is the checked constructor.
    fn new(year: i32) -> (r: Year)
        ensures
            r@ == year,
    {
        Year { year }
    }

    /// The year number.
    pub fn ord(&self) -> (r: i32)
        ensures
            r == self@,
    {
        self.year
    }

    /// The next year.
    pub fn succ(&self) -> (r: Year)
        requires
            self@ < i32::MAX,
        ensures
            r@ == self@ + 1,
    {
        Year { year: self.year + 1 }
    }

    /// The previous year.
    pub fn pred(&self) -> (r: Year)
        requires
            self@ > i32::MIN,
        ensures
            r@ == self@ - 1,
    {
        Year { year: self.year - 1 }
    }

    /// Whether the year is a leap year.
    pub fn is_leap(&self) -> (r: bool)
        ensures
            r == is_leap_year(self@),
    {
        is_leap_year_exec(self.year)
    }

    /// The number of months of the year.
    pub fn num_months(&self) -> (r: usize)
        ensures
            r == 12,
    {
        12
    }

    /// The month of the year with the given name.
    pub fn month_by_name(&self, month_name: MonthName) -> (r: Month)
        ensures
            r@ == (self@, month_name.index_spec() + 1),
    {
        Month { year: *self, month: month_name }
    }

    /// The month with the given 1-based ordinal; `None` outside 1..=12.
    pub fn month(&self, month_ord: u8) -> (r: Option<Month>)
        ensures
            1 <= month_ord <= 12 ==> (r matches Some(m) && m@ == (self@, month_ord as int)),
            !(1 <= month_ord <= 12) ==> r is None,
    {
        match MonthName::from_ord(month_ord) {
            Some(mn) => Some(self.month_by_name(mn)),
            None => None,
        }
    }

    /// The first month of the year.
    pub fn first_month(&self) -> (r: Month)
        ensures
            r@ == (self@, 1int),
    {
        self.month_by_name(MonthName::January)
    }

    /// The last month of the year.
    pub fn last_month(&self) -> (r: Month)
        ensures
            r@ == (self@, 12int),
    {
        self.month_by_name(MonthName::December)
    }

    /// All 12 months of the year, in order.
    pub fn months(&self) -> (r: Vec<Month>)
        ensures
            r@.len() == 12,
            forall|i: int| 0 <= i < 12 ==> (#[trigger] r@[i])@ == (self@, i + 1),
    {
        let mut v: Vec<Month> = Vec::new();
        let mut ord: u8 = 1;
        while ord <= 12
            invariant
                1 <= ord <= 13,
                v@.len() == ord - 1,
                forall|i: int| 0 <= i < v@.len() ==> (#[trigger] v@[i])@ == (self@, i + 1),
            decreases 13 - ord,
        {
            let m = self.month(ord);
            v.push(m.unwrap());
            ord = ord + 1;
        }
        v
    }

    /// The number of days of the year.
    pub fn num_days(&self) -> (r: usize)
        ensures
            r == days_in_year(self@),
    {
        if self.is_leap() {
            366
        } else {
            365
        }
    }

    /// The day of the year with the given 1-based ordinal; `None` outside
    /// the year.
    pub fn day(&self, ord: u16) -> (r: Option<Day>)
        ensures
            r matches Some(d) ==> d.wf() && d@.0 == self@ && day_of_year(d@.0, d@.1, d@.2) == ord,
            r is None <==> !(1 <= ord <= days_in_year(self@)),
    {
        if ord == 0 {
            return None;
        }
        let mut m: u8 = 1;
        let mut rem: u16 = ord;
        while m <= 12
            invariant
                1 <= m <= 13,
                1 <= rem,
                rem == ord - days_before_month_of(self@, m as int),
            decreases 13 - m,
        {
            let month = self.month(m).unwrap();
            let nd = month.num_days() as u16;
            if rem <= nd {
                proof {
                    lemma_day_of_year_bounds(self@, m as int, rem as int);
                }
                return month.day(rem as u8);
            }
            proof {
                lemma_days_before_month_step(self@, m as int);
            }
            rem = rem - nd;
            m = m + 1;
        }
        proof {
            lemma_day_of_year_bounds(self@, 12, days_in_month_of(self@, 12));
        }
        None
    }

    /// The first day of the year.
    pub fn first_day(&self) -> (r: Day)
        ensures
            r.wf(),
            r@ == (self@, 1int, 1int),
    {
        self.day(1).unwrap()
    }

    /// The last day of the year.
    pub fn last_day(&self) -> (r: Day)
        ensures
            r.wf(),
            r@ == (self@, 12int, 31int),
    {
        let r = self.day(self.num_days() as u16).unwrap();
        proof {
            lemma_day_of_year_bounds(self@, 12, 31);
            lemma_jdn_of_ymd_injective(r@.0, r@.1, r@.2, self@, 12, 31);
        }
        r
    }

    /// All days of the year, in order.
    pub fn days(&self) -> (r: Vec<Day>)
        ensures
            r@.len() == days_in_year(self@),
            forall|i: int|
                0 <= i < r@.len() ==> (#[trigger] r@[i]).wf() && r@[i]@.0 == self@ && day_of_year(
                    r@[i]@.0,
                    r@[i]@.1,
                    r@[i]@.2,
                ) == i + 1,
    {
        let n = self.num_days() as u16;
        let mut v: Vec<Day> = Vec::new();
        let mut ord: u16 = 1;
        while ord <= n
            invariant
                1 <= ord <= n + 1,
                n == days_in_year(self@),
                v@.len() == ord - 1,
                forall|i: int|
                    0 <= i < v@.len() ==> (#[trigger] v@[i]).wf() && v@[i]@.0 == self@
                        && day_of_year(v@[i]@.0, v@[i]@.1, v@[i]@.2) == i + 1,
            decreases n + 1 - ord,
        {
            let d = self.day(ord);
            v.push(d.unwrap());
            ord = ord + 1;
        }
        v
    }
}

/// A month of a Gregorian year.
///
/// The view of a `Month` is the pair of its year number and its 1-based
/// month ordinal.
#[derive(Debug, Clone, Copy, PartialEq, Eq, Structural)]
pub struct Month {
    year: Year,
    month: MonthName,
}

impl View for Month {
    type V = (int, int);

    closed spec fn view(&self) -> (int, int) {
        (self.year@, self.month.index_spec() + 1)
    }
}

impl Month {
    /// The name of the month.
    pub fn name(&self) -> (r: MonthName)
        ensures
            r.index_spec() + 1 == self@.1,
    {
        self.month
    }

    /// The 1-based ordinal of the month within its year.
    pub fn ord(&self) -> (r: u8)
        ensures
            r == self@.1,
    {
        self.month.ord()
    }

    /// The year the month belongs to.
    pub fn the_year(&self) -> (r: Year)
        ensures
            r@ == self@.0,
    {
        self.year
    }

    /// The next month, crossing into the next year after December.
    pub fn succ(&self) -> (r: Month)
        requires
            self@.0 < i32::MAX,
        ensures
            r@ == if self@.1 < 12 {
                (self@.0, self@.1 + 1)
            } else {
                (self@.0 + 1, 1)
            },
    {
        match self.month.succ() {
            Some(next_month) => self.year.month_by_name(next_month),
            None => self.year.succ().first_month(),
        }
    }

    /// The previous month, crossing into the previous year before January.
    pub fn pred(&self) -> (r: Month)
        requires
            self@.0 > i32::MIN,
        ensures
            r@ == if self@.1 > 1 {
                (self@.0, self@.1 - 1)
            } else {
                (self@.0 - 1, 12)
            },
    {
        match self.month.pred() {
            Some(prev_month) => self.year.month_by_name(prev_month),
            None => self.year.pred().last_month(),
        }
    }

    /// The number of days of the month.
    pub fn num_days(&self) -> (r: usize)
        ensures
            r == days_in_month_of(self@.0, self@.1),
    {
        days_in_month_exec(self.year.year, self.month.ord()) as usize
    }

    /// The day of the month with the given 1-based ordinal; `None` outside
    /// the month.
    pub fn day(&self, day_ord: u8) -> (r: Option<Day>)
        ensures
            r matches Some(d) ==> d.wf() && d@ == (self@.0, self@.1, day_ord as int),
            r is None <==> !(1 <= day_ord <= days_in_month_of(self@.0, self@.1)),
    {
        if day_ord < 1 || day_ord as usize > self.num_days() {
            return None;
        }
        Some(Day { month: *self, day: day_ord - 1 })
    }

    /// The first day of the month.
    pub fn first_day(&self) -> (r: Day)
        ensures
            r.wf(),
            r@ == (self@.0, self@.1, 1int),
    {
        self.day(1).unwrap()
    }

    /// The last day of the month.
    pub fn last_day(&self) -> (r: Day)
        ensures
            r.wf(),
            r@ == (self@.0, self@.1, days_in_month_of(self@.0, self@.1)),
    {
        self.day(self.num_days() as u8).unwrap()
    }

    /// All days of the month, in order.
    pub fn days(&self) -> (r: Vec<Day>)
        ensures
            r@.len() == days_in_month_of(self@.0, self@.1),
            forall|i: int|
                0 <= i < r@.len() ==> (#[trigger] r@[i]).wf() && r@[i]@ == (self@.0, self@.1, i + 1),
    {
        let n = self.num_days() as u8;
        let mut v: Vec<Day> = Vec::new();
        let mut ord: u8 = 1;
        while ord <= n
            invariant
                1 <= ord <= n + 1,
                n == days_in_month_of(self@.0, self@.1),
                v@.len() == ord - 1,
                forall|i: int|
                    0 <= i < v@.len() ==> (#[trigger] v@[i]).wf() && v@[i]@ == (self@.0, self@.1, i + 1),
            decreases n + 1 - ord,
        {
            let d = self.day(ord);
            v.push(d.unwrap());
            ord = ord + 1;
        }
        v
    }

    /// Whether the month is a leap February.
    pub fn is_leap(&self) -> (r: bool)
        ensures
            r == (self@.1 == 2 && is_leap_year(self@.0)),
    {
        match self.month {
            MonthName::February => self.year.is_leap(),
            _ => false,
        }
    }
}

/// A day of the proleptic Gregorian calendar.
///
/// The view of a `Day` is the triple of its year number, 1-based month
/// ordinal and 1-based day-of-month ordinal.
#[derive(Debug, Clone, Copy, PartialEq, Eq, Structural)]
pub struct Day {
    month: Month,
    day: u8,
}

impl View for Day {
    type V = (int, int, int);

    closed spec fn view(&self) -> (int, int, int) {
        (self.month@.0, self.month@.1, self.day + 1)
    }
}

impl Day {
    /// Whether the triple the day stands for is a day of the calendar.
    pub open spec fn wf(self) -> bool {
        valid_ymd(self@.0, self@.1, self@.2)
    }

    /// The 1-based ordinal of the day within its month.
    pub fn ord(&self) -> (r: u8)
        requires
            self.wf(),
        ensures
            r == self@.2,
    {
        self.day + 1
    }

    /// The year the day belongs to.
    pub fn the_year(&self) -> (r: Year)
        ensures
            r@ == self@.0,
    {
        self.month.the_year()
    }

    /// The month the day belongs to.
    pub fn the_month(&self) -> (r: Month)
        ensures
            r@ == (self@.0, self@.1),
    {
        self.month
    }

    /// The next day, crossing month and year boundaries as needed: the
    /// Julian day number grows by exactly one.
    pub fn succ(&self) -> (r: Day)
        requires
            self.wf(),
            self@.0 < i32::MAX,
        ensures
            r.wf(),
            jdn_of_ymd(r@.0, r@.1, r@.2) == jdn_of_ymd(self@.0, self@.1, self@.2) + 1,
    {
        proof {
            lemma_days_before_month_step(self@.0, self@.1);
            if self@.1 == 12 {
                lemma_days_before_year_step(self@.0);
            }
        }
        if (self.day as usize) < self.month.num_days() - 1 {
            Day { month: self.month, day: self.day + 1 }
        } else {
            self.month.succ().first_day()
        }
    }

    /// The previous day, crossing month and year boundaries as needed: the
    /// Julian day number shrinks by exactly one.
    pub fn pred(&self) -> (r: Day)
        requires
            self.wf(),
            self@.0 > i32::MIN,
        ensures
            r.wf(),
            jdn_of_ymd(r@.0, r@.1, r@.2) == jdn_of_ymd(self@.0, self@.1, self@.2) - 1,
    {
        proof {
            if self@.1 == 1 && self@.2 == 1 {
                lemma_days_before_year_step(self@.0 - 1);
                lemma_days_before_month_step(self@.0 - 1, 12);
            } else if self@.2 == 1 {
                lemma_days_before_month_step(self@.0, self@.1 - 1);
            }
        }
        if self.day > 0 {
            Day { month: self.month, day: self.day - 1 }
        } else {
            self.month.pred().last_day()
        }
    }

    /// The date (Julian day number) of the day, saturating at the bounds of
    /// a day-number value for days before the day-number epoch.
    pub fn to_date(&self) -> (r: Date)
        requires
            self.wf(),
            -5_000_000 <= self@.0 <= 12_000_000,
        ensures
            r@ == sat_add_jdn(jdn_of_ymd(self@.0, self@.1, self@.2), 0),
    {
        let j = gregorian_to_jdn(self.month.year.year, self.month.month.ord(), self.day + 1);
        if j < 0 {
            Date::from_jdn(0)
        } else if j > u32::MAX as i64 {
            Date::from_jdn(u32::MAX)
        } else {
            Date::from_jdn(j as u32)
        }
    }

    /// The Julian day number of the day, saturating as `to_date` does.
    pub fn jdn(&self) -> (r: u32)
        requires
            self.wf(),
            -5_000_000 <= self@.0 <= 12_000_000,
        ensures
            r == sat_add_jdn(jdn_of_ymd(self@.0, self@.1, self@.2), 0),
    {
        self.to_date().jdn()
    }

    /// The day of the week.
    pub fn weekday(&self) -> (r: Weekday)
        requires
            self.wf(),
            -5_000_000 <= self@.0 <= 12_000_000,
        ensures
            r == Weekday::from_index_spec(sat_add_jdn(jdn_of_ymd(self@.0, self@.1, self@.2), 0) % 7),
    {
        self.to_date().weekday()
    }

    /// The Gregorian day of the given date: the unique valid triple whose
    /// Julian day number is the date's.
    pub fn from_date(date: Date) -> (r: Day)
        ensures
            r.wf(),
            jdn_of_ymd(r@.0, r@.1, r@.2) == date@,
    {
        let (y, m, d) = jdn_to_gregorian(date.jdn());
        let year = Year::new(y);
        let month = year.month(m).unwrap();
        month.day(d).unwrap()
    }
}

/// The proleptic Gregorian calendar: checked constructors for years, months
/// and days.
pub struct Calendar;

impl Calendar {
    /// The year with the given number, if it is within the supported range.
    pub fn from_y(year: i32) -> (r: Option<Year>)
        ensures
            r matches Some(yy) ==> yy@ == year,
            r is Some <==> -5_000_000 <= year <= 5_000_000,
    {
        if -5_000_000 <= year && year <= 5_000_000 {
            Some(Year::new(year))
        } else {
            None
        }
    }

    /// The month with the given year number and 1-based month ordinal.
    pub fn from_ym(year: i32, month: u8) -> (r: Option<Month>)
        ensures
            r matches Some(m) ==> m@ == (year as int, month as int),
            r is Some <==> (-5_000_000 <= year <= 5_000_000 && 1 <= month <= 12),
    {
        match Self::from_y(year) {
            Some(y) => y.month(month),
            None => None,
        }
    }

    /// The month with the given year number and name.
    pub fn from_yn(year: i32, month: MonthName) -> (r: Option<Month>)
        ensures
            r matches Some(m) ==> m@ == (year as int, month.index_spec() + 1),
            r is Some <==> -5_000_000 <= year <= 5_000_000,
    {
        match Self::from_y(year) {
            Some(y) => Some(y.month_by_name(month)),
            None => None,
        }
    }

    /// The day with the given year number, 1-based month ordinal and 1-based
    /// day ordinal; `None` unless the triple names a day of the calendar in
    /// the supported year range.
    pub fn from_ymd(year: i32, month: u8, day: u8) -> (r: Option<Day>)
        ensures
            r matches Some(d) ==> d.wf() && d@ == (year as int, month as int, day as int),
            r is Some <==> (-5_000_000 <= year <= 5_000_000 && valid_ymd(
                year as int,
                month as int,
                day as int,
            )),
    {
        match Self::from_ym(year, month) {
            Some(m) => m.day(day),
            None => None,
        }
    }

    /// The day with the given year number and name of month.
    pub fn from_ynd(year: i32, month: MonthName, day: u8) -> (r: Option<Day>)
        ensures
            r matches Some(d) ==> d.wf() && d@ == (
                year as int,
                month.index_spec() + 1,
                day as int,
            ),
            r is Some <==> (-5_000_000 <= year <= 5_000_000 && valid_ymd(
                year as int,
                month.index_spec() + 1,
                day as int,
            )),
    {
        match Self::from_yn(year, month) {
            Some(m) => m.day(day),
            None => None,
        }
    }

    /// The day with the given year number and 1-based ordinal within the
    /// year.
    pub fn from_yo(year: i32, day_ord: u16) -> (r: Option<Day>)
        ensures
            r matches Some(d) ==> d.wf() && d@.0 == year && day_of_year(d@.0, d@.1, d@.2)
                == day_ord,
            r is Some <==> (-5_000_000 <= year <= 5_000_000 && 1 <= day_ord <= days_in_year(
                year as int,
            )),
    {
        match Self::from_y(year) {
            Some(y) => y.day(day_ord),
            None => None,
        }
    }
}


/// Whether the day with Julian day number `jdn` belongs to Gregorian year
/// `y`.
pub open spec fn is_year_of_jdn(y: int, jdn: int) -> bool {
    exists|m: int, d: int| valid_ymd(y, m, d) && #[trigger] jdn_of_ymd(y, m, d) == jdn
}

/// The Gregorian year of the day with Julian day number `jdn` (the unique
/// year a valid triple with that day number belongs to).
pub open spec fn greg_year_of(jdn: int) -> int {
    choose|y: int| #[trigger] is_year_of_jdn(y, jdn)
}

/// Any valid triple fixes the Gregorian year of its day number.
pub proof fn lemma_greg_year_of(y: int, m: int, d: int)
    requires
        valid_ymd(y, m, d),
    ensures
        greg_year_of(jdn_of_ymd(y, m, d)) == y,
{
    let jdn = jdn_of_ymd(y, m, d);
    assert(is_year_of_jdn(y, jdn));
    let y2 = greg_year_of(jdn);
    assert(is_year_of_jdn(y2, jdn));
    let (m2, d2) = choose|m2: int, d2: int|
        valid_ymd(y2, m2, d2) && #[trigger] jdn_of_ymd(y2, m2, d2) == jdn;
    lemma_jdn_of_ymd_injective(y, m, d, y2, m2, d2);
}


} // verus!
