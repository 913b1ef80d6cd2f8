use vstd::prelude::*;

verus! {

use crate::num::lemma_div_shift_multiple;

/// The 7 days of the week, ordered Monday first.
#[derive(Debug, Clone, Copy, PartialEq, Eq, Structural)]
pub enum Weekday {
    /// Monday, the first day of the week.
    Monday,
    /// Tuesday, the second day of the week.
    Tuesday,
    /// Wednesday, the third day of the week.
    Wednesday,
    /// Thursday, the fourth day of the week.
    Thursday,
    /// Friday, the fifth day of the week.
    Friday,
    /// Saturday, the sixth day of the week.
    Saturday,
    /// Sunday, the seventh day of the week.
    Sunday,
}

impl Weekday {
    /// 0-based position of the variant, Monday first.
    pub open spec fn index_spec(self) -> int {
        match self {
            Weekday::Monday => 0,
            Weekday::Tuesday => 1,
            Weekday::Wednesday => 2,
            Weekday::Thursday => 3,
            Weekday::Friday => 4,
            Weekday::Saturday => 5,
            Weekday::Sunday => 6,
        }
    }

    /// The variant at a 0-based position in 0..7.
    pub open spec fn from_index_spec(i: int) -> Weekday {
        if i == 0 {
            Weekday::Monday
        } else if i == 1 {
            Weekday::Tuesday
        } else if i == 2 {
            Weekday::Wednesday
        } else if i == 3 {
            Weekday::Thursday
        } else if i == 4 {
            Weekday::Friday
        } else if i == 5 {
            Weekday::Saturday
        } else {
            Weekday::Sunday
        }
    }

    /// The variant at a 0-based position; `None` outside 0..7.
    pub fn from_repr(repr: usize) -> (r: Option<Weekday>)
        ensures
            r == if repr < 7 {
                Some(Weekday::from_index_spec(repr as int))
            } else {
                None::<Weekday>
            },
    {
        if repr == 0 {
            Some(Weekday::Monday)
        } else if repr == 1 {
            Some(Weekday::Tuesday)
        } else if repr == 2 {
            Some(Weekday::Wednesday)
        } else if repr == 3 {
            Some(Weekday::Thursday)
        } else if repr == 4 {
            Some(Weekday::Friday)
        } else if repr == 5 {
            Some(Weekday::Saturday)
        } else if repr == 6 {
            Some(Weekday::Sunday)
        } else {
            None
        }
    }

    /// The 1-based ordinal of the variant, Monday = 1 .. Sunday = 7.
    pub fn ord(&self) -> (r: u8)
        ensures
            r == self.index_spec() + 1,
    {
        match self {
            Weekday::Monday => 1,
            Weekday::Tuesday => 2,
            Weekday::Wednesday => 3,
            Weekday::Thursday => 4,
            Weekday::Friday => 5,
            Weekday::Saturday => 6,
            Weekday::Sunday => 7,
        }
    }

    /// The variant with the given 1-based ordinal; `None` outside 1..=7.
    pub fn from_ord(ord: u8) -> (r: Option<Weekday>)
        ensures
            r == if 1 <= ord <= 7 {
                Some(Weekday::from_index_spec(ord - 1))
            } else {
                None::<Weekday>
            },
    {
        if ord >= 1 {
            Weekday::from_repr((ord - 1) as usize)
        } else {
            None
        }
    }

    /// The first variant of the week.
    pub fn first() -> (r: Weekday)
        ensures
            r == Weekday::Monday,
    {
        Weekday::Monday
    }

    /// The last variant of the week.
    pub fn last() -> (r: Weekday)
        ensures
            r == Weekday::Sunday,
    {
        Weekday::Sunday
    }

    /// The next day of the week, wrapping from Sunday to Monday.
    pub fn succ(&self) -> (r: Weekday)
        ensures
            r == Weekday::from_index_spec((self.index_spec() + 1) % 7),
    {
        match self {
            Weekday::Monday => Weekday::Tuesday,
            Weekday::Tuesday => Weekday::Wednesday,
            Weekday::Wednesday => Weekday::Thursday,
            Weekday::Thursday => Weekday::Friday,
            Weekday::Friday => Weekday::Saturday,
            Weekday::Saturday => Weekday::Sunday,
            Weekday::Sunday => Weekday::Monday,
        }
    }

    /// The previous day of the week, wrapping from Monday to Sunday.
    pub fn pred(&self) -> (r: Weekday)
        ensures
            r == Weekday::from_index_spec((self.index_spec() + 6) % 7),
    {
        match self {
            Weekday::Monday => Weekday::Sunday,
            Weekday::Tuesday => Weekday::Monday,
            Weekday::Wednesday => Weekday::Tuesday,
            Weekday::Thursday => Weekday::Wednesday,
            Weekday::Friday => Weekday::Thursday,
            Weekday::Saturday => Weekday::Friday,
            Weekday::Sunday => Weekday::Saturday,
        }
    }

    /// The English name of the variant.
    pub fn name(&self) -> (r: &'static str)
        ensures
            r@ == self.name_spec(),
    {
        match self {
            Weekday::Monday => "Monday",
            Weekday::Tuesday => "Tuesday",
            Weekday::Wednesday => "Wednesday",
            Weekday::Thursday => "Thursday",
            Weekday::Friday => "Friday",
            Weekday::Saturday => "Saturday",
            Weekday::Sunday => "Sunday",
        }
    }

    /// The English name, as a sequence of characters.
    pub open spec fn name_spec(self) -> Seq<char> {
        match self {
            Weekday::Monday => "Monday"@,
            Weekday::Tuesday => "Tuesday"@,
            Weekday::Wednesday => "Wednesday"@,
            Weekday::Thursday => "Thursday"@,
            Weekday::Friday => "Friday"@,
            Weekday::Saturday => "Saturday"@,
            Weekday::Sunday => "Sunday"@,
        }
    }

    /// The weekday with the given English name, as a sequence of
    /// characters.
    pub open spec fn from_name_spec(s: Seq<char>) -> Option<Weekday> {
        if s == "Monday"@ {
            Some(Weekday::Monday)
        } else if s == "Tuesday"@ {
            Some(Weekday::Tuesday)
        } else if s == "Wednesday"@ {
            Some(Weekday::Wednesday)
        } else if s == "Thursday"@ {
            Some(Weekday::Thursday)
        } else if s == "Friday"@ {
            Some(Weekday::Friday)
        } else if s == "Saturday"@ {
            Some(Weekday::Saturday)
        } else if s == "Sunday"@ {
            Some(Weekday::Sunday)
        } else {
            None
        }
    }

    /// The weekday with the given English name; `None` for any other
    /// string.
    pub fn from_name(name: &str) -> (r: Option<Weekday>)
        ensures
            r == Weekday::from_name_spec(name@),
    {
        let owned = name.to_owned();
        if owned == "Monday".to_owned() {
            Some(Weekday::Monday)
        } else if owned == "Tuesday".to_owned() {
            Some(Weekday::Tuesday)
        } else if owned == "Wednesday".to_owned() {
            Some(Weekday::Wednesday)
        } else if owned == "Thursday".to_owned() {
            Some(Weekday::Thursday)
        } else if owned == "Friday".to_owned() {
            Some(Weekday::Friday)
        } else if owned == "Saturday".to_owned() {
            Some(Weekday::Saturday)
        } else if owned == "Sunday".to_owned() {
            Some(Weekday::Sunday)
        } else {
            None
        }
    }

    /// The Chinese name of the variant, in a short (1), medium (2) or long
    /// (any other `length`) form.
    pub fn chinese(&self, length: usize) -> (r: &'static str)
        ensures
            r@ == self.chinese_spec(length as int),
    {
        match self {
            Weekday::Monday => {
                if length == 1 {
                    "一"
                } else if length == 2 {
                    "周一"
                } else {
                    "星期一"
                }
            },
            Weekday::Tuesday => {
                if length == 1 {
                    "二"
                } else if length == 2 {
                    "周二"
                } else {
                    "星期二"
                }
            },
            Weekday::Wednesday => {
                if length == 1 {
                    "三"
                } else if length == 2 {
                    "周三"
                } else {
                    "星期三"
                }
            },
            Weekday::Thursday => {
                if length == 1 {
                    "四"
                } else if length == 2 {
                    "周四"
                } else {
                    "星期四"
                }
            },
            Weekday::Friday => {
                if length == 1 {
                    "五"
                } else if length == 2 {
                    "周五"
                } else {
                    "星期五"
                }
            },
            Weekday::Saturday => {
                if length == 1 {
                    "六"
                } else if length == 2 {
                    "周六"
                } else {
                    "星期六"
                }
            },
            Weekday::Sunday => {
                if length == 1 {
                    "日"
                } else if length == 2 {
                    "周日"
                } else {
                    "星期日"
                }
            },
        }
    }

    /// The Chinese name, as a sequence of characters.
    pub open spec fn chinese_spec(self, length: int) -> Seq<char> {
        if length == 1 {
            match self {
                Weekday::Monday => "一"@,
                Weekday::Tuesday => "二"@,
                Weekday::Wednesday => "三"@,
                Weekday::Thursday => "四"@,
                Weekday::Friday => "五"@,
                Weekday::Saturday => "六"@,
                Weekday::Sunday => "日"@,
            }
        } else if length == 2 {
            match self {
                Weekday::Monday => "周一"@,
                Weekday::Tuesday => "周二"@,
                Weekday::Wednesday => "周三"@,
                Weekday::Thursday => "周四"@,
                Weekday::Friday => "周五"@,
                Weekday::Saturday => "周六"@,
                Weekday::Sunday => "周日"@,
            }
        } else {
            match self {
                Weekday::Monday => "星期一"@,
                Weekday::Tuesday => "星期二"@,
                Weekday::Wednesday => "星期三"@,
                Weekday::Thursday => "星期四"@,
                Weekday::Friday => "星期五"@,
                Weekday::Saturday => "星期六"@,
                Weekday::Sunday => "星期日"@,
            }
        }
    }
}

/// Round-trips between a weekday and its 0-based position.
pub proof fn lemma_weekday_index_roundtrip(w: Weekday, i: int)
    ensures
        Weekday::from_index_spec(w.index_spec()) == w,
        0 <= i < 7 ==> Weekday::from_index_spec(i).index_spec() == i,
{
}

/// The result of adding `k` days to day number `j`, saturating at the bounds
/// of a day-number value.
pub open spec fn sat_add_jdn(j: int, k: int) -> int {
    if j + k < 0 {
        0
    } else if j + k > u32::MAX {
        u32::MAX as int
    } else {
        j + k
    }
}

/// A civil day, identified by its Julian day number (JDN).
///
/// The view of a `Date` is its day number as a mathematical integer.
#[derive(Debug, Clone, Copy, PartialEq, Eq, Structural)]
pub struct Date {
    jdn: u32,
}

impl View for Date {
    type V = int;

    closed spec fn view(&self) -> int {
        self.jdn as int
    }
}

impl PartialOrd for Date {
    /// Dates are totally ordered by their day numbers.
    fn partial_cmp(&self, other: &Date) -> (r: Option<core::cmp::Ordering>) {
        if self.jdn < other.jdn {
            Some(core::cmp::Ordering::Less)
        } else if self.jdn == other.jdn {
            Some(core::cmp::Ordering::Equal)
        } else {
            Some(core::cmp::Ordering::Greater)
        }
    }
}

impl vstd::std_specs::cmp::PartialOrdSpecImpl for Date {
    open spec fn obeys_partial_cmp_spec() -> bool {
        true
    }

    open spec fn partial_cmp_spec(&self, other: &Date) -> Option<core::cmp::Ordering> {
        if self@ < other@ {
            Some(core::cmp::Ordering::Less)
        } else if self@ == other@ {
            Some(core::cmp::Ordering::Equal)
        } else {
            Some(core::cmp::Ordering::Greater)
        }
    }
}

impl Date {
    /// The date with the given Julian day number.
    pub fn from_jdn(jdn: u32) -> (r: Date)
        ensures
            r@ == jdn,
    {
        Date { jdn }
    }

    /// The Julian day number of the date.
    pub fn jdn(&self) -> (r: u32)
        ensures
            r == self@,
    {
        self.jdn
    }

    /// The next day; saturates at the largest representable day number.
    pub fn succ(&self) -> (r: Date)
        ensures
            r@ == sat_add_jdn(self@, 1),
    {
        if self.jdn < u32::MAX {
            Date { jdn: self.jdn + 1 }
        } else {
            Date { jdn: u32::MAX }
        }
    }

    /// The previous day; saturates at day number zero.
    pub fn pred(&self) -> (r: Date)
        ensures
            r@ == sat_add_jdn(self@, -1),
    {
        if self.jdn > 0 {
            Date { jdn: self.jdn - 1 }
        } else {
            Date { jdn: 0 }
        }
    }

    /// The date `days` days later (or earlier, for a negative count),
    /// saturating at the bounds of a day-number value.
    pub fn add_days(&self, days: i32) -> (r: Date)
        ensures
            r@ == sat_add_jdn(self@, days as int),
    {
        if days >= 0 {
            let ku = days as u32;
            if self.jdn <= u32::MAX - ku {
                Date { jdn: self.jdn + ku }
            } else {
                Date { jdn: u32::MAX }
            }
        } else {
            let ku = (-(days as i64)) as u32;
            if self.jdn >= ku {
                Date { jdn: self.jdn - ku }
            } else {
                Date { jdn: 0 }
            }
        }
    }

    /// The number of days from `other` to `self`.
    pub fn diff(&self, other: &Date) -> (r: i32)
        requires
            self@ <= i32::MAX,
            other@ <= i32::MAX,
        ensures
            r == self@ - other@,
    {
        self.jdn as i32 - other.jdn as i32
    }

    /// The day of the week; day number 0 is a Monday.
    pub fn weekday(&self) -> (r: Weekday)
        ensures
            r == Weekday::from_index_spec(self@ % 7),
    {
        let idx = self.jdn % 7;
        let r = Weekday::from_repr(idx as usize);
        r.unwrap()
    }

    /// The date of the civil day (in UTC) containing the given Unix time;
    /// saturates at the largest representable day number.
    pub fn from_unix_time(unix_time: u64) -> (r: Date)
        ensures
            r@ == sat_add_jdn(unix_time as int / 86400, 2440588),
    {
        let q = unix_time / 86400;
        if q <= (u32::MAX - 2440588) as u64 {
            Date { jdn: q as u32 + 2440588 }
        } else {
            Date { jdn: u32::MAX }
        }
    }

    /// The date of the civil day containing the given Unix time in the
    /// timezone `tz_min` minutes east of UTC; saturates at the bounds of a
    /// day-number value.
    pub fn from_unix_time_with_tz(unix_time: u64, tz_min: i32) -> (r: Date)
        requires
            unix_time < 0x4000_0000_0000_0000,
        ensures
            r@ == sat_add_jdn((unix_time - 60 * tz_min) as int / 86400, 2440588),
    {
        let t: i64 = unix_time as i64 - 60 * (tz_min as i64);
        let q: i64 = if t >= 0 {
            (t as u64 / 86400) as i64
        } else {
            let p = ((-t) as u64 + 86399) / 86400;
            proof {
                let tt = t as int;
                let pp = (-tt + 86399) / 86400;
                lemma_div_shift_multiple(-tt - 86400 * pp, 86400, pp);
                assert(tt / 86400 == -pp) by {
                    assert((-tt + 86399) == 86400 * pp + ((-tt + 86399) % 86400));
                    assert(tt == 86400 * (-pp) + (86400 * pp + tt));
                    assert(0 <= 86400 * pp + tt < 86400);
                    vstd::arithmetic::div_mod::lemma_fundamental_div_mod_converse_div(
                        tt,
                        86400,
                        -pp,
                        86400 * pp + tt,
                    );
                }
            }
            -(p as i64)
        };
        if q < -2440588 {
            Date { jdn: 0 }
        } else if q > (u32::MAX - 2440588) as i64 {
            Date { jdn: u32::MAX }
        } else {
            Date { jdn: (q + 2440588) as u32 }
        }
    }
}

/// Event queries on a date, read from an ephemeris sample table.
impl Date {
    /// The solar term of the day, or `None` when the day holds no term
    /// boundary.
    pub fn solar_term(&self, eph: &crate::astronomy::Ephemeris) -> (r: Option<
        crate::astronomy::SolarTerm,
    >)
        requires
            eph.wf(),
            eph.covers_day(self@),
        ensures
            r == eph.solar_term_spec(self@),
    {
        eph.solar_term_of(self.jdn)
    }

    /// The lunar phase of the day; every day the table covers has one.
    pub fn lunar_phase(&self, eph: &crate::astronomy::Ephemeris) -> (r:
        crate::astronomy::LunarPhase)
        requires
            eph.wf(),
            eph.covers_day(self@),
        ensures
            r == eph.lunar_phase_spec(self@),
    {
        eph.lunar_phase_of(self.jdn)
    }
}

/// A date's day number lies within the day-number type.
pub proof fn lemma_date_view_bounds(d: Date)
    ensures
        0 <= d@ <= u32::MAX,
{
}

/// Adding `k` days and then subtracting `k` days returns to the same date,
/// and the difference of the shifted date from the starting date is `k`,
/// whenever the shifted day number stays in range.
pub proof fn lemma_date_add_sub(d: Date, k: int)
    requires
        0 <= d@ + k <= u32::MAX,
    ensures
        sat_add_jdn(sat_add_jdn(d@, k), -k) == d@,
        sat_add_jdn(d@, k) - d@ == k,
{
}

/// `succ` and `pred` are mutual inverses away from the saturation bounds.
pub proof fn lemma_date_succ_pred(d: Date)
    ensures
        d@ < u32::MAX ==> sat_add_jdn(sat_add_jdn(d@, 1), -1) == d@,
        d@ > 0 ==> sat_add_jdn(sat_add_jdn(d@, -1), 1) == d@,
{
}

/// The weekday repeats with period 7.
pub proof fn lemma_weekday_period(j: int)
    requires
        0 <= j,
    ensures
        (j + 7) % 7 == j % 7,
{
    lemma_div_shift_multiple(j, 7, 1);
}

} // verus!
