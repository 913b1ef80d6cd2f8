//! Solar terms and lunar phases, classified from ecliptic longitudes, and
//! the per-day ephemeris sample table that the classification reads.
//!
//! Longitudes are fixed-point integers in nanodegrees: one degree is
//! `1_000_000_000` units.
use vstd::prelude::*;

verus! {

use crate::num::{ceil_div, lemma_ceil_as_floor, lemma_div_shift_multiple};

/// Nanodegree units of one degree.
pub const NANO_DEG: i64 = 1_000_000_000;

/// The 24 solar terms, in solar-year order starting at the winter solstice.
///
/// Term `i` fires when the Sun reaches ecliptic longitude `(270 + 15 i) mod 360`
/// degrees; even-indexed terms are the mid-terms, of which a regular Chinese
/// month holds one.
#[derive(Debug, Clone, Copy, PartialEq, Eq, Structural)]
pub enum SolarTerm {
    WinterSolstice,
    MinorCold,
    MajorCold,
    BeginningOfSpring,
    RainWater,
    AwakeningOfInsects,
    SpringEquinox,
    PureBrightness,
    GrainRain,
    BeginningOfSummer,
    GrainBuds,
    GrainInEar,
    SummerSolstice,
    MinorHeat,
    MajorHeat,
    BeginningOfAutumn,
    EndOfHeat,
    WhiteDew,
    AutumnEquinox,
    ColdDew,
    FrostsDescent,
    BeginningOfWinter,
    MinorSnow,
    MajorSnow,
}

impl SolarTerm {
    /// 0-based position of the variant.
    pub open spec fn index_spec(self) -> int {
        match self {
            SolarTerm::WinterSolstice => 0,
            SolarTerm::MinorCold => 1,
            SolarTerm::MajorCold => 2,
            SolarTerm::BeginningOfSpring => 3,
            SolarTerm::RainWater => 4,
            SolarTerm::AwakeningOfInsects => 5,
            SolarTerm::SpringEquinox => 6,
            SolarTerm::PureBrightness => 7,
            SolarTerm::GrainRain => 8,
            SolarTerm::BeginningOfSummer => 9,
            SolarTerm::GrainBuds => 10,
            SolarTerm::GrainInEar => 11,
            SolarTerm::SummerSolstice => 12,
            SolarTerm::MinorHeat => 13,
            SolarTerm::MajorHeat => 14,
            SolarTerm::BeginningOfAutumn => 15,
            SolarTerm::EndOfHeat => 16,
            SolarTerm::WhiteDew => 17,
            SolarTerm::AutumnEquinox => 18,
            SolarTerm::ColdDew => 19,
            SolarTerm::FrostsDescent => 20,
            SolarTerm::BeginningOfWinter => 21,
            SolarTerm::MinorSnow => 22,
            SolarTerm::MajorSnow => 23,
        }
    }

    /// The variant at a 0-based position in 0..24.
    pub open spec fn from_index_spec(i: int) -> SolarTerm {
        if i == 0 {
            SolarTerm::WinterSolstice
        } else if i == 1 {
            SolarTerm::MinorCold
        } else if i == 2 {
            SolarTerm::MajorCold
        } else if i == 3 {
            SolarTerm::BeginningOfSpring
        } else if i == 4 {
            SolarTerm::RainWater
        } else if i == 5 {
            SolarTerm::AwakeningOfInsects
        } else if i == 6 {
            SolarTerm::SpringEquinox
        } else if i == 7 {
            SolarTerm::PureBrightness
        } else if i == 8 {
            SolarTerm::GrainRain
        } else if i == 9 {
            SolarTerm::BeginningOfSummer
        } else if i == 10 {
            SolarTerm::GrainBuds
        } else if i == 11 {
            SolarTerm::GrainInEar
        } else if i == 12 {
            SolarTerm::SummerSolstice
        } else if i == 13 {
            SolarTerm::MinorHeat
        } else if i == 14 {
            SolarTerm::MajorHeat
        } else if i == 15 {
            SolarTerm::BeginningOfAutumn
        } else if i == 16 {
            SolarTerm::EndOfHeat
        } else if i == 17 {
            SolarTerm::WhiteDew
        } else if i == 18 {
            SolarTerm::AutumnEquinox
        } else if i == 19 {
            SolarTerm::ColdDew
        } else if i == 20 {
            SolarTerm::FrostsDescent
        } else if i == 21 {
            SolarTerm::BeginningOfWinter
        } else if i == 22 {
            SolarTerm::MinorSnow
        } else {
            SolarTerm::MajorSnow
        }
    }

    /// The 0-based position of the variant.
    pub fn index_exec(&self) -> (r: u8)
        ensures
            r == self.index_spec(),
    {
        match self {
            SolarTerm::WinterSolstice => 0,
            SolarTerm::MinorCold => 1,
            SolarTerm::MajorCold => 2,
            SolarTerm::BeginningOfSpring => 3,
            SolarTerm::RainWater => 4,
            SolarTerm::AwakeningOfInsects => 5,
            SolarTerm::SpringEquinox => 6,
            SolarTerm::PureBrightness => 7,
            SolarTerm::GrainRain => 8,
            SolarTerm::BeginningOfSummer => 9,
            SolarTerm::GrainBuds => 10,
            SolarTerm::GrainInEar => 11,
            SolarTerm::SummerSolstice => 12,
            SolarTerm::MinorHeat => 13,
            SolarTerm::MajorHeat => 14,
            SolarTerm::BeginningOfAutumn => 15,
            SolarTerm::EndOfHeat => 16,
            SolarTerm::WhiteDew => 17,
            SolarTerm::AutumnEquinox => 18,
            SolarTerm::ColdDew => 19,
            SolarTerm::FrostsDescent => 20,
            SolarTerm::BeginningOfWinter => 21,
            SolarTerm::MinorSnow => 22,
            SolarTerm::MajorSnow => 23,
        }
    }

    /// The variant at a 0-based position; `None` outside 0..24.
    pub fn from_repr(repr: usize) -> (r: Option<SolarTerm>)
        ensures
            r == if repr < 24 {
                Some(SolarTerm::from_index_spec(repr as int))
            } else {
                None::<SolarTerm>
            },
    {
        match repr {
            0 => Some(SolarTerm::WinterSolstice),
            1 => Some(SolarTerm::MinorCold),
            2 => Some(SolarTerm::MajorCold),
            3 => Some(SolarTerm::BeginningOfSpring),
            4 => Some(SolarTerm::RainWater),
            5 => Some(SolarTerm::AwakeningOfInsects),
            6 => Some(SolarTerm::SpringEquinox),
            7 => Some(SolarTerm::PureBrightness),
            8 => Some(SolarTerm::GrainRain),
            9 => Some(SolarTerm::BeginningOfSummer),
            10 => Some(SolarTerm::GrainBuds),
            11 => Some(SolarTerm::GrainInEar),
            12 => Some(SolarTerm::SummerSolstice),
            13 => Some(SolarTerm::MinorHeat),
            14 => Some(SolarTerm::MajorHeat),
            15 => Some(SolarTerm::BeginningOfAutumn),
            16 => Some(SolarTerm::EndOfHeat),
            17 => Some(SolarTerm::WhiteDew),
            18 => Some(SolarTerm::AutumnEquinox),
            19 => Some(SolarTerm::ColdDew),
            20 => Some(SolarTerm::FrostsDescent),
            21 => Some(SolarTerm::BeginningOfWinter),
            22 => Some(SolarTerm::MinorSnow),
            23 => Some(SolarTerm::MajorSnow),
            _ => None,
        }
    }

    /// The 1-based ordinal of the variant.
    pub fn ord(&self) -> (r: u8)
        ensures
            r == self.index_spec() + 1,
    {
        match self {
            SolarTerm::WinterSolstice => 1,
            SolarTerm::MinorCold => 2,
            SolarTerm::MajorCold => 3,
            SolarTerm::BeginningOfSpring => 4,
            SolarTerm::RainWater => 5,
            SolarTerm::AwakeningOfInsects => 6,
            SolarTerm::SpringEquinox => 7,
            SolarTerm::PureBrightness => 8,
            SolarTerm::GrainRain => 9,
            SolarTerm::BeginningOfSummer => 10,
            SolarTerm::GrainBuds => 11,
            SolarTerm::GrainInEar => 12,
            SolarTerm::SummerSolstice => 13,
            SolarTerm::MinorHeat => 14,
            SolarTerm::MajorHeat => 15,
            SolarTerm::BeginningOfAutumn => 16,
            SolarTerm::EndOfHeat => 17,
            SolarTerm::WhiteDew => 18,
            SolarTerm::AutumnEquinox => 19,
            SolarTerm::ColdDew => 20,
            SolarTerm::FrostsDescent => 21,
            SolarTerm::BeginningOfWinter => 22,
            SolarTerm::MinorSnow => 23,
            SolarTerm::MajorSnow => 24,
        }
    }

    /// The variant with the given 1-based ordinal; `None` outside 1..=24.
    pub fn from_ord(ord: u8) -> (r: Option<SolarTerm>)
        ensures
            r == if 1 <= ord <= 24 {
                Some(SolarTerm::from_index_spec(ord - 1))
            } else {
                None::<SolarTerm>
            },
    {
        if ord >= 1 {
            SolarTerm::from_repr((ord - 1) as usize)
        } else {
            None
        }
    }

    /// Whether the term is a mid-term (an even-indexed term).
    pub open spec fn is_mid_term_spec(self) -> bool {
        self.index_spec() % 2 == 0
    }

    /// Whether the term is a mid-term: a solstice, an equinox, or another
    /// even-indexed term.
    pub fn is_mid_term(&self) -> (r: bool)
        ensures
            r == self.is_mid_term_spec(),
    {
        self.index_exec() % 2 == 0
    }

    /// The next variant, wrapping around at the end of the cycle.
    pub fn succ(&self) -> (r: SolarTerm)
        ensures
            r == SolarTerm::from_index_spec((self.index_spec() + 1) % 24),
    {
        let i = self.index_exec();
        let r = SolarTerm::from_repr((i as usize + 1) % 24);
        r.unwrap()
    }

    /// The previous variant, wrapping around at the start of the cycle.
    pub fn pred(&self) -> (r: SolarTerm)
        ensures
            r == SolarTerm::from_index_spec((self.index_spec() + 23) % 24),
    {
        let i = self.index_exec();
        let r = SolarTerm::from_repr((i as usize + 23) % 24);
        r.unwrap()
    }

    /// The Chinese name of the term, as a sequence of characters.
    pub open spec fn chinese_spec(self) -> Seq<char> {
        match self {
            SolarTerm::WinterSolstice => "冬至"@,
            SolarTerm::MinorCold => "小寒"@,
            SolarTerm::MajorCold => "大寒"@,
            SolarTerm::BeginningOfSpring => "立春"@,
            SolarTerm::RainWater => "雨水"@,
            SolarTerm::AwakeningOfInsects => "惊蛰"@,
            SolarTerm::SpringEquinox => "春分"@,
            SolarTerm::PureBrightness => "清明"@,
            SolarTerm::GrainRain => "谷雨"@,
            SolarTerm::BeginningOfSummer => "立夏"@,
            SolarTerm::GrainBuds => "小满"@,
            SolarTerm::GrainInEar => "芒种"@,
            SolarTerm::SummerSolstice => "夏至"@,
            SolarTerm::MinorHeat => "小暑"@,
            SolarTerm::MajorHeat => "大暑"@,
            SolarTerm::BeginningOfAutumn => "立秋"@,
            SolarTerm::EndOfHeat => "处暑"@,
            SolarTerm::WhiteDew => "白露"@,
            SolarTerm::AutumnEquinox => "秋分"@,
            SolarTerm::ColdDew => "寒露"@,
            SolarTerm::FrostsDescent => "霜降"@,
            SolarTerm::BeginningOfWinter => "立冬"@,
            SolarTerm::MinorSnow => "小雪"@,
            SolarTerm::MajorSnow => "大雪"@,
        }
    }

    /// The Chinese name of the term.
    pub fn chinese(&self) -> (r: &'static str)
        ensures
            r@ == self.chinese_spec(),
    {
        match self {
            SolarTerm::WinterSolstice => "冬至",
            SolarTerm::MinorCold => "小寒",
            SolarTerm::MajorCold => "大寒",
            SolarTerm::BeginningOfSpring => "立春",
            SolarTerm::RainWater => "雨水",
            SolarTerm::AwakeningOfInsects => "惊蛰",
            SolarTerm::SpringEquinox => "春分",
            SolarTerm::PureBrightness => "清明",
            SolarTerm::GrainRain => "谷雨",
            SolarTerm::BeginningOfSummer => "立夏",
            SolarTerm::GrainBuds => "小满",
            SolarTerm::GrainInEar => "芒种",
            SolarTerm::SummerSolstice => "夏至",
            SolarTerm::MinorHeat => "小暑",
            SolarTerm::MajorHeat => "大暑",
            SolarTerm::BeginningOfAutumn => "立秋",
            SolarTerm::EndOfHeat => "处暑",
            SolarTerm::WhiteDew => "白露",
            SolarTerm::AutumnEquinox => "秋分",
            SolarTerm::ColdDew => "寒露",
            SolarTerm::FrostsDescent => "霜降",
            SolarTerm::BeginningOfWinter => "立冬",
            SolarTerm::MinorSnow => "小雪",
            SolarTerm::MajorSnow => "大雪",
        }
    }

    /// The Sun ecliptic longitude at which the term fires, in nanodegrees.
    pub open spec fn degrees_spec(self) -> int {
        ((self.index_spec() + 18) % 24) * 15 * (NANO_DEG as int)
    }

    /// The Sun ecliptic longitude at which the term fires, in nanodegrees;
    /// the winter solstice fires at 270 degrees.
    pub fn degrees(&self) -> (r: i64)
        ensures
            r == self.degrees_spec(),
    {
        let i = self.index_exec();
        ((i as i64 + 18) % 24) * 15 * NANO_DEG
    }

    /// What `from_degree_range` returns: the term whose boundary is crossed
    /// between longitudes `a` and `b`, if any.
    pub open spec fn from_degree_range_spec(a: int, b: int) -> Option<SolarTerm> {
        if ceil_div(a, 15 * (NANO_DEG as int)) < ceil_div(b, 15 * (NANO_DEG as int)) {
            Some(SolarTerm::from_index_spec((ceil_div(a, 15 * (NANO_DEG as int)) - 18) % 24))
        } else {
            None
        }
    }

    /// The term whose boundary longitude is reached in the window from `a`
    /// to `b` nanodegrees, or `None` when the window reaches no multiple of
    /// 15 degrees. A boundary counts when the smallest multiple of 15
    /// degrees at or above `a` is below `b`. The start `a` may be negative,
    /// after a caller unwraps a jump past 360 degrees.
    pub fn from_degree_range(begin_nano: i64, end_nano: i64) -> (r: Option<SolarTerm>)
        requires
            -1_000_000_000_000 <= begin_nano <= 1_000_000_000_000,
            -1_000_000_000_000 <= end_nano <= 1_000_000_000_000,
        ensures
            r == SolarTerm::from_degree_range_spec(begin_nano as int, end_nano as int),
    {
        let c1 = ceil_div_nano(begin_nano, 15 * NANO_DEG);
        let c2 = ceil_div_nano(end_nano, 15 * NANO_DEG);
        if c1 < c2 {
            proof {
                lemma_div_shift_multiple(c1 - 18, 24, 100);
            }
            let idx = ((c1 - 18 + 2400) % 24) as usize;
            SolarTerm::from_repr(idx)
        } else {
            None
        }
    }
}

/// The 8 lunar phases, starting at the new moon and advancing by 45
/// degrees of Moon-minus-Sun ecliptic longitude.
///
/// Even-indexed phases (new moon, first quarter, full moon, last quarter)
/// are the cardinal phases; the others are the intermediate octants.
#[derive(Debug, Clone, Copy, PartialEq, Eq, Structural)]
pub enum LunarPhase {
    NewMoon,
    WaxingCrescent,
    FirstQuarter,
    WaxingGibbous,
    FullMoon,
    WaningGibbous,
    LastQuarter,
    WaningCrescent,
}

impl LunarPhase {
    /// 0-based position of the variant.
    pub open spec fn index_spec(self) -> int {
        match self {
            LunarPhase::NewMoon => 0,
            LunarPhase::WaxingCrescent => 1,
            LunarPhase::FirstQuarter => 2,
            LunarPhase::WaxingGibbous => 3,
            LunarPhase::FullMoon => 4,
            LunarPhase::WaningGibbous => 5,
            LunarPhase::LastQuarter => 6,
            LunarPhase::WaningCrescent => 7,
        }
    }

    /// The variant at a 0-based position in 0..8.
    pub open spec fn from_index_spec(i: int) -> LunarPhase {
        if i == 0 {
            LunarPhase::NewMoon
        } else if i == 1 {
            LunarPhase::WaxingCrescent
        } else if i == 2 {
            LunarPhase::FirstQuarter
        } else if i == 3 {
            LunarPhase::WaxingGibbous
        } else if i == 4 {
            LunarPhase::FullMoon
        } else if i == 5 {
            LunarPhase::WaningGibbous
        } else if i == 6 {
            LunarPhase::LastQuarter
        } else {
            LunarPhase::WaningCrescent
        }
    }

    /// The 0-based position of the variant.
    pub fn index_exec(&self) -> (r: u8)
        ensures
            r == self.index_spec(),
    {
        match self {
            LunarPhase::NewMoon => 0,
            LunarPhase::WaxingCrescent => 1,
            LunarPhase::FirstQuarter => 2,
            LunarPhase::WaxingGibbous => 3,
            LunarPhase::FullMoon => 4,
            LunarPhase::WaningGibbous => 5,
            LunarPhase::LastQuarter => 6,
            LunarPhase::WaningCrescent => 7,
        }
    }

    /// The variant at a 0-based position; `None` outside 0..8.
    pub fn from_repr(repr: usize) -> (r: Option<LunarPhase>)
        ensures
            r == if repr < 8 {
                Some(LunarPhase::from_index_spec(repr as int))
            } else {
                None::<LunarPhase>
            },
    {
        match repr {
            0 => Some(LunarPhase::NewMoon),
            1 => Some(LunarPhase::WaxingCrescent),
            2 => Some(LunarPhase::FirstQuarter),
            3 => Some(LunarPhase::WaxingGibbous),
            4 => Some(LunarPhase::FullMoon),
            5 => Some(LunarPhase::WaningGibbous),
            6 => Some(LunarPhase::LastQuarter),
            7 => Some(LunarPhase::WaningCrescent),
            _ => None,
        }
    }

    /// The 1-based ordinal of the variant.
    pub fn ord(&self) -> (r: u8)
        ensures
            r == self.index_spec() + 1,
    {
        match self {
            LunarPhase::NewMoon => 1,
            LunarPhase::WaxingCrescent => 2,
            LunarPhase::FirstQuarter => 3,
            LunarPhase::WaxingGibbous => 4,
            LunarPhase::FullMoon => 5,
            LunarPhase::WaningGibbous => 6,
            LunarPhase::LastQuarter => 7,
            LunarPhase::WaningCrescent => 8,
        }
    }

    /// The next variant, wrapping around at the end of the cycle.
    pub fn succ(&self) -> (r: LunarPhase)
        ensures
            r == LunarPhase::from_index_spec((self.index_spec() + 1) % 8),
    {
        let i = self.index_exec();
        let r = LunarPhase::from_repr((i as usize + 1) % 8);
        r.unwrap()
    }

    /// The previous variant, wrapping around at the start of the cycle.
    pub fn pred(&self) -> (r: LunarPhase)
        ensures
            r == LunarPhase::from_index_spec((self.index_spec() + 7) % 8),
    {
        let i = self.index_exec();
        let r = LunarPhase::from_repr((i as usize + 7) % 8);
        r.unwrap()
    }

    /// The Chinese name of the phase, as a sequence of characters.
    pub open spec fn chinese_spec(self) -> Seq<char> {
        match self {
            LunarPhase::NewMoon => "新月"@,
            LunarPhase::WaxingCrescent => "眉月"@,
            LunarPhase::FirstQuarter => "上弦月"@,
            LunarPhase::WaxingGibbous => "上凸月"@,
            LunarPhase::FullMoon => "满月"@,
            LunarPhase::WaningGibbous => "下凸月"@,
            LunarPhase::LastQuarter => "下弦月"@,
            LunarPhase::WaningCrescent => "残月"@,
        }
    }

    /// The Chinese name of the phase.
    pub fn chinese(&self) -> (r: &'static str)
        ensures
            r@ == self.chinese_spec(),
    {
        match self {
            LunarPhase::NewMoon => "新月",
            LunarPhase::WaxingCrescent => "眉月",
            LunarPhase::FirstQuarter => "上弦月",
            LunarPhase::WaxingGibbous => "上凸月",
            LunarPhase::FullMoon => "满月",
            LunarPhase::WaningGibbous => "下凸月",
            LunarPhase::LastQuarter => "下弦月",
            LunarPhase::WaningCrescent => "残月",
        }
    }

    /// The Unicode emoji of the phase, as a sequence of characters.
    pub open spec fn emoji_spec(self) -> Seq<char> {
        match self {
            LunarPhase::NewMoon => "🌑"@,
            LunarPhase::WaxingCrescent => "🌒"@,
            LunarPhase::FirstQuarter => "🌓"@,
            LunarPhase::WaxingGibbous => "🌔"@,
            LunarPhase::FullMoon => "🌕"@,
            LunarPhase::WaningGibbous => "🌖"@,
            LunarPhase::LastQuarter => "🌗"@,
            LunarPhase::WaningCrescent => "🌘"@,
        }
    }

    /// The Unicode emoji of the phase.
    pub fn emoji(&self) -> (r: &'static str)
        ensures
            r@ == self.emoji_spec(),
    {
        match self {
            LunarPhase::NewMoon => "🌑",
            LunarPhase::WaxingCrescent => "🌒",
            LunarPhase::FirstQuarter => "🌓",
            LunarPhase::WaxingGibbous => "🌔",
            LunarPhase::FullMoon => "🌕",
            LunarPhase::WaningGibbous => "🌖",
            LunarPhase::LastQuarter => "🌗",
            LunarPhase::WaningCrescent => "🌘",
        }
    }

    /// The Moon-minus-Sun longitude at which the phase begins, in
    /// nanodegrees.
    pub open spec fn degrees_spec(self) -> int {
        self.index_spec() * 45 * (NANO_DEG as int)
    }

    /// The Moon-minus-Sun longitude at which the phase begins, in
    /// nanodegrees; the full moon begins at 180 degrees.
    pub fn degrees(&self) -> (r: i64)
        ensures
            r == self.degrees_spec(),
    {
        let i = self.index_exec();
        (i as i64) * 45 * NANO_DEG
    }

    /// What `from_degree_range` returns: the cardinal phase whose boundary
    /// the window reaches, or else the intermediate phase of the octant
    /// holding the window.
    pub open spec fn from_degree_range_spec(a: int, b: int) -> LunarPhase {
        let c1 = ceil_div(a, 90 * (NANO_DEG as int));
        if c1 < ceil_div(b, 90 * (NANO_DEG as int)) {
            LunarPhase::from_index_spec((2 * c1) % 8)
        } else {
            LunarPhase::from_index_spec((2 * c1 - 1) % 8)
        }
    }

    /// The phase of a day whose Moon-minus-Sun longitude runs from `a` to
    /// `b` nanodegrees: the cardinal phase whose multiple of 90 degrees the
    /// window reaches, or else the intermediate phase of the octant the
    /// window lies in. Defined for every window.
    pub fn from_degree_range(begin_nano: i64, end_nano: i64) -> (r: LunarPhase)
        requires
            -1_000_000_000_000 <= begin_nano <= 1_000_000_000_000,
            -1_000_000_000_000 <= end_nano <= 1_000_000_000_000,
        ensures
            r == LunarPhase::from_degree_range_spec(begin_nano as int, end_nano as int),
    {
        let c1 = ceil_div_nano(begin_nano, 90 * NANO_DEG);
        let c2 = ceil_div_nano(end_nano, 90 * NANO_DEG);
        if c1 < c2 {
            proof {
                lemma_div_shift_multiple(2 * c1, 8, 100);
            }
            let idx = ((2 * c1 + 800) % 8) as usize;
            LunarPhase::from_repr(idx).unwrap()
        } else {
            proof {
                lemma_div_shift_multiple(2 * c1 - 1, 8, 100);
            }
            let idx = ((2 * c1 - 1 + 800) % 8) as usize;
            LunarPhase::from_repr(idx).unwrap()
        }
    }
}

/// Quotient of `a / d` rounded up, for the divisor range the degree
/// classification uses.
fn ceil_div_nano(a: i64, d: i64) -> (r: i64)
    requires
        -1_000_000_000_000 <= a <= 1_000_000_000_000,
        1_000_000_000 <= d <= 100_000_000_000,
    ensures
        r == ceil_div(a as int, d as int),
        -1_000_000_000_001 <= r <= 1_000_000_000_001,
{
    proof {
        lemma_ceil_as_floor(a as int, d as int);
        lemma_div_shift_multiple(a + d - 1, d as int, 1000);
        crate::num::lemma_ceil_div_bounds(a as int, d as int);
        let c = ceil_div(a as int, d as int);
        assert(-1_000_000_000_000 <= c <= 1_000_000_000_001) by (nonlinear_arith)
            requires
                d >= 1 && d * (c - 1) < a <= d * c && -1_000_000_000_000 <= a
                    <= 1_000_000_000_000,
        ;
    }
    let u: u64 = (a + d - 1 + d * 1000) as u64;
    (u / d as u64) as i64 - 1000
}


/// A table of per-day ephemeris samples: for each covered day, the Sun's
/// geocentric ecliptic longitude and the Moon-minus-Sun longitude at the
/// start (midnight) of that day in the caller's timezone, both in
/// nanodegrees within `[0, 360)` degrees.
///
/// The table is the calendar engine's only window on the sky: callers
/// sample an ephemeris of their choice and hand the values in as plain
/// integers. Entry `i` belongs to the day with Julian day number
/// `first_jdn + i`; classifying the events of a day needs the samples of
/// that day and of the next.
#[derive(Debug)]
pub struct Ephemeris {
    first_jdn: u32,
    sun: Vec<i64>,
    moon_sun: Vec<i64>,
}

impl Ephemeris {
    /// The first day number the table covers.
    pub closed spec fn first_spec(self) -> int {
        self.first_jdn as int
    }

    /// The number of covered days.
    pub closed spec fn len_spec(self) -> int {
        self.sun@.len() as int
    }

    /// The Sun longitude sample of day `jdn`, in nanodegrees.
    pub closed spec fn sun_spec(self, jdn: int) -> int {
        self.sun@[jdn - self.first_jdn] as int
    }

    /// The Moon-minus-Sun longitude sample of day `jdn`, in nanodegrees.
    pub closed spec fn moon_sun_spec(self, jdn: int) -> int {
        self.moon_sun@[jdn - self.first_jdn] as int
    }

    /// Well-formedness: the two sample columns have equal length, day
    /// numbers stay representable, and every sample is a normalized
    /// longitude.
    pub closed spec fn wf(self) -> bool {
        &&& self.moon_sun@.len() == self.sun@.len()
        &&& self.first_jdn + self.sun@.len() <= u32::MAX
        &&& forall|j: int|
            self.covers(j) ==> 0 <= #[trigger] self.sun_spec(j) < 360 * (NANO_DEG as int)
        &&& forall|j: int|
            self.covers(j) ==> 0 <= #[trigger] self.moon_sun_spec(j) < 360 * (NANO_DEG as int)
    }

    /// Whether the table has a sample for day `jdn`.
    pub open spec fn covers(self, jdn: int) -> bool {
        self.first_spec() <= jdn < self.first_spec() + self.len_spec()
    }

    /// Whether the table can classify the events of day `jdn`, which needs
    /// the samples of `jdn` and `jdn + 1`.
    pub open spec fn covers_day(self, jdn: int) -> bool {
        self.covers(jdn) && self.covers(jdn + 1)
    }

    /// Day numbers the table covers fit in the day-number type.
    pub proof fn lemma_table_bounds(self)
        ensures
            0 <= self.first_spec(),
            0 <= self.len_spec(),
            self.wf() ==> self.first_spec() + self.len_spec() <= u32::MAX,
    {
    }

    /// A well-formed table's samples are normalized longitudes.
    pub proof fn lemma_wf_ranges(self, jdn: int)
        requires
            self.wf(),
            self.covers(jdn),
        ensures
            0 <= self.sun_spec(jdn) < 360 * (NANO_DEG as int),
            0 <= self.moon_sun_spec(jdn) < 360 * (NANO_DEG as int),
    {
    }

    /// The solar term of day `jdn` under this table: the Sun longitude
    /// window from this midnight to the next, unwrapped at a jump past 360
    /// degrees, classified by `SolarTerm::from_degree_range`.
    pub open spec fn solar_term_spec(self, jdn: int) -> Option<SolarTerm> {
        let a0 = self.sun_spec(jdn);
        let b = self.sun_spec(jdn + 1);
        let a = if b < a0 {
            a0 - 360 * (NANO_DEG as int)
        } else {
            a0
        };
        SolarTerm::from_degree_range_spec(a, b)
    }

    /// The lunar phase of day `jdn` under this table, from the
    /// Moon-minus-Sun window of the day.
    pub open spec fn lunar_phase_spec(self, jdn: int) -> LunarPhase {
        let a0 = self.moon_sun_spec(jdn);
        let b = self.moon_sun_spec(jdn + 1);
        let a = if b < a0 {
            a0 - 360 * (NANO_DEG as int)
        } else {
            a0
        };
        LunarPhase::from_degree_range_spec(a, b)
    }

    /// Whether day `jdn` is a new-moon day under this table.
    pub open spec fn is_new_moon_day(self, jdn: int) -> bool {
        self.lunar_phase_spec(jdn) == LunarPhase::NewMoon
    }

    /// Whether day `jdn` holds a mid-term under this table.
    pub open spec fn is_mid_term_day(self, jdn: int) -> bool {
        match self.solar_term_spec(jdn) {
            Some(t) => t.is_mid_term_spec(),
            None => false,
        }
    }

    /// A table over the given samples: entry `i` of each column is the
    /// sample at the start of day `first_jdn + i`. `None` when the columns
    /// differ in length, the table would run past the largest day number,
    /// or a sample is not a normalized longitude in nanodegrees.
    pub fn new(first_jdn: u32, sun: Vec<i64>, moon_sun: Vec<i64>) -> (r: Option<Ephemeris>)
        ensures
            r matches Some(e) ==> {
                &&& e.wf()
                &&& e.first_spec() == first_jdn
                &&& e.len_spec() == sun@.len()
                &&& forall|i: int|
                    0 <= i < sun@.len() ==> #[trigger] e.sun_spec(first_jdn + i) == sun@[i]
                        && e.moon_sun_spec(first_jdn + i) == moon_sun@[i]
            },
            r is Some <==> {
                &&& sun@.len() == moon_sun@.len()
                &&& first_jdn + sun@.len() <= u32::MAX
                &&& forall|i: int|
                    0 <= i < sun@.len() ==> 0 <= #[trigger] sun@[i] < 360 * (NANO_DEG as int)
                &&& forall|i: int|
                    0 <= i < moon_sun@.len() ==> 0 <= #[trigger] moon_sun@[i] < 360 * (
                    NANO_DEG as int)
            },
    {
        if sun.len() != moon_sun.len() {
            return None;
        }
        if sun.len() > (u32::MAX - first_jdn) as usize {
            return None;
        }
        let mut i: usize = 0;
        while i < sun.len()
            invariant
                0 <= i <= sun@.len(),
                sun@.len() == moon_sun@.len(),
                forall|k: int| 0 <= k < i ==> 0 <= #[trigger] sun@[k] < 360 * (NANO_DEG as int),
                forall|k: int|
                    0 <= k < i ==> 0 <= #[trigger] moon_sun@[k] < 360 * (NANO_DEG as int),
            decreases sun@.len() - i,
        {
            let s = sun[i];
            let m = moon_sun[i];
            if s < 0 || s >= 360 * NANO_DEG || m < 0 || m >= 360 * NANO_DEG {
                return None;
            }
            i = i + 1;
        }
        Some(Ephemeris { first_jdn, sun, moon_sun })
    }

    /// The first day number the table covers.
    pub fn first_day(&self) -> (r: u32)
        ensures
            r == self.first_spec(),
    {
        self.first_jdn
    }

    /// The number of covered days.
    pub fn len(&self) -> (r: usize)
        ensures
            r == self.len_spec(),
    {
        self.sun.len()
    }

    /// Whether the table can classify the events of day `jdn`.
    pub fn covers_day_exec(&self, jdn: u32) -> (r: bool)
        requires
            self.wf(),
        ensures
            r == self.covers_day(jdn as int),
    {
        if self.first_jdn <= jdn && jdn < u32::MAX {
            let off = (jdn - self.first_jdn) as usize;
            off < self.sun.len() && off + 1 < self.sun.len()
        } else {
            false
        }
    }

    /// The Sun longitude sample of day `jdn`, in nanodegrees.
    pub fn sun_at(&self, jdn: u32) -> (r: i64)
        requires
            self.wf(),
            self.covers(jdn as int),
        ensures
            r == self.sun_spec(jdn as int),
            0 <= r < 360 * (NANO_DEG as int),
    {
        proof {
            self.lemma_wf_ranges(jdn as int);
        }
        self.sun[(jdn - self.first_jdn) as usize]
    }

    /// The Moon-minus-Sun longitude sample of day `jdn`, in nanodegrees.
    pub fn moon_sun_at(&self, jdn: u32) -> (r: i64)
        requires
            self.wf(),
            self.covers(jdn as int),
        ensures
            r == self.moon_sun_spec(jdn as int),
            0 <= r < 360 * (NANO_DEG as int),
    {
        proof {
            self.lemma_wf_ranges(jdn as int);
        }
        self.moon_sun[(jdn - self.first_jdn) as usize]
    }

    /// The solar term of day `jdn`, or `None` when the day holds no term
    /// boundary.
    pub fn solar_term_of(&self, jdn: u32) -> (r: Option<SolarTerm>)
        requires
            self.wf(),
            self.covers_day(jdn as int),
        ensures
            r == self.solar_term_spec(jdn as int),
    {
        let a0 = self.sun_at(jdn);
        let b = self.sun_at(jdn + 1);
        let a = if b < a0 {
            a0 - 360 * NANO_DEG
        } else {
            a0
        };
        SolarTerm::from_degree_range(a, b)
    }

    /// The lunar phase of day `jdn`; every covered day has one.
    pub fn lunar_phase_of(&self, jdn: u32) -> (r: LunarPhase)
        requires
            self.wf(),
            self.covers_day(jdn as int),
        ensures
            r == self.lunar_phase_spec(jdn as int),
    {
        let a0 = self.moon_sun_at(jdn);
        let b = self.moon_sun_at(jdn + 1);
        let a = if b < a0 {
            a0 - 360 * NANO_DEG
        } else {
            a0
        };
        LunarPhase::from_degree_range(a, b)
    }
}

} // verus!
