//! The Chinese lunisolar calendar: an astronomically driven month builder
//! (months run from new moon to new moon; the leap month is the first month
//! after the winter solstice without a mid-term), and the year/month/day
//! surface over it, including the sexagenary stem-branch cycle.
use vstd::prelude::*;

verus! {

use crate::astronomy::{Ephemeris, LunarPhase, SolarTerm};
use crate::date::Date;
use crate::gregorian::jdn_of_ymd;
use crate::num::lemma_div_shift_multiple;
use vstd::arithmetic::div_mod::lemma_fundamental_div_mod;

/// The 10 heavenly stems.
#[derive(Debug, Clone, Copy, PartialEq, Eq, Structural)]
pub enum Stem {
    Jia,
    Yi,
    Bing,
    Ding,
    Wu,
    Ji,
    Geng,
    Xin,
    Ren,
    Gui,
}

impl Stem {
    /// 0-based position of the variant.
    pub open spec fn index_spec(self) -> int {
        match self {
            Stem::Jia => 0,
            Stem::Yi => 1,
            Stem::Bing => 2,
            Stem::Ding => 3,
            Stem::Wu => 4,
            Stem::Ji => 5,
            Stem::Geng => 6,
            Stem::Xin => 7,
            Stem::Ren => 8,
            Stem::Gui => 9,
        }
    }

    /// The variant at a 0-based position in 0..10.
    pub open spec fn from_index_spec(i: int) -> Stem {
        if i == 0 {
            Stem::Jia
        } else if i == 1 {
            Stem::Yi
        } else if i == 2 {
            Stem::Bing
        } else if i == 3 {
            Stem::Ding
        } else if i == 4 {
            Stem::Wu
        } else if i == 5 {
            Stem::Ji
        } else if i == 6 {
            Stem::Geng
        } else if i == 7 {
            Stem::Xin
        } else if i == 8 {
            Stem::Ren
        } else {
            Stem::Gui
        }
    }

    /// The variant at a 0-based position; `None` outside 0..10.
    pub fn from_repr(repr: usize) -> (r: Option<Stem>)
        ensures
            r == if repr < 10 {
                Some(Stem::from_index_spec(repr as int))
            } else {
                None::<Stem>
            },
    {
        match repr {
            0 => Some(Stem::Jia),
            1 => Some(Stem::Yi),
            2 => Some(Stem::Bing),
            3 => Some(Stem::Ding),
            4 => Some(Stem::Wu),
            5 => Some(Stem::Ji),
            6 => Some(Stem::Geng),
            7 => Some(Stem::Xin),
            8 => Some(Stem::Ren),
            9 => Some(Stem::Gui),
            _ => None,
        }
    }

    /// The 1-based ordinal of the variant.
    pub fn ord(&self) -> (r: i8)
        ensures
            r == self.index_spec() + 1,
    {
        match self {
            Stem::Jia => 1,
            Stem::Yi => 2,
            Stem::Bing => 3,
            Stem::Ding => 4,
            Stem::Wu => 5,
            Stem::Ji => 6,
            Stem::Geng => 7,
            Stem::Xin => 8,
            Stem::Ren => 9,
            Stem::Gui => 10,
        }
    }

    /// The variant with the given 1-based ordinal; `None` outside 1..=10.
    pub fn from_ord(ord: i8) -> (r: Option<Stem>)
        ensures
            r == if 1 <= ord <= 10 {
                Some(Stem::from_index_spec(ord - 1))
            } else {
                None::<Stem>
            },
    {
        if ord >= 1 {
            Stem::from_repr((ord - 1) as usize)
        } else {
            None
        }
    }

    /// The stem of the Chinese civil year `year`: year 4 opens the cycle
    /// with Jia.
    pub fn from_year(year: i16) -> (r: Stem)
        ensures
            r == Stem::from_index_spec((year - 4) % 10),
    {
        proof {
            lemma_div_shift_multiple(year - 4, 10, 4000);
        }
        let i = ((year as i32 - 4 + 40000) % 10) as usize;
        Stem::from_repr(i).unwrap()
    }

    /// The Chinese name of the stem, as a sequence of characters.
    pub open spec fn chinese_spec(self) -> Seq<char> {
        match self {
            Stem::Jia => "甲"@,
            Stem::Yi => "乙"@,
            Stem::Bing => "丙"@,
            Stem::Ding => "丁"@,
            Stem::Wu => "戊"@,
            Stem::Ji => "己"@,
            Stem::Geng => "庚"@,
            Stem::Xin => "辛"@,
            Stem::Ren => "壬"@,
            Stem::Gui => "癸"@,
        }
    }

    /// The Chinese name of the stem.
    pub fn chinese(&self) -> (r: &'static str)
        ensures
            r@ == self.chinese_spec(),
    {
        match self {
            Stem::Jia => "甲",
            Stem::Yi => "乙",
            Stem::Bing => "丙",
            Stem::Ding => "丁",
            Stem::Wu => "戊",
            Stem::Ji => "己",
            Stem::Geng => "庚",
            Stem::Xin => "辛",
            Stem::Ren => "壬",
            Stem::Gui => "癸",
        }
    }
}

/// The 12 earthly branches.
#[derive(Debug, Clone, Copy, PartialEq, Eq, Structural)]
pub enum Branch {
    Zi,
    Chou,
    Yin,
    Mao,
    Chen,
    Si,
    Wu,
    Wei,
    Shen,
    You,
    Xu,
    Hai,
}

impl Branch {
    /// 0-based position of the variant.
    pub open spec fn index_spec(self) -> int {
        match self {
            Branch::Zi => 0,
            Branch::Chou => 1,
            Branch::Yin => 2,
            Branch::Mao => 3,
            Branch::Chen => 4,
            Branch::Si => 5,
            Branch::Wu => 6,
            Branch::Wei => 7,
            Branch::Shen => 8,
            Branch::You => 9,
            Branch::Xu => 10,
            Branch::Hai => 11,
        }
    }

    /// The variant at a 0-based position in 0..12.
    pub open spec fn from_index_spec(i: int) -> Branch {
        if i == 0 {
            Branch::Zi
        } else if i == 1 {
            Branch::Chou
        } else if i == 2 {
            Branch::Yin
        } else if i == 3 {
            Branch::Mao
        } else if i == 4 {
            Branch::Chen
        } else if i == 5 {
            Branch::Si
        } else if i == 6 {
            Branch::Wu
        } else if i == 7 {
            Branch::Wei
        } else if i == 8 {
            Branch::Shen
        } else if i == 9 {
            Branch::You
        } else if i == 10 {
            Branch::Xu
        } else {
            Branch::Hai
        }
    }

    /// The variant at a 0-based position; `None` outside 0..12.
    pub fn from_repr(repr: usize) -> (r: Option<Branch>)
        ensures
            r == if repr < 12 {
                Some(Branch::from_index_spec(repr as int))
            } else {
                None::<Branch>
            },
    {
        match repr {
            0 => Some(Branch::Zi),
            1 => Some(Branch::Chou),
            2 => Some(Branch::Yin),
            3 => Some(Branch::Mao),
            4 => Some(Branch::Chen),
            5 => Some(Branch::Si),
            6 => Some(Branch::Wu),
            7 => Some(Branch::Wei),
            8 => Some(Branch::Shen),
            9 => Some(Branch::You),
            10 => Some(Branch::Xu),
            11 => Some(Branch::Hai),
            _ => None,
        }
    }

    /// The 1-based ordinal of the variant.
    pub fn ord(&self) -> (r: i8)
        ensures
            r == self.index_spec() + 1,
    {
        match self {
            Branch::Zi => 1,
            Branch::Chou => 2,
            Branch::Yin => 3,
            Branch::Mao => 4,
            Branch::Chen => 5,
            Branch::Si => 6,
            Branch::Wu => 7,
            Branch::Wei => 8,
            Branch::Shen => 9,
            Branch::You => 10,
            Branch::Xu => 11,
            Branch::Hai => 12,
        }
    }

    /// The variant with the given 1-based ordinal; `None` outside 1..=12.
    pub fn from_ord(ord: i8) -> (r: Option<Branch>)
        ensures
            r == if 1 <= ord <= 12 {
                Some(Branch::from_index_spec(ord - 1))
            } else {
                None::<Branch>
            },
    {
        if ord >= 1 {
            Branch::from_repr((ord - 1) as usize)
        } else {
            None
        }
    }

    /// The branch of the Chinese civil year `year`: year 4 opens the cycle
    /// with Zi.
    pub fn from_year(year: i16) -> (r: Branch)
        ensures
            r == Branch::from_index_spec((year - 4) % 12),
    {
        proof {
            lemma_div_shift_multiple(year - 4, 12, 3333);
        }
        let i = ((year as i32 - 4 + 39996) % 12) as usize;
        Branch::from_repr(i).unwrap()
    }

    /// The Chinese name of the branch, as a sequence of characters.
    pub open spec fn chinese_spec(self) -> Seq<char> {
        match self {
            Branch::Zi => "子"@,
            Branch::Chou => "丑"@,
            Branch::Yin => "寅"@,
            Branch::Mao => "卯"@,
            Branch::Chen => "辰"@,
            Branch::Si => "巳"@,
            Branch::Wu => "午"@,
            Branch::Wei => "未"@,
            Branch::Shen => "申"@,
            Branch::You => "酉"@,
            Branch::Xu => "戌"@,
            Branch::Hai => "亥"@,
        }
    }

    /// The Chinese name of the branch.
    pub fn chinese(&self) -> (r: &'static str)
        ensures
            r@ == self.chinese_spec(),
    {
        match self {
            Branch::Zi => "子",
            Branch::Chou => "丑",
            Branch::Yin => "寅",
            Branch::Mao => "卯",
            Branch::Chen => "辰",
            Branch::Si => "巳",
            Branch::Wu => "午",
            Branch::Wei => "未",
            Branch::Shen => "申",
            Branch::You => "酉",
            Branch::Xu => "戌",
            Branch::Hai => "亥",
        }
    }
}

/// A stem-branch pair of the sexagenary cycle.
///
/// The 60 valid pairs are those whose stem and branch ordinals agree in
/// parity; they are numbered 1..=60 with (Jia, Zi) = 1.
#[derive(Debug, Clone, Copy, PartialEq, Eq, Structural)]
pub struct StemBranch {
    stem: Stem,
    branch: Branch,
}

impl StemBranch {
    /// The pair of the given stem and branch, without the parity check;
    /// `from_stem_branch` is the checked constructor.
    pub fn new(stem: Stem, branch: Branch) -> (r: StemBranch)
        ensures
            r.stem_spec() == stem,
            r.branch_spec() == branch,
    {
        StemBranch { stem, branch }
    }

    /// The stem of the pair.
    pub closed spec fn stem_spec(self) -> Stem {
        self.stem
    }

    /// The branch of the pair.
    pub closed spec fn branch_spec(self) -> Branch {
        self.branch
    }

    /// The stem of the pair.
    pub fn stem(&self) -> (r: Stem)
        ensures
            r == self.stem_spec(),
    {
        self.stem
    }

    /// The branch of the pair.
    pub fn branch(&self) -> (r: Branch)
        ensures
            r == self.branch_spec(),
    {
        self.branch
    }

    /// The 1-based ordinal of the pair in the sexagenary cycle.
    pub open spec fn ord_spec(self) -> int {
        (self.stem_spec().index_spec() * 6 - self.branch_spec().index_spec() * 5) % 60 + 1
    }

    /// The pair at the given 0-based position of the cycle: the stem cycles
    /// with period 10 and the branch with period 12.
    pub fn new_with_repr(repr: usize) -> (r: StemBranch)
        requires
            repr <= usize::MAX - 60,
        ensures
            r.stem_spec() == Stem::from_index_spec(repr as int % 10),
            r.branch_spec() == Branch::from_index_spec(repr as int % 12),
    {
        let s = repr % 10;
        let b = repr % 12;
        StemBranch { stem: Stem::from_repr(s).unwrap(), branch: Branch::from_repr(b).unwrap() }
    }

    /// The 1-based ordinal of the pair, by the closed form
    /// `(stem * 6 - branch * 5) mod 60 + 1` over 0-based positions.
    pub fn ord(&self) -> (r: usize)
        ensures
            r == self.ord_spec(),
            1 <= r <= 60,
    {
        let m = self.stem.ord() as i32 - 1;
        let n = self.branch.ord() as i32 - 1;
        proof {
            lemma_div_shift_multiple(m * 6 - n * 5, 60, 1);
        }
        ((m * 6 - n * 5 + 60) % 60) as usize + 1
    }

    /// The pair with the given 1-based ordinal; `None` outside 1..=60.
    pub fn from_ord(ord: usize) -> (r: Option<StemBranch>)
        ensures
            r matches Some(sb) ==> sb.stem_spec() == Stem::from_index_spec((ord - 1) % 10)
                && sb.branch_spec() == Branch::from_index_spec((ord - 1) % 12),
            r is Some <==> 1 <= ord <= 60,
    {
        if ord < 1 || ord > 60 {
            return None;
        }
        Some(Self::new_with_repr(ord - 1))
    }

    /// The pair of the given stem and branch; `None` when their ordinals
    /// differ in parity (such pairs never occur in the cycle).
    pub fn from_stem_branch(stem: Stem, branch: Branch) -> (r: Option<StemBranch>)
        ensures
            r matches Some(sb) ==> sb.stem_spec() == stem && sb.branch_spec() == branch,
            r is Some <==> (stem.index_spec() + 1) % 2 == (branch.index_spec() + 1) % 2,
    {
        if stem.ord() % 2 != branch.ord() % 2 {
            return None;
        }
        Some(Self::new(stem, branch))
    }

    /// The pair of the Chinese civil year `year`.
    pub fn from_year(year: i16) -> (r: StemBranch)
        ensures
            r.stem_spec() == Stem::from_index_spec((year - 4) % 10),
            r.branch_spec() == Branch::from_index_spec((year - 4) % 12),
    {
        Self::new(Stem::from_year(year), Branch::from_year(year))
    }
}

/// The ordinal of the pair at cycle position `repr` is `repr % 60 + 1`: the
/// closed form `(stem * 6 - branch * 5) mod 60` inverts the pair of residues
/// `(repr mod 10, repr mod 12)`.
pub proof fn lemma_stem_branch_repr(sb: StemBranch, repr: int)
    requires
        0 <= repr,
        sb.stem_spec() == Stem::from_index_spec(repr % 10),
        sb.branch_spec() == Branch::from_index_spec(repr % 12),
    ensures
        sb.ord_spec() == repr % 60 + 1,
{
    let s = repr % 10;
    let b = repr % 12;
    lemma_fundamental_div_mod(repr, 10);
    lemma_fundamental_div_mod(repr, 12);
    let q10 = repr / 10;
    let q12 = repr / 12;
    assert(s * 6 - b * 5 == repr + 60 * (q12 - q10)) by (nonlinear_arith)
        requires
            repr == 10 * q10 + s && repr == 12 * q12 + b,
    ;
    lemma_div_shift_multiple(repr, 60, q12 - q10);
    assert(Stem::from_index_spec(s).index_spec() == s && Branch::from_index_spec(b).index_spec()
        == b);
}


/// The first day at or after `d` that the table classifies as holding the
/// solar term `term`; `None` when the search leaves the covered days first.
pub open spec fn find_term_day(eph: Ephemeris, d: int, term: SolarTerm) -> Option<int>
    decreases eph.first_spec() + eph.len_spec() - d,
{
    if !eph.covers_day(d) {
        None
    } else if eph.solar_term_spec(d) == Some(term) {
        Some(d)
    } else {
        find_term_day(eph, d + 1, term)
    }
}

/// The last new-moon day at or before `d`; `None` when the search leaves
/// the covered days first.
pub open spec fn find_new_moon_back(eph: Ephemeris, d: int) -> Option<int>
    decreases d - eph.first_spec(),
{
    if !eph.covers_day(d) {
        None
    } else if eph.is_new_moon_day(d) {
        Some(d)
    } else if d <= eph.first_spec() {
        None
    } else {
        find_new_moon_back(eph, d - 1)
    }
}

/// What a found term day satisfies: it is the first match at or after the
/// start, and every day walked over is covered.
pub proof fn lemma_find_term_day_props(eph: Ephemeris, d: int, term: SolarTerm)
    ensures
        find_term_day(eph, d, term) matches Some(r) ==> {
            &&& d <= r
            &&& eph.covers_day(r)
            &&& eph.solar_term_spec(r) == Some(term)
            &&& forall|j: int|
                d <= j < r ==> eph.covers_day(j) && eph.solar_term_spec(j) != Some(term)
        },
    decreases eph.first_spec() + eph.len_spec() - d,
{
    if eph.covers_day(d) && eph.solar_term_spec(d) != Some(term) {
        lemma_find_term_day_props(eph, d + 1, term);
    }
}

/// What a found new-moon day satisfies: it is the last new moon at or
/// before the start, and it is covered.
pub proof fn lemma_find_new_moon_back_props(eph: Ephemeris, d: int)
    ensures
        find_new_moon_back(eph, d) matches Some(r) ==> {
            &&& r <= d
            &&& eph.covers_day(r)
            &&& eph.is_new_moon_day(r)
            &&& forall|j: int| r < j <= d ==> !eph.is_new_moon_day(j)
        },
    decreases d - eph.first_spec(),
{
    if eph.covers_day(d) && !eph.is_new_moon_day(d) && d > eph.first_spec() {
        lemma_find_new_moon_back_props(eph, d - 1);
    }
}

/// The new-moon days in `[a, b)`, in ascending order.
pub open spec fn new_moons_between(eph: Ephemeris, a: int, b: int) -> Seq<int>
    decreases b - a,
{
    if a >= b {
        Seq::empty()
    } else if eph.is_new_moon_day(a) {
        seq![a] + new_moons_between(eph, a + 1, b)
    } else {
        new_moons_between(eph, a + 1, b)
    }
}

/// The new moons of `[a, c)` are those of `[a, b)` followed by those of
/// `[b, c)`.
pub proof fn lemma_new_moons_split(eph: Ephemeris, a: int, b: int, c: int)
    requires
        a <= b <= c,
    ensures
        new_moons_between(eph, a, c) == new_moons_between(eph, a, b) + new_moons_between(
            eph,
            b,
            c,
        ),
    decreases b - a,
{
    if a >= b {
        assert(new_moons_between(eph, a, b) =~= Seq::<int>::empty());
        assert(new_moons_between(eph, a, c) =~= new_moons_between(eph, a, b)
            + new_moons_between(eph, b, c));
    } else {
        lemma_new_moons_split(eph, a + 1, b, c);
        assert(new_moons_between(eph, a, c) =~= new_moons_between(eph, a, b)
            + new_moons_between(eph, b, c));
    }
}

/// Every listed day is a new moon within the window, and the listing is
/// strictly ascending.
pub proof fn lemma_new_moons_props(eph: Ephemeris, a: int, b: int)
    ensures
        forall|i: int|
            0 <= i < new_moons_between(eph, a, b).len() ==> {
                &&& a <= #[trigger] new_moons_between(eph, a, b)[i] < b
                &&& eph.is_new_moon_day(new_moons_between(eph, a, b)[i])
            },
        forall|i: int|
            0 <= i < new_moons_between(eph, a, b).len() - 1 ==> #[trigger] new_moons_between(
                eph,
                a,
                b,
            )[i] < new_moons_between(eph, a, b)[i + 1],
    decreases b - a,
{
    if a < b {
        lemma_new_moons_props(eph, a + 1, b);
        let s = new_moons_between(eph, a, b);
        let s2 = new_moons_between(eph, a + 1, b);
        if eph.is_new_moon_day(a) {
            assert(s == seq![a] + s2);
            assert forall|i: int| 0 <= i < s.len() implies {
                &&& a <= #[trigger] s[i] < b
                &&& eph.is_new_moon_day(s[i])
            } by {
                if i > 0 {
                    assert(s[i] == s2[i - 1]);
                }
            }
            assert forall|i: int| 0 <= i < s.len() - 1 implies #[trigger] s[i] < s[i + 1] by {
                if i == 0 {
                    assert(s[1] == s2[0]);
                } else {
                    assert(s[i] == s2[i - 1] && s[i + 1] == s2[i]);
                }
            }
        } else {
            assert(s == s2);
        }
    }
}

/// Whether some day of `[lo, hi)` holds a mid-term.
pub open spec fn month_has_mid_term(eph: Ephemeris, lo: int, hi: int) -> bool {
    exists|j: int| lo <= j < hi && #[trigger] eph.is_mid_term_day(j)
}

/// The first index at or after `i` whose flag is false.
pub open spec fn first_false_from(s: Seq<bool>, i: int) -> Option<int>
    decreases s.len() - i,
{
    if i < 0 || i >= s.len() {
        None
    } else if !s[i] {
        Some(i)
    } else {
        first_false_from(s, i + 1)
    }
}

/// A found index is in range, its flag is false, and all earlier flags from
/// the start are true.
pub proof fn lemma_first_false_from_props(s: Seq<bool>, i: int)
    ensures
        first_false_from(s, i) matches Some(r) ==> i <= r < s.len() && !s[r] && forall|k: int|
            i <= k < r ==> s[k],
    decreases s.len() - i,
{
    if 0 <= i < s.len() && s[i] {
        lemma_first_false_from_props(s, i + 1);
    }
}

/// The sweep window of the solstice-to-solstice period before the Chinese
/// civil year `year`: from the last new moon at or before the winter
/// solstice of `year - 1` up to but excluding the day after the winter
/// solstice of `year`.
pub open spec fn period_window(eph: Ephemeris, year: int) -> Option<(int, int)> {
    match find_term_day(eph, jdn_of_ymd(year - 1, 12, 21), SolarTerm::WinterSolstice) {
        None => None,
        Some(ws_prev) => match find_new_moon_back(eph, ws_prev) {
            None => None,
            Some(nm0) => match find_term_day(
                eph,
                jdn_of_ymd(year, 12, 21),
                SolarTerm::WinterSolstice,
            ) {
                None => None,
                Some(ws) => Some((nm0, ws + 1)),
            },
        },
    }
}

/// The new moons of the period's window.
pub open spec fn period_nms(eph: Ephemeris, year: int) -> Seq<int> {
    match period_window(eph, year) {
        Some(w) => new_moons_between(eph, w.0, w.1),
        None => Seq::empty(),
    }
}

/// The number of whole months the period holds.
pub open spec fn period_month_count(eph: Ephemeris, year: int) -> int {
    period_nms(eph, year).len() - 1
}

/// The month lengths of the period: the gaps between consecutive new moons.
pub open spec fn period_lengths(eph: Ephemeris, year: int) -> Seq<int> {
    let nms = period_nms(eph, year);
    if nms.len() == 0 {
        Seq::empty()
    } else {
        Seq::new((nms.len() - 1) as nat, |i: int| nms[i + 1] - nms[i])
    }
}

/// For each month of the period, whether it holds a mid-term.
pub open spec fn period_flags(eph: Ephemeris, year: int) -> Seq<bool> {
    let nms = period_nms(eph, year);
    if nms.len() == 0 {
        Seq::empty()
    } else {
        Seq::new((nms.len() - 1) as nat, |i: int| month_has_mid_term(eph, nms[i], nms[i + 1]))
    }
}

/// The period's leap month: in a 13-month period, the first month without a
/// mid-term.
pub open spec fn period_leap(eph: Ephemeris, year: int) -> Option<int> {
    if period_month_count(eph, year) > 12 {
        first_false_from(period_flags(eph, year), 0)
    } else {
        None
    }
}

/// Whether the table yields a sound period for `year`: the searches
/// succeed, the period has 12 or 13 months, every month is 29 or 30 days
/// long, and a 13-month period has a month without a mid-term.
pub open spec fn period_ok(eph: Ephemeris, year: int) -> bool {
    &&& period_window(eph, year) is Some
    &&& (period_month_count(eph, year) == 12 || period_month_count(eph, year) == 13)
    &&& forall|i: int|
        0 <= i < period_lengths(eph, year).len() ==> 29 <= #[trigger] period_lengths(
            eph,
            year,
        )[i] <= 30
    &&& (period_month_count(eph, year) == 13 ==> first_false_from(
        period_flags(eph, year),
        0,
    ) is Some)
}

/// The first day at or after the Gregorian day (`year`, 12, 21) that the
/// table classifies as the winter solstice.
pub fn get_winter_solstice(eph: &Ephemeris, year: i16) -> (r: Option<Date>)
    requires
        eph.wf(),
    ensures
        r matches Some(d) ==> Some(d@) == find_term_day(
            *eph,
            jdn_of_ymd(year as int, 12, 21),
            SolarTerm::WinterSolstice,
        ),
        r is Some <==> find_term_day(
            *eph,
            jdn_of_ymd(year as int, 12, 21),
            SolarTerm::WinterSolstice,
        ) is Some,
{
    let start = crate::gregorian::gregorian_to_jdn(year as i32, 12, 21);
    if start < 0 || start > u32::MAX as i64 {
        proof {
            eph.lemma_table_bounds();
            assert(find_term_day(*eph, start as int, SolarTerm::WinterSolstice) is None);
        }
        return None;
    }
    let mut d: u32 = start as u32;
    loop
        invariant
            eph.wf(),
            start == jdn_of_ymd(year as int, 12, 21),
            start <= d,
            find_term_day(*eph, start as int, SolarTerm::WinterSolstice) == find_term_day(
                *eph,
                d as int,
                SolarTerm::WinterSolstice,
            ),
        decreases eph.first_spec() + eph.len_spec() - d,
    {
        if !eph.covers_day_exec(d) {
            proof {
                assert(find_term_day(*eph, d as int, SolarTerm::WinterSolstice) is None);
            }
            return None;
        }
        proof {
            eph.lemma_table_bounds();
        }
        match eph.solar_term_of(d) {
            Some(t) => {
                if t == SolarTerm::WinterSolstice {
                    return Some(Date::from_jdn(d));
                }
            },
            None => {},
        }
        d = d + 1;
    }
}

/// The last new-moon day at or before `date`.
pub fn get_prev_new_moon(eph: &Ephemeris, date: Date) -> (r: Option<Date>)
    requires
        eph.wf(),
    ensures
        r matches Some(d) ==> Some(d@) == find_new_moon_back(*eph, date@),
        r is Some <==> find_new_moon_back(*eph, date@) is Some,
{
    let mut d: u32 = date.jdn();
    loop
        invariant
            eph.wf(),
            d <= date@,
            find_new_moon_back(*eph, date@) == find_new_moon_back(*eph, d as int),
        decreases d - eph.first_spec(),
    {
        if !eph.covers_day_exec(d) {
            proof {
                assert(find_new_moon_back(*eph, d as int) is None);
            }
            return None;
        }
        proof {
            eph.lemma_table_bounds();
        }
        if eph.lunar_phase_of(d) == LunarPhase::NewMoon {
            return Some(Date::from_jdn(d));
        }
        if d <= eph.first_day() {
            return None;
        }
        d = d - 1;
    }
}

/// The first index of the vector whose flag is false.
fn first_false(v: &Vec<bool>) -> (r: Option<usize>)
    ensures
        r matches Some(i) ==> Some(i as int) == first_false_from(v@, 0) && i < v@.len(),
        r is Some <==> first_false_from(v@, 0) is Some,
{
    let mut i: usize = 0;
    while i < v.len()
        invariant
            0 <= i <= v@.len(),
            first_false_from(v@, 0) == first_false_from(v@, i as int),
        decreases v@.len() - i,
    {
        if !v[i] {
            return Some(i);
        }
        i = i + 1;
    }
    None
}

/// The solstice-to-solstice period before the Chinese civil year `year`:
/// the new moon the period opens with, the lengths of its months (the gaps
/// between consecutive new moons), and, for a 13-month period, the index of
/// the first month without a mid-term. `None` when a search leaves the
/// table's covered days, the period has neither 12 nor 13 months, a month
/// is not 29 or 30 days long, or a 13-month period has no month without a
/// mid-term.
///
/// A month may hold two mid-terms (the real sky does this: the lunar month
/// ending at the winter solstice of 2033 holds both), leaving a second
/// month of the period without one; the classical rule stands and the
/// *first* month without a mid-term is the leap month, as the reference
/// calendars also decide. The builder therefore does not reject such
/// periods.
pub fn calc_chinese_year_period_data(eph: &Ephemeris, year: i16) -> (r: Option<
    (Date, Vec<u8>, Option<usize>),
>)
    requires
        eph.wf(),
        year > i16::MIN,
    ensures
        r matches Some(p) ==> {
            &&& period_ok(*eph, year as int)
            &&& p.0@ == period_nms(*eph, year as int)[0]
            &&& p.1@.len() == period_lengths(*eph, year as int).len()
            &&& forall|i: int|
                0 <= i < p.1@.len() ==> p.1@[i] == period_lengths(*eph, year as int)[i]
            &&& (p.2 is Some <==> period_leap(*eph, year as int) is Some)
            &&& (p.2 matches Some(l) ==> Some(l as int) == period_leap(*eph, year as int) && l
                < p.1@.len())
        },
        r is Some <==> period_ok(*eph, year as int),
{
    let ws_prev = match get_winter_solstice(eph, year - 1) {
        Some(x) => x,
        None => {
            return None;
        },
    };
    let nm0d = match get_prev_new_moon(eph, ws_prev) {
        Some(x) => x,
        None => {
            return None;
        },
    };
    let ws = match get_winter_solstice(eph, year) {
        Some(x) => x,
        None => {
            return None;
        },
    };
    proof {
        eph.lemma_table_bounds();
        lemma_find_term_day_props(
            *eph,
            jdn_of_ymd(year as int - 1, 12, 21),
            SolarTerm::WinterSolstice,
        );
        lemma_find_term_day_props(*eph, jdn_of_ymd(year as int, 12, 21), SolarTerm::WinterSolstice);
        lemma_find_new_moon_back_props(*eph, ws_prev@);
    }
    let nm0 = nm0d.jdn();
    let end = ws.jdn() + 1;
    assert(period_window(*eph, year as int) == Some((nm0 as int, end as int)));
    if nm0 >= end {
        proof {
            assert(new_moons_between(*eph, nm0 as int, end as int) =~= Seq::<int>::empty());
        }
        return None;
    }
    let mut lens: Vec<u8> = Vec::new();
    let mut flags: Vec<bool> = Vec::new();
    let mut last_nm: u32 = nm0;
    let mut has_mt: bool = match eph.solar_term_of(nm0) {
        Some(t) => t.is_mid_term(),
        None => false,
    };
    let mut d: u32 = nm0 + 1;
    proof {
        assert(new_moons_between(*eph, nm0 as int + 1, nm0 as int + 1) =~= Seq::<int>::empty());
        assert(new_moons_between(*eph, nm0 as int, nm0 as int + 1) =~= seq![nm0 as int]);
        assert(has_mt == month_has_mid_term(*eph, nm0 as int, nm0 as int + 1)) by {
            if eph.is_mid_term_day(nm0 as int) {
                assert(month_has_mid_term(*eph, nm0 as int, nm0 as int + 1));
            }
        }
    }
    while d < end
        invariant
            eph.wf(),
            period_window(*eph, year as int) == Some((nm0 as int, end as int)),
            eph.covers(nm0 as int),
            eph.covers(end as int),
            eph.is_new_moon_day(nm0 as int),
            nm0 <= last_nm < d <= end,
            ({
                let s = new_moons_between(*eph, nm0 as int, d as int);
                &&& s.len() == lens@.len() + 1
                &&& s[0] == nm0 as int
                &&& s[s.len() - 1] == last_nm as int
                &&& flags@.len() == lens@.len()
                &&& forall|i: int|
                    0 <= i < lens@.len() ==> #[trigger] lens@[i] as int == s[i + 1] - s[i] && 29
                        <= lens@[i] <= 30
                &&& forall|i: int|
                    0 <= i < flags@.len() ==> #[trigger] flags@[i] == month_has_mid_term(
                        *eph,
                        s[i],
                        s[i + 1],
                    )
            }),
            has_mt == month_has_mid_term(*eph, last_nm as int, d as int),
        decreases end - d,
    {
        proof {
            eph.lemma_table_bounds();
            lemma_new_moons_split(*eph, nm0 as int, d as int, d as int + 1);
        }
        let ghost s_old = new_moons_between(*eph, nm0 as int, d as int);
        let lp = eph.lunar_phase_of(d);
        let st_mid: bool = match eph.solar_term_of(d) {
            Some(t) => t.is_mid_term(),
            None => false,
        };
        if lp == LunarPhase::NewMoon {
            proof {
                assert(new_moons_between(*eph, d as int + 1, d as int + 1)
                    =~= Seq::<int>::empty());
                assert(new_moons_between(*eph, d as int, d as int + 1) =~= seq![d as int]);
            }
            let nd = d - last_nm;
            if nd < 29 || nd > 30 {
                proof {
                    lemma_new_moons_split(*eph, nm0 as int, d as int, end as int);
                    let s_rest = new_moons_between(*eph, d as int, end as int);
                    assert(s_rest.len() >= 1 && s_rest[0] == d as int);
                    let s_full = new_moons_between(*eph, nm0 as int, end as int);
                    let k = lens@.len() as int;
                    assert(s_full.len() == s_old.len() + s_rest.len());
                    assert(s_full[k] == last_nm as int && s_full[k + 1] == d as int);
                    assert(period_nms(*eph, year as int) == s_full);
                    assert(period_lengths(*eph, year as int)[k] == d - last_nm);
                    assert(!period_ok(*eph, year as int));
                }
                return None;
            }
            lens.push(nd as u8);
            flags.push(has_mt);
            last_nm = d;
            has_mt = false;
        }
        if st_mid {
            has_mt = true;
        }
        proof {
            let s_new = new_moons_between(*eph, nm0 as int, d as int + 1);
            assert(new_moons_between(*eph, d as int + 1, d as int + 1) =~= Seq::<int>::empty());
            if eph.is_new_moon_day(d as int) {
                assert(new_moons_between(*eph, d as int, d as int + 1) =~= seq![d as int]);
                assert(s_new =~= s_old + seq![d as int]);
            } else {
                assert(new_moons_between(*eph, d as int, d as int + 1) =~= Seq::<int>::empty());
                assert(s_new =~= s_old);
            }
            assert(has_mt == month_has_mid_term(*eph, last_nm as int, d as int + 1)) by {
                if has_mt {
                    if st_mid {
                        assert(eph.is_mid_term_day(d as int));
                        assert(month_has_mid_term(*eph, last_nm as int, d as int + 1));
                    } else {
                        let j = choose|j: int|
                            last_nm as int <= j < d as int && #[trigger] eph.is_mid_term_day(j);
                        assert(month_has_mid_term(*eph, last_nm as int, d as int + 1));
                    }
                } else {
                    if month_has_mid_term(*eph, last_nm as int, d as int + 1) {
                        let j = choose|j: int|
                            last_nm as int <= j < d as int + 1 && #[trigger] eph.is_mid_term_day(
                                j,
                            );
                        assert(j == d as int || month_has_mid_term(*eph, last_nm as int, d as int));
                        assert(false);
                    }
                }
            }
        }
        d = d + 1;
    }
    let n = lens.len();
    proof {
        assert(d == end);
        let sf = new_moons_between(*eph, nm0 as int, end as int);
        assert(sf.len() == lens@.len() + 1);
        assert(period_nms(*eph, year as int) == sf);
        assert(period_lengths(*eph, year as int).len() == lens@.len());
        assert(period_flags(*eph, year as int).len() == flags@.len());
        assert forall|i: int|
            0 <= i < lens@.len() implies lens@[i] as int == period_lengths(*eph, year as int)[i]
            && 29 <= period_lengths(*eph, year as int)[i] <= 30 by {
            assert(lens@[i] as int == sf[i + 1] - sf[i]);
        }
        assert forall|i: int|
            0 <= i < flags@.len() implies flags@[i] == period_flags(*eph, year as int)[i] by {
            assert(flags@[i] == month_has_mid_term(*eph, sf[i], sf[i + 1]));
        }
        assert(flags@ =~= period_flags(*eph, year as int));
        assert forall|i: int|
            0 <= i < period_lengths(*eph, year as int).len() implies 29 <= #[trigger] period_lengths(
            *eph,
            year as int,
        )[i] <= 30 by {
            assert(lens@[i] as int == period_lengths(*eph, year as int)[i]);
        }
    }
    if n != 12 && n != 13 {
        return None;
    }
    let leap: Option<usize> = if n > 12 {
        match first_false(&flags) {
            Some(i) => Some(i),
            None => {
                return None;
            },
        }
    } else {
        None
    };
    Some((nm0d, lens, leap))
}


/// How many opening months of a period precede the Chinese civil year: 3
/// when the period's leap month falls in the first three slots (it then
/// belongs to the previous civil year), else 2.
pub open spec fn off_of_leap(leap: Option<int>) -> int {
    match leap {
        Some(l) => if l <= 2 {
            3
        } else {
            2
        },
        None => 2,
    }
}

/// The leap-month slot the second period contributes to the civil year.
pub open spec fn year_leap_slot_second(eph: Ephemeris, year: int) -> int {
    match period_leap(eph, year + 1) {
        Some(l) => if l <= 2 {
            l + 10
        } else {
            13
        },
        None => 13,
    }
}

/// The 0-based slot of the civil year's leap month among its months, or 13
/// when the year has no leap month.
pub open spec fn year_leap_slot(eph: Ephemeris, year: int) -> int {
    match period_leap(eph, year) {
        Some(l) => if l > 2 {
            l - 2
        } else {
            year_leap_slot_second(eph, year)
        },
        None => year_leap_slot_second(eph, year),
    }
}

/// The month lengths of the Chinese civil year `year`: the tail of its
/// first period after the opening offset, followed by the head of the next
/// period up to its offset.
pub open spec fn year_lengths_raw(eph: Ephemeris, year: int) -> Seq<int> {
    let p1 = period_lengths(eph, year);
    let p2 = period_lengths(eph, year + 1);
    p1.subrange(off_of_leap(period_leap(eph, year)), p1.len() as int) + p2.subrange(
        0,
        off_of_leap(period_leap(eph, year + 1)),
    )
}

/// The Julian day number of the first day of the Chinese civil year: the
/// new moon that opens its first month.
pub open spec fn year_first_day(eph: Ephemeris, year: int) -> int {
    period_nms(eph, year)[off_of_leap(period_leap(eph, year))]
}

/// Whether the table yields a sound Chinese civil year: both periods are
/// sound and the stitched year has 12 or 13 months.
pub open spec fn year_ok(eph: Ephemeris, year: int) -> bool {
    &&& period_ok(eph, year)
    &&& period_ok(eph, year + 1)
    &&& (year_lengths_raw(eph, year).len() == 12 || year_lengths_raw(eph, year).len() == 13)
}

/// The tail of `a` from `off_a` on, followed by the head of `b` before
/// `off_b`.
fn concat_ranges(a: &Vec<u8>, off_a: usize, b: &Vec<u8>, off_b: usize) -> (r: Vec<u8>)
    requires
        off_a <= a@.len(),
        off_b <= b@.len(),
    ensures
        r@ == a@.subrange(off_a as int, a@.len() as int) + b@.subrange(0, off_b as int),
        r@.len() == a@.len() - off_a + off_b,
        forall|k: int| 0 <= k < a@.len() - off_a ==> r@[k] == a@[off_a + k],
        forall|k: int|
            a@.len() - off_a <= k < r@.len() ==> r@[k] == b@[k - (a@.len() - off_a)],
{
    let mut out: Vec<u8> = Vec::new();
    let mut i: usize = off_a;
    while i < a.len()
        invariant
            off_a <= i <= a@.len(),
            out@ =~= a@.subrange(off_a as int, i as int),
        decreases a@.len() - i,
    {
        let v = a[i];
        out.push(v);
        i = i + 1;
        proof {
            assert(out@ =~= a@.subrange(off_a as int, i as int));
        }
    }
    let mut j: usize = 0;
    while j < off_b
        invariant
            0 <= j <= off_b,
            off_b <= b@.len(),
            off_a <= a@.len(),
            out@ =~= a@.subrange(off_a as int, a@.len() as int) + b@.subrange(0, j as int),
        decreases off_b - j,
    {
        let v = b[j];
        out.push(v);
        j = j + 1;
        proof {
            assert(out@ =~= a@.subrange(off_a as int, a@.len() as int) + b@.subrange(
                0,
                j as int,
            ));
        }
    }
    out
}

/// The data of the Chinese civil year `year`: its first day, its month
/// lengths padded with zeroes to 13 slots, and the 0-based slot of its leap
/// month (13 when it has none). `None` when either bracketing period fails
/// or the stitched year has neither 12 nor 13 months.
#[verifier::rlimit(100)]
pub fn calc_chinese_year_data(eph: &Ephemeris, year: i16) -> (r: Option<(Date, [u8; 13], u8)>)
    requires
        eph.wf(),
        i16::MIN < year < i16::MAX,
    ensures
        r matches Some(p) ==> ({
            let raw = year_lengths_raw(*eph, year as int);
            &&& year_ok(*eph, year as int)
            &&& p.0@ == year_first_day(*eph, year as int)
            &&& p.1@.len() == 13
            &&& forall|i: int| 0 <= i < raw.len() ==> p.1@[i] == raw[i]
            &&& forall|i: int| raw.len() <= i < 13 ==> p.1@[i] == 0
            &&& p.2 == year_leap_slot(*eph, year as int)
        }),
        r is Some <==> year_ok(*eph, year as int),
{
    let (fd1, data1, lm1) = match calc_chinese_year_period_data(eph, year) {
        Some(x) => x,
        None => {
            return None;
        },
    };
    let (_fd2, data2, lm2) = match calc_chinese_year_period_data(eph, year + 1) {
        Some(x) => x,
        None => {
            return None;
        },
    };
    let (off1, nlm1): (usize, Option<u8>) = match lm1 {
        Some(l) => if l <= 2 {
            (3, None)
        } else {
            (2, Some((l - 2) as u8))
        },
        None => (2, None),
    };
    let (off2, nlm2): (usize, Option<u8>) = match lm2 {
        Some(l) => if l <= 2 {
            (3, Some((l + 10) as u8))
        } else {
            (2, None)
        },
        None => (2, None),
    };
    let mut lens: Vec<u8> = concat_ranges(&data1, off1, &data2, off2);
    proof {
        let raw = year_lengths_raw(*eph, year as int);
        assert forall|k: int| 0 <= k < lens@.len() implies lens@[k] as int == raw[k] by {
            if k < data1@.len() - off1 {
                assert(lens@[k] == data1@[off1 + k]);
            } else {
                assert(lens@[k] == data2@[k - (data1@.len() - off1)]);
            }
        }
        assert(lens@.len() == raw.len());
    }
    if lens.len() != 12 && lens.len() != 13 {
        return None;
    }
    if lens.len() == 12 {
        lens.push(0);
    }
    let arr: [u8; 13] = [
        lens[0],
        lens[1],
        lens[2],
        lens[3],
        lens[4],
        lens[5],
        lens[6],
        lens[7],
        lens[8],
        lens[9],
        lens[10],
        lens[11],
        lens[12],
    ];
    proof {
        eph.lemma_table_bounds();
        lemma_find_term_day_props(*eph, jdn_of_ymd(year as int, 12, 21), SolarTerm::WinterSolstice);
        let w = period_window(*eph, year as int).unwrap();
        lemma_new_moons_props(*eph, w.0, w.1);
    }
    let s01: u32 = data1[0] as u32 + data1[1] as u32;
    let sum0: u32 = if off1 == 3 {
        s01 + data1[2] as u32
    } else {
        s01
    };
    let fd = Date::from_jdn(fd1.jdn() + sum0);
    let leap_u8: u8 = match nlm1 {
        Some(x) => x,
        None => match nlm2 {
            Some(x) => x,
            None => 13,
        },
    };
    Some((fd, arr, leap_u8))
}


/// The sum of a sequence of integers.
pub open spec fn seq_int_sum(s: Seq<int>) -> int
    decreases s.len(),
{
    if s.len() == 0 {
        0
    } else {
        seq_int_sum(s.drop_last()) + s.last()
    }
}

/// The number of days of the Chinese civil year `year`, at the model level.
pub open spec fn year_num_days(eph: Ephemeris, year: int) -> int {
    seq_int_sum(year_lengths_raw(eph, year))
}

/// The condition under which `Year::from_y` yields a year: the table yields
/// a sound year, the leap slot agrees with the month count, and the year's
/// days stay clear of the edge of the day-number range.
pub open spec fn year_from_ok(eph: Ephemeris, year: int) -> bool {
    &&& year_ok(eph, year)
    &&& (year_leap_slot(eph, year) == 13 <==> year_lengths_raw(eph, year).len() == 12)
    &&& year_first_day(eph, year) + 500 <= u32::MAX
}

/// The 0-based index of the month a human month number and leap flag name
/// within the civil year, under the year's leap slot: the leap month carries
/// the number of the month it follows. `None` when the year has no such
/// month.
pub open spec fn ylm_index(eph: Ephemeris, year: int, leap: bool, month: int) -> Option<int> {
    let slot = year_leap_slot(eph, year);
    let n = year_lengths_raw(eph, year).len() as int;
    if leap && month != slot {
        None
    } else if month < slot || (!leap && month == slot) {
        if 1 <= month <= n {
            Some(month - 1)
        } else {
            None
        }
    } else {
        if 1 <= month + 1 <= n {
            Some(month)
        } else {
            None
        }
    }
}

/// What a `Year` value built from the table satisfies: it is well formed
/// and its fields equal the model's values for civil year `year`.
pub open spec fn year_matches(eph: Ephemeris, y: Year, year: int) -> bool {
    &&& y.wf()
    &&& y.year_spec() == year
    &&& y.first_day_view() == year_first_day(eph, year)
    &&& y.leap_spec() == year_leap_slot(eph, year)
    &&& y.num_months_spec() == year_lengths_raw(eph, year).len()
    &&& forall|i: int|
        0 <= i < year_lengths_raw(eph, year).len() ==> y.lengths_spec()[i] == year_lengths_raw(
            eph,
            year,
        )[i]
}

/// Whether the day with Julian day number `jdn` falls within the Chinese
/// civil year `year` of the table.
pub open spec fn year_spans(eph: Ephemeris, year: int, jdn: int) -> bool {
    year_first_day(eph, year) <= jdn < year_first_day(eph, year) + year_num_days(eph, year)
}


/// The Chinese name of the month at 0-based human position `i`, as a sequence of characters.
pub open spec fn month_name_spec(i: int) -> Seq<char> {
    if i == 0 {
        "正月"@
    } else if i == 1 {
        "二月"@
    } else if i == 2 {
        "三月"@
    } else if i == 3 {
        "四月"@
    } else if i == 4 {
        "五月"@
    } else if i == 5 {
        "六月"@
    } else if i == 6 {
        "七月"@
    } else if i == 7 {
        "八月"@
    } else if i == 8 {
        "九月"@
    } else if i == 9 {
        "十月"@
    } else if i == 10 {
        "十一月"@
    } else {
        "十二月"@
    }
}

/// The Chinese name of the day at 0-based position `i`, as a sequence of characters.
pub open spec fn day_name_spec(i: int) -> Seq<char> {
    if i == 0 {
        "初一"@
    } else if i == 1 {
        "初二"@
    } else if i == 2 {
        "初三"@
    } else if i == 3 {
        "初四"@
    } else if i == 4 {
        "初五"@
    } else if i == 5 {
        "初六"@
    } else if i == 6 {
        "初七"@
    } else if i == 7 {
        "初八"@
    } else if i == 8 {
        "初九"@
    } else if i == 9 {
        "初十"@
    } else if i == 10 {
        "十一"@
    } else if i == 11 {
        "十二"@
    } else if i == 12 {
        "十三"@
    } else if i == 13 {
        "十四"@
    } else if i == 14 {
        "十五"@
    } else if i == 15 {
        "十六"@
    } else if i == 16 {
        "十七"@
    } else if i == 17 {
        "十八"@
    } else if i == 18 {
        "十九"@
    } else if i == 19 {
        "二十"@
    } else if i == 20 {
        "廿一"@
    } else if i == 21 {
        "廿二"@
    } else if i == 22 {
        "廿三"@
    } else if i == 23 {
        "廿四"@
    } else if i == 24 {
        "廿五"@
    } else if i == 25 {
        "廿六"@
    } else if i == 26 {
        "廿七"@
    } else if i == 27 {
        "廿八"@
    } else if i == 28 {
        "廿九"@
    } else {
        "三十"@
    }
}

/// A year of the Chinese lunisolar calendar: the civil year number and the
/// month table the builder computed for it.
#[derive(Debug, Clone, Copy)]
pub struct Year {
    year: i16,
    first_day: Date,
    num_days_of_months: [u8; 13],
    leap_month: u8,
}

impl PartialEq for Year {
    /// Two `Year` values are equal when they stand for the same civil year;
    /// the derived tables follow from the year number.
    fn eq(&self, other: &Year) -> (r: bool) {
        self.year == other.year
    }
}

impl vstd::std_specs::cmp::PartialEqSpecImpl for Year {
    open spec fn obeys_eq_spec() -> bool {
        true
    }

    open spec fn eq_spec(&self, other: &Year) -> bool {
        self.year_spec() == other.year_spec()
    }
}

impl Year {
    /// The civil year number.
    pub closed spec fn year_spec(self) -> int {
        self.year as int
    }

    /// The Julian day number of the year's first day.
    pub closed spec fn first_day_view(self) -> int {
        self.first_day@
    }

    /// The 13-slot month-length table, as mathematical integers.
    pub closed spec fn lengths_spec(self) -> Seq<int> {
        self.num_days_of_months@.map_values(|x: u8| x as int)
    }

    /// The 0-based slot of the leap month, or 13 when the year has none.
    pub closed spec fn leap_spec(self) -> int {
        self.leap_month as int
    }

    /// The number of months of the year.
    pub open spec fn num_months_spec(self) -> int {
        if self.leap_spec() < 13 {
            13
        } else {
            12
        }
    }

    /// The number of days of the year that precede its month at 0-based
    /// index `m`.
    pub open spec fn days_before_month_spec(self, m: int) -> int
        decreases m,
    {
        if m <= 0 {
            0
        } else {
            self.days_before_month_spec(m - 1) + self.lengths_spec()[m - 1]
        }
    }

    /// The number of days of the year.
    pub open spec fn num_days_spec(self) -> int {
        self.days_before_month_spec(self.num_months_spec())
    }

    /// Well-formedness: 12 or 13 months of 29 or 30 days each, zeroes in
    /// the unused table slots, and a first day leaving room for the year's
    /// days within the day-number type.
    pub open spec fn wf(self) -> bool {
        &&& self.lengths_spec().len() == 13
        &&& 1 <= self.leap_spec() <= 13
        &&& forall|i: int|
            0 <= i < self.num_months_spec() ==> 29 <= #[trigger] self.lengths_spec()[i] <= 30
        &&& forall|i: int| self.num_months_spec() <= i < 13 ==> self.lengths_spec()[i] == 0
        &&& 0 <= self.first_day_view()
        &&& self.first_day_view() + 500 <= u32::MAX
    }

    /// The days before month `m` lie between 29 and 30 days per earlier
    /// month.
    pub proof fn lemma_days_bounds(self, m: int)
        requires
            self.wf(),
            0 <= m <= self.num_months_spec(),
        ensures
            29 * m <= self.days_before_month_spec(m) <= 30 * m,
        decreases m,
    {
        if m > 0 {
            self.lemma_days_bounds(m - 1);
        }
    }

    /// Earlier months hold no more days than later prefixes.
    pub proof fn lemma_days_mono(self, m1: int, m2: int)
        requires
            self.wf(),
            0 <= m1 <= m2 <= self.num_months_spec(),
        ensures
            self.days_before_month_spec(m1) <= self.days_before_month_spec(m2),
        decreases m2 - m1,
    {
        if m1 < m2 {
            self.lemma_days_mono(m1, m2 - 1);
        }
    }

    /// The year with the given civil year number, built from the table:
    /// `None` when the table cannot yield a sound year (see `year_ok`), the
    /// leap slot disagrees with the month count, or the year lies too close
    /// to the edge of the day-number range.
    pub fn from_y(year: i16, eph: &Ephemeris) -> (r: Option<Year>)
        requires
            eph.wf(),
            i16::MIN < year < i16::MAX,
        ensures
            r matches Some(y) ==> year_matches(*eph, y, year as int),
            r is Some <==> year_from_ok(*eph, year as int),
    {
        let (fd, arr, leap) = match calc_chinese_year_data(eph, year) {
            Some(x) => x,
            None => {
                return None;
            },
        };
        let thirteen: bool = arr[12] != 0;
        proof {
            let raw = year_lengths_raw(*eph, year as int);
            lemma_first_false_from_props(period_flags(*eph, year as int), 0);
            lemma_first_false_from_props(period_flags(*eph, year as int + 1), 0);
            assert(1 <= year_leap_slot(*eph, year as int) <= 13);
            if raw.len() == 13 {
                assert(arr@[12] == raw[12]);
                assert(raw[12] == period_lengths(*eph, year as int).subrange(
                    off_of_leap(period_leap(*eph, year as int)),
                    period_lengths(*eph, year as int).len() as int,
                ).add(
                    period_lengths(*eph, year as int + 1).subrange(
                        0,
                        off_of_leap(period_leap(*eph, year as int + 1)),
                    ),
                )[12]);
                assert(raw[12] != 0);
            } else {
                assert(arr@[12] == 0);
            }
        }
        if (leap < 13) != thirteen {
            return None;
        }
        if fd.jdn() > u32::MAX - 500 {
            return None;
        }
        let y = Year { year, first_day: fd, num_days_of_months: arr, leap_month: leap };
        proof {
            let raw = year_lengths_raw(*eph, year as int);
            assert(y.lengths_spec().len() == 13);
            assert forall|i: int| 0 <= i < raw.len() implies y.lengths_spec()[i] == raw[i] by {
                assert(arr@[i] == raw[i]);
            }
            assert(period_ok(*eph, year as int) && period_ok(*eph, year as int + 1));
            assert forall|i: int|
                0 <= i < y.num_months_spec() implies 29 <= #[trigger] y.lengths_spec()[i]
                <= 30 by {
                assert(raw[i] == period_lengths(*eph, year as int).subrange(
                    off_of_leap(period_leap(*eph, year as int)),
                    period_lengths(*eph, year as int).len() as int,
                ).add(
                    period_lengths(*eph, year as int + 1).subrange(
                        0,
                        off_of_leap(period_leap(*eph, year as int + 1)),
                    ),
                )[i]);
            }
            assert forall|i: int|
                y.num_months_spec() <= i < 13 implies y.lengths_spec()[i] == 0 by {
                assert(arr@[i] == 0);
            }
        }
        Some(y)
    }

    /// The civil year number.
    pub fn ord(&self) -> (r: i16)
        ensures
            r == self.year_spec(),
    {
        self.year
    }

    /// The year's first day, as a date.
    pub fn first_day_date(&self) -> (r: Date)
        ensures
            r@ == self.first_day_view(),
    {
        self.first_day
    }

    /// The 0-based leap-month slot, or 13 when the year has no leap month.
    pub fn leap_month_slot(&self) -> (r: u8)
        ensures
            r == self.leap_spec(),
    {
        self.leap_month
    }

    /// Whether the year holds a leap month.
    pub fn is_leap(&self) -> (r: bool)
        ensures
            r == (self.leap_spec() < 13),
    {
        self.leap_month < 13
    }

    /// The number of months of the year.
    pub fn num_months(&self) -> (r: usize)
        ensures
            r == self.num_months_spec(),
    {
        if self.leap_month < 13 {
            13
        } else {
            12
        }
    }

    /// The number of days of the year that precede its month at 0-based
    /// index `m`.
    pub fn days_before_month(&self, m: usize) -> (r: u32)
        requires
            self.wf(),
            m <= self.num_months_spec(),
        ensures
            r == self.days_before_month_spec(m as int),
            r <= 390,
    {
        proof {
            self.lemma_days_bounds(m as int);
        }
        let mut sum: u32 = 0;
        let mut i: usize = 0;
        while i < m
            invariant
                self.wf(),
                0 <= i <= m <= self.num_months_spec(),
                sum == self.days_before_month_spec(i as int),
                sum <= 390,
            decreases m - i,
        {
            proof {
                self.lemma_days_bounds(i as int + 1);
            }
            sum = sum + self.num_days_of_months[i] as u32;
            i = i + 1;
        }
        sum
    }

    /// The number of days of the year.
    pub fn num_days(&self) -> (r: usize)
        requires
            self.wf(),
        ensures
            r == self.num_days_spec(),
            348 <= r <= 390,
    {
        proof {
            self.lemma_days_bounds(self.num_months_spec());
        }
        let n = self.num_months();
        self.days_before_month(n) as usize
    }

    /// The month with the given 1-based ordinal, leap month counted;
    /// `None` outside `1..=num_months`.
    pub fn month(&self, ord: u8) -> (r: Option<Month>)
        requires
            self.wf(),
        ensures
            r matches Some(m) ==> m.wf() && m.the_year_spec() == *self && m.index_spec() == ord
                - 1,
            r is Some <==> 1 <= ord <= self.num_months_spec(),
    {
        if ord >= 1 && (ord as usize) <= self.num_months() {
            Some(Month { year: *self, month: ord - 1 })
        } else {
            None
        }
    }

    /// The first month of the year.
    pub fn first_month(&self) -> (r: Month)
        requires
            self.wf(),
        ensures
            r.wf() && r.the_year_spec() == *self && r.index_spec() == 0,
    {
        let r = self.month(1);
        r.unwrap()
    }

    /// The last month of the year.
    pub fn last_month(&self) -> (r: Month)
        requires
            self.wf(),
        ensures
            r.wf() && r.the_year_spec() == *self && r.index_spec() == self.num_months_spec() - 1,
    {
        let n = self.num_months();
        let r = self.month(n as u8);
        r.unwrap()
    }

    /// The day of the year with the given 1-based ordinal counted from the
    /// year's first day; `None` outside the year.
    pub fn day(&self, ord: u16) -> (r: Option<Day>)
        requires
            self.wf(),
        ensures
            r matches Some(d) ==> d.wf() && d.the_year_spec() == *self && d.jdn_spec()
                == self.first_day_view() + ord - 1,
            r is Some <==> 1 <= ord <= self.num_days_spec(),
    {
        if ord == 0 {
            return None;
        }
        let mut m: usize = 0;
        let mut rem: u32 = ord as u32;
        let n = self.num_months();
        while m < n
            invariant
                self.wf(),
                n == self.num_months_spec(),
                0 <= m <= n,
                1 <= rem,
                rem == ord - self.days_before_month_spec(m as int),
            decreases n - m,
        {
            let nd = self.num_days_of_months[m] as u32;
            if rem <= nd {
                proof {
                    self.lemma_days_bounds(m as int);
                    self.lemma_days_mono(m as int + 1, self.num_months_spec());
                    assert(self.days_before_month_spec(m as int + 1)
                        == self.days_before_month_spec(m as int) + self.lengths_spec()[m as int]);
                }
                let month = Month { year: *self, month: m as u8 };
                let d = Day { month, day: (rem - 1) as u8 };
                return Some(d);
            }
            rem = rem - nd;
            m = m + 1;
        }
        None
    }

    /// The first day of the year.
    pub fn first_day(&self) -> (r: Day)
        requires
            self.wf(),
        ensures
            r.wf() && r.the_year_spec() == *self && r.jdn_spec() == self.first_day_view(),
    {
        proof {
            self.lemma_days_bounds(self.num_months_spec());
        }
        let r = self.day(1);
        r.unwrap()
    }

    /// The stem of the year.
    pub fn stem(&self) -> (r: Stem)
        ensures
            r == Stem::from_index_spec((self.year_spec() - 4) % 10),
    {
        Stem::from_year(self.year)
    }

    /// The branch of the year.
    pub fn branch(&self) -> (r: Branch)
        ensures
            r == Branch::from_index_spec((self.year_spec() - 4) % 12),
    {
        Branch::from_year(self.year)
    }

    /// The stem-branch pair of the year.
    pub fn stem_branch(&self) -> (r: StemBranch)
        ensures
            r.stem_spec() == Stem::from_index_spec((self.year_spec() - 4) % 10),
            r.branch_spec() == Branch::from_index_spec((self.year_spec() - 4) % 12),
    {
        StemBranch::from_year(self.year)
    }

    /// The next year, rebuilt from the table.
    pub fn succ(&self, eph: &Ephemeris) -> (r: Option<Year>)
        requires
            eph.wf(),
            self.year_spec() + 1 < i16::MAX,
        ensures
            r matches Some(y) ==> year_matches(*eph, y, self.year_spec() + 1),
            r is Some <==> year_from_ok(*eph, self.year_spec() + 1),
    {
        Year::from_y(self.year + 1, eph)
    }

    /// The previous year, rebuilt from the table.
    pub fn pred(&self, eph: &Ephemeris) -> (r: Option<Year>)
        requires
            eph.wf(),
            i16::MIN < self.year_spec() - 1,
        ensures
            r matches Some(y) ==> year_matches(*eph, y, self.year_spec() - 1),
            r is Some <==> year_from_ok(*eph, self.year_spec() - 1),
    {
        Year::from_y(self.year - 1, eph)
    }
}

/// A month of a Chinese year.
#[derive(Debug, Clone, Copy)]
pub struct Month {
    year: Year,
    month: u8,
}

impl PartialEq for Month {
    /// Months are equal when their years and their positions agree.
    fn eq(&self, other: &Month) -> (r: bool) {
        self.year == other.year && self.month == other.month
    }
}

impl vstd::std_specs::cmp::PartialEqSpecImpl for Month {
    open spec fn obeys_eq_spec() -> bool {
        true
    }

    open spec fn eq_spec(&self, other: &Month) -> bool {
        self.the_year_spec().year_spec() == other.the_year_spec().year_spec()
            && self.index_spec() == other.index_spec()
    }
}

impl Month {
    /// The year the month belongs to.
    pub closed spec fn the_year_spec(self) -> Year {
        self.year
    }

    /// The 0-based index of the month among the year's months.
    pub closed spec fn index_spec(self) -> int {
        self.month as int
    }

    /// Well-formedness: a sound year and an index among its months.
    pub open spec fn wf(self) -> bool {
        self.the_year_spec().wf() && 0 <= self.index_spec()
            < self.the_year_spec().num_months_spec()
    }

    /// The number of days of the month.
    pub open spec fn num_days_spec(self) -> int {
        self.the_year_spec().lengths_spec()[self.index_spec()]
    }

    /// The month with the given 1-based ordinal (leap month counted) of the
    /// given civil year.
    pub fn from_ym(year: i16, month: u8, eph: &Ephemeris) -> (r: Option<Month>)
        requires
            eph.wf(),
            i16::MIN < year < i16::MAX,
        ensures
            r matches Some(m) ==> m.wf() && year_matches(*eph, m.the_year_spec(), year as int)
                && m.index_spec() == month - 1,
            r is Some <==> (year_from_ok(*eph, year as int) && 1 <= month
                <= year_lengths_raw(*eph, year as int).len()),
    {
        match Year::from_y(year, eph) {
            Some(y) => y.month(month),
            None => None,
        }
    }

    /// The month named by a human month number `month` in `1..=12` and a
    /// leap flag: the leap month carries the number of the month it
    /// follows. `None` when the year has no such month.
    pub fn from_ylm(year: i16, leap: bool, month: u8, eph: &Ephemeris) -> (r: Option<Month>)
        requires
            eph.wf(),
            i16::MIN < year < i16::MAX,
        ensures
            r matches Some(m) ==> m.wf() && year_matches(*eph, m.the_year_spec(), year as int)
                && Some(m.index_spec()) == ylm_index(*eph, year as int, leap, month as int),
            r is Some <==> (year_from_ok(*eph, year as int) && ylm_index(
                *eph,
                year as int,
                leap,
                month as int,
            ) is Some),
    {
        let y = match Year::from_y(year, eph) {
            Some(y) => y,
            None => {
                return None;
            },
        };
        if month >= 14 {
            return None;
        }
        if leap && month != y.leap_month_slot() {
            None
        } else if month < y.leap_month_slot() || (!leap && month == y.leap_month_slot()) {
            y.month(month)
        } else {
            y.month(month + 1)
        }
    }

    /// The 1-based ordinal of the month, leap month counted.
    pub fn ord(&self) -> (r: u8)
        requires
            self.wf(),
        ensures
            r == self.index_spec() + 1,
    {
        self.month + 1
    }

    /// The human number of the month: the leap month carries the number of
    /// the month it follows.
    pub fn ord_no_leap(&self) -> (r: u8)
        requires
            self.wf(),
        ensures
            r == if self.index_spec() < self.the_year_spec().leap_spec() {
                self.index_spec() + 1
            } else {
                self.index_spec()
            },
    {
        if self.month < self.year.leap_month_slot() {
            self.month + 1
        } else {
            self.month
        }
    }

    /// The Chinese name of the month; the leap month bears the name of the
    /// month it follows, without the leap mark.
    pub fn name(&self) -> (r: &'static str)
        requires
            self.wf(),
        ensures
            r@ == month_name_spec(
                if self.index_spec() < self.the_year_spec().leap_spec() {
                    self.index_spec()
                } else {
                    self.index_spec() - 1
                },
            ),
    {
        let m = self.ord_no_leap() - 1;
        match m {
            0 => "正月",
            1 => "二月",
            2 => "三月",
            3 => "四月",
            4 => "五月",
            5 => "六月",
            6 => "七月",
            7 => "八月",
            8 => "九月",
            9 => "十月",
            10 => "十一月",
            _ => "十二月",
        }
    }

    /// The year the month belongs to.
    pub fn the_year(&self) -> (r: Year)
        ensures
            r == self.the_year_spec(),
    {
        self.year
    }

    /// Whether the month is the year's leap month.
    pub fn is_leap(&self) -> (r: bool)
        ensures
            r == (self.the_year_spec().leap_spec() == self.index_spec()),
    {
        self.year.leap_month_slot() == self.month
    }

    /// The number of days of the month.
    pub fn num_days(&self) -> (r: usize)
        requires
            self.wf(),
        ensures
            r == self.num_days_spec(),
            29 <= r <= 30,
    {
        proof {
            assert(29 <= self.the_year_spec().lengths_spec()[self.index_spec()] <= 30);
        }
        self.year.num_days_of_months[self.month as usize] as usize
    }

    /// The day of the month with the given 1-based ordinal; `None` outside
    /// the month.
    pub fn day(&self, ord: u8) -> (r: Option<Day>)
        requires
            self.wf(),
        ensures
            r matches Some(d) ==> d.wf() && d.the_month_spec() == *self && d.index_spec() == ord
                - 1,
            r is Some <==> 1 <= ord <= self.num_days_spec(),
    {
        if ord > 0 && (ord as usize) <= self.num_days() {
            Some(Day { month: *self, day: ord - 1 })
        } else {
            None
        }
    }

    /// The first day of the month.
    pub fn first_day(&self) -> (r: Day)
        requires
            self.wf(),
        ensures
            r.wf() && r.the_month_spec() == *self && r.index_spec() == 0,
    {
        let r = self.day(1);
        r.unwrap()
    }

    /// The last day of the month.
    pub fn last_day(&self) -> (r: Day)
        requires
            self.wf(),
        ensures
            r.wf() && r.the_month_spec() == *self && r.index_spec() == self.num_days_spec() - 1,
    {
        let n = self.num_days();
        let r = self.day(n as u8);
        r.unwrap()
    }

    /// The next month: the year's next month, or the first month of the
    /// next year after the year's last month.
    pub fn succ(&self, eph: &Ephemeris) -> (r: Option<Month>)
        requires
            self.wf(),
            eph.wf(),
            self.the_year_spec().year_spec() + 1 < i16::MAX,
        ensures
            self.index_spec() + 1 < self.the_year_spec().num_months_spec() ==> (r matches Some(m)
                && m.wf() && m.the_year_spec() == self.the_year_spec() && m.index_spec()
                == self.index_spec() + 1),
            r matches Some(m) ==> m.wf(),
            self.index_spec() + 1 == self.the_year_spec().num_months_spec() ==> {
                &&& (r is Some <==> year_from_ok(*eph, self.the_year_spec().year_spec() + 1))
                &&& (r matches Some(m) ==> year_matches(
                    *eph,
                    m.the_year_spec(),
                    self.the_year_spec().year_spec() + 1,
                ) && m.index_spec() == 0)
            },
    {
        let n = self.year.num_months();
        if (self.month as usize) + 1 < n {
            Some(Month { year: self.year, month: self.month + 1 })
        } else {
            match self.year.succ(eph) {
                Some(y) => Some(y.first_month()),
                None => None,
            }
        }
    }

    /// The previous month: the year's previous month, or the last month of
    /// the previous year before the year's first month.
    pub fn pred(&self, eph: &Ephemeris) -> (r: Option<Month>)
        requires
            self.wf(),
            eph.wf(),
            i16::MIN < self.the_year_spec().year_spec() - 1,
        ensures
            self.index_spec() > 0 ==> (r matches Some(m) && m.wf() && m.the_year_spec()
                == self.the_year_spec() && m.index_spec() == self.index_spec() - 1),
            r matches Some(m) ==> m.wf(),
            self.index_spec() == 0 ==> {
                &&& (r is Some <==> year_from_ok(*eph, self.the_year_spec().year_spec() - 1))
                &&& (r matches Some(m) ==> year_matches(
                    *eph,
                    m.the_year_spec(),
                    self.the_year_spec().year_spec() - 1,
                ) && m.index_spec() == m.the_year_spec().num_months_spec() - 1)
            },
    {
        if self.month > 0 {
            Some(Month { year: self.year, month: self.month - 1 })
        } else {
            match self.year.pred(eph) {
                Some(y) => Some(y.last_month()),
                None => None,
            }
        }
    }
}

/// A day of the Chinese lunisolar calendar.
#[derive(Debug, Clone, Copy)]
pub struct Day {
    month: Month,
    day: u8,
}

impl PartialEq for Day {
    /// Days are equal when their months and their positions agree.
    fn eq(&self, other: &Day) -> (r: bool) {
        self.month == other.month && self.day == other.day
    }
}

impl vstd::std_specs::cmp::PartialEqSpecImpl for Day {
    open spec fn obeys_eq_spec() -> bool {
        true
    }

    open spec fn eq_spec(&self, other: &Day) -> bool {
        self.the_month_spec().the_year_spec().year_spec()
            == other.the_month_spec().the_year_spec().year_spec()
            && self.the_month_spec().index_spec() == other.the_month_spec().index_spec()
            && self.index_spec() == other.index_spec()
    }
}

impl Day {
    /// The month the day belongs to.
    pub closed spec fn the_month_spec(self) -> Month {
        self.month
    }

    /// The year the day belongs to.
    pub open spec fn the_year_spec(self) -> Year {
        self.the_month_spec().the_year_spec()
    }

    /// The 0-based index of the day within its month.
    pub closed spec fn index_spec(self) -> int {
        self.day as int
    }

    /// Well-formedness: a sound month and an index among its days.
    pub open spec fn wf(self) -> bool {
        self.the_month_spec().wf() && 0 <= self.index_spec() < self.the_month_spec().num_days_spec()
    }

    /// The Julian day number of the day: the year's first day plus the days
    /// of the earlier months plus the day's index.
    pub open spec fn jdn_spec(self) -> int {
        self.the_year_spec().first_day_view() + self.the_year_spec().days_before_month_spec(
            self.the_month_spec().index_spec(),
        ) + self.index_spec()
    }

    /// The day with the given 1-based month ordinal (leap month counted)
    /// and 1-based day ordinal of the given civil year.
    pub fn from_ymd(year: i16, month: u8, day: u8, eph: &Ephemeris) -> (r: Option<Day>)
        requires
            eph.wf(),
            i16::MIN < year < i16::MAX,
        ensures
            r matches Some(d) ==> d.wf() && year_matches(*eph, d.the_year_spec(), year as int)
                && d.the_month_spec().index_spec() == month - 1 && d.index_spec() == day - 1,
            r is Some <==> (year_from_ok(*eph, year as int) && 1 <= month
                <= year_lengths_raw(*eph, year as int).len() && 1 <= day <= year_lengths_raw(
                *eph,
                year as int,
            )[month - 1]),
    {
        match Month::from_ym(year, month, eph) {
            Some(m) => m.day(day),
            None => None,
        }
    }

    /// The day named by a human month number and leap flag (as
    /// `Month::from_ylm`) and a 1-based day ordinal.
    pub fn from_ylmd(year: i16, leap: bool, month: u8, day: u8, eph: &Ephemeris) -> (r: Option<
        Day,
    >)
        requires
            eph.wf(),
            i16::MIN < year < i16::MAX,
        ensures
            r matches Some(d) ==> d.wf() && year_matches(*eph, d.the_year_spec(), year as int)
                && d.index_spec() == day - 1 && Some(d.the_month_spec().index_spec())
                == ylm_index(*eph, year as int, leap, month as int),
            r is Some <==> (year_from_ok(*eph, year as int) && (ylm_index(
                *eph,
                year as int,
                leap,
                month as int,
            ) matches Some(k) && 1 <= day <= year_lengths_raw(*eph, year as int)[k])),
    {
        match Month::from_ylm(year, leap, month, eph) {
            Some(m) => m.day(day),
            None => None,
        }
    }

    /// The Chinese day of the given date, looked up through the table: the
    /// candidate year is the date's Gregorian year, falling back to the year
    /// before when the date precedes the candidate's first day.
    pub fn from_date(date: Date, eph: &Ephemeris) -> (r: Option<Day>)
        requires
            eph.wf(),
        ensures
            r matches Some(d) ==> ({
                let yr = d.the_year_spec().year_spec();
                &&& d.wf()
                &&& d.jdn_spec() == date@
                &&& (yr == crate::gregorian::greg_year_of(date@) || yr
                    == crate::gregorian::greg_year_of(date@) - 1)
                &&& year_matches(*eph, d.the_year_spec(), yr)
            }),
            r is Some <==> ({
                let gy = crate::gregorian::greg_year_of(date@);
                &&& i16::MIN + 1 < gy < i16::MAX
                &&& year_from_ok(*eph, gy)
                &&& (if date@ >= year_first_day(*eph, gy) {
                    year_spans(*eph, gy, date@)
                } else {
                    year_from_ok(*eph, gy - 1) && year_spans(*eph, gy - 1, date@)
                })
            }),
    {
        let (gy32, gm, gd) = crate::gregorian::jdn_to_gregorian(date.jdn());
        proof {
            crate::gregorian::lemma_greg_year_of(gy32 as int, gm as int, gd as int);
        }
        if gy32 <= i16::MIN as i32 + 1 || gy32 >= i16::MAX as i32 {
            return None;
        }
        let gy = gy32 as i16;
        let cy = match Year::from_y(gy, eph) {
            Some(y) => y,
            None => {
                return None;
            },
        };
        proof {
            lemma_year_num_days(*eph, gy as int, cy);
        }
        let fd = cy.first_day_date();
        if date.jdn() >= fd.jdn() {
            let off = date.jdn() - fd.jdn();
            let nd = cy.num_days();
            if (off as usize) < nd {
                let r = cy.day((off + 1) as u16);
                Some(r.unwrap())
            } else {
                None
            }
        } else {
            let cy2 = match Year::from_y(gy - 1, eph) {
                Some(y) => y,
                None => {
                    return None;
                },
            };
            proof {
                lemma_year_num_days(*eph, gy as int - 1, cy2);
            }
            let fd2 = cy2.first_day_date();
            if date.jdn() >= fd2.jdn() {
                let off = date.jdn() - fd2.jdn();
                let nd = cy2.num_days();
                if (off as usize) < nd {
                    let r = cy2.day((off + 1) as u16);
                    Some(r.unwrap())
                } else {
                    None
                }
            } else {
                None
            }
        }
    }

    /// The 1-based ordinal of the day within its month.
    pub fn ord(&self) -> (r: u8)
        requires
            self.wf(),
        ensures
            r == self.index_spec() + 1,
    {
        self.day + 1
    }

    /// The Chinese name of the day within its month.
    pub fn name(&self) -> (r: &'static str)
        requires
            self.wf(),
        ensures
            r@ == day_name_spec(self.index_spec()),
    {
        match self.day {
            0 => "初一",
            1 => "初二",
            2 => "初三",
            3 => "初四",
            4 => "初五",
            5 => "初六",
            6 => "初七",
            7 => "初八",
            8 => "初九",
            9 => "初十",
            10 => "十一",
            11 => "十二",
            12 => "十三",
            13 => "十四",
            14 => "十五",
            15 => "十六",
            16 => "十七",
            17 => "十八",
            18 => "十九",
            19 => "二十",
            20 => "廿一",
            21 => "廿二",
            22 => "廿三",
            23 => "廿四",
            24 => "廿五",
            25 => "廿六",
            26 => "廿七",
            27 => "廿八",
            28 => "廿九",
            _ => "三十",
        }
    }

    /// The year the day belongs to.
    pub fn the_year(&self) -> (r: Year)
        ensures
            r == self.the_year_spec(),
    {
        self.month.the_year()
    }

    /// The month the day belongs to.
    pub fn the_month(&self) -> (r: Month)
        ensures
            r == self.the_month_spec(),
    {
        self.month
    }

    /// The date of the day.
    pub fn to_date(&self) -> (r: Date)
        requires
            self.wf(),
        ensures
            r@ == self.jdn_spec(),
    {
        proof {
            self.the_year_spec().lemma_days_bounds(self.the_month_spec().index_spec());
        }
        let before = self.month.year.days_before_month(self.month.month as usize);
        Date::from_jdn(self.month.year.first_day.jdn() + before + self.day as u32)
    }

    /// The next day: the month's next day, or the first day of the next
    /// month. Within the year the Julian day number grows by exactly one.
    pub fn succ(&self, eph: &Ephemeris) -> (r: Option<Day>)
        requires
            self.wf(),
            eph.wf(),
            self.the_year_spec().year_spec() + 1 < i16::MAX,
        ensures
            r matches Some(d) ==> d.wf(),
            self.index_spec() + 1 < self.the_month_spec().num_days_spec() ==> (r matches Some(d)
                && d.the_month_spec() == self.the_month_spec() && d.jdn_spec() == self.jdn_spec()
                + 1),
            (self.index_spec() + 1 == self.the_month_spec().num_days_spec()
                && self.the_month_spec().index_spec() + 1
                < self.the_year_spec().num_months_spec()) ==> (r matches Some(d)
                && d.the_year_spec() == self.the_year_spec() && d.jdn_spec() == self.jdn_spec()
                + 1),
            (self.index_spec() + 1 == self.the_month_spec().num_days_spec()
                && self.the_month_spec().index_spec() + 1
                == self.the_year_spec().num_months_spec()) ==> {
                &&& (r is Some <==> year_from_ok(*eph, self.the_year_spec().year_spec() + 1))
                &&& (r matches Some(d) ==> year_matches(
                    *eph,
                    d.the_year_spec(),
                    self.the_year_spec().year_spec() + 1,
                ) && d.jdn_spec() == d.the_year_spec().first_day_view())
            },
    {
        if (self.day as usize) + 1 < self.month.num_days() {
            Some(Day { month: self.month, day: self.day + 1 })
        } else {
            match self.month.succ(eph) {
                Some(m) => Some(m.first_day()),
                None => None,
            }
        }
    }

    /// The previous day: the month's previous day, or the last day of the
    /// previous month. Within the year the Julian day number shrinks by
    /// exactly one.
    pub fn pred(&self, eph: &Ephemeris) -> (r: Option<Day>)
        requires
            self.wf(),
            eph.wf(),
            i16::MIN < self.the_year_spec().year_spec() - 1,
        ensures
            r matches Some(d) ==> d.wf(),
            self.index_spec() > 0 ==> (r matches Some(d) && d.the_month_spec()
                == self.the_month_spec() && d.jdn_spec() == self.jdn_spec() - 1),
            (self.index_spec() == 0 && self.the_month_spec().index_spec() > 0) ==> (r matches Some(
                d,
            ) && d.the_year_spec() == self.the_year_spec() && d.jdn_spec() == self.jdn_spec() - 1),
            (self.index_spec() == 0 && self.the_month_spec().index_spec() == 0) ==> {
                &&& (r is Some <==> year_from_ok(*eph, self.the_year_spec().year_spec() - 1))
                &&& (r matches Some(d) ==> year_matches(
                    *eph,
                    d.the_year_spec(),
                    self.the_year_spec().year_spec() - 1,
                ) && d.the_month_spec().index_spec() == d.the_year_spec().num_months_spec() - 1
                    && d.index_spec() == d.the_month_spec().num_days_spec() - 1)
            },
    {
        if self.day > 0 {
            Some(Day { month: self.month, day: self.day - 1 })
        } else {
            match self.month.pred(eph) {
                Some(m) => Some(m.last_day()),
                None => None,
            }
        }
    }

    /// The day of the week of the day's date.
    pub fn weekday(&self) -> (r: crate::date::Weekday)
        requires
            self.wf(),
        ensures
            r == crate::date::Weekday::from_index_spec(self.jdn_spec() % 7),
    {
        self.to_date().weekday()
    }

    /// The stem-branch pair of the day: pair number `(jdn + 18) mod 60 + 1`
    /// of the sexagenary cycle.
    pub fn stem_branch(&self) -> (r: StemBranch)
        requires
            self.wf(),
        ensures
            r.ord_spec() == (self.jdn_spec() + 18) % 60 + 1,
    {
        proof {
            self.the_year_spec().lemma_days_bounds(self.the_month_spec().index_spec());
        }
        let date = self.to_date();
        let repr = ((date.jdn() + 18) % 60) as usize;
        let r = StemBranch::new_with_repr(repr);
        proof {
            let jj = self.jdn_spec() + 18;
            lemma_div_shift_multiple(jj % 60, 10, 6 * (jj / 60));
            lemma_div_shift_multiple(jj % 60, 12, 5 * (jj / 60));
            lemma_fundamental_div_mod(jj, 60);
            assert(jj % 60 + 60 * (jj / 60) == jj && 10 * (6 * (jj / 60)) == 60 * (jj / 60) && 12
                * (5 * (jj / 60)) == 60 * (jj / 60)) by (nonlinear_arith)
                requires
                    jj == 60 * (jj / 60) + jj % 60,
            ;
            assert((jj % 60) % 10 == jj % 10 && (jj % 60) % 12 == jj % 12);
            lemma_stem_branch_repr(r, jj % 60);
        }
        r
    }
}

/// The Chinese lunisolar calendar: checked constructors for its years,
/// months and days, each reading sky samples from an ephemeris table.
pub struct Calendar;

impl Calendar {
    /// The year with the given civil year number.
    pub fn from_y(year: i16, eph: &Ephemeris) -> (r: Option<Year>)
        requires
            eph.wf(),
            i16::MIN < year < i16::MAX,
        ensures
            r matches Some(y) ==> year_matches(*eph, y, year as int),
            r is Some <==> year_from_ok(*eph, year as int),
    {
        Year::from_y(year, eph)
    }

    /// The month with the given 1-based month ordinal, leap month counted.
    pub fn from_ymo(year: i16, month: u8, eph: &Ephemeris) -> (r: Option<Month>)
        requires
            eph.wf(),
            i16::MIN < year < i16::MAX,
        ensures
            r matches Some(m) ==> m.wf() && year_matches(*eph, m.the_year_spec(), year as int)
                && m.index_spec() == month - 1,
            r is Some <==> (year_from_ok(*eph, year as int) && 1 <= month
                <= year_lengths_raw(*eph, year as int).len()),
    {
        Month::from_ym(year, month, eph)
    }

    /// The day with the given month and day ordinals, leap month counted.
    pub fn from_ymdo(year: i16, month: u8, day: u8, eph: &Ephemeris) -> (r: Option<Day>)
        requires
            eph.wf(),
            i16::MIN < year < i16::MAX,
        ensures
            r matches Some(d) ==> d.wf() && year_matches(*eph, d.the_year_spec(), year as int)
                && d.the_month_spec().index_spec() == month - 1 && d.index_spec() == day - 1,
            r is Some <==> (year_from_ok(*eph, year as int) && 1 <= month
                <= year_lengths_raw(*eph, year as int).len() && 1 <= day <= year_lengths_raw(
                *eph,
                year as int,
            )[month - 1]),
    {
        Day::from_ymd(year, month, day, eph)
    }

    /// The month named by a human month number and leap flag.
    pub fn from_ylmo(year: i16, leap: bool, month: u8, eph: &Ephemeris) -> (r: Option<Month>)
        requires
            eph.wf(),
            i16::MIN < year < i16::MAX,
        ensures
            r matches Some(m) ==> m.wf() && year_matches(*eph, m.the_year_spec(), year as int)
                && Some(m.index_spec()) == ylm_index(*eph, year as int, leap, month as int),
            r is Some <==> (year_from_ok(*eph, year as int) && ylm_index(
                *eph,
                year as int,
                leap,
                month as int,
            ) is Some),
    {
        Month::from_ylm(year, leap, month, eph)
    }

    /// The day named by a human month number, leap flag and day ordinal.
    pub fn from_ylmdo(year: i16, leap: bool, month: u8, day: u8, eph: &Ephemeris) -> (r: Option<
        Day,
    >)
        requires
            eph.wf(),
            i16::MIN < year < i16::MAX,
        ensures
            r matches Some(d) ==> d.wf() && year_matches(*eph, d.the_year_spec(), year as int)
                && d.index_spec() == day - 1 && Some(d.the_month_spec().index_spec())
                == ylm_index(*eph, year as int, leap, month as int),
            r is Some <==> (year_from_ok(*eph, year as int) && (ylm_index(
                *eph,
                year as int,
                leap,
                month as int,
            ) matches Some(k) && 1 <= day <= year_lengths_raw(*eph, year as int)[k])),
    {
        Day::from_ylmd(year, leap, month, day, eph)
    }
}


/// A year's month-by-month prefix sums agree with the sums of the model's
/// length listing.
proof fn lemma_prefix_is_sum(y: Year, raw: Seq<int>, m: int)
    requires
        y.num_months_spec() == raw.len(),
        forall|i: int| 0 <= i < raw.len() ==> y.lengths_spec()[i] == raw[i],
        0 <= m <= raw.len(),
    ensures
        y.days_before_month_spec(m) == seq_int_sum(raw.subrange(0, m)),
    decreases m,
{
    if m == 0 {
        assert(raw.subrange(0, 0) =~= Seq::<int>::empty());
    } else {
        lemma_prefix_is_sum(y, raw, m - 1);
        assert(raw.subrange(0, m).drop_last() =~= raw.subrange(0, m - 1));
        assert(raw.subrange(0, m).last() == raw[m - 1]);
    }
}

/// A year built by `Year::from_y` holds as many days as the model says.
pub proof fn lemma_year_num_days(eph: Ephemeris, year: int, y: Year)
    requires
        y.num_months_spec() == year_lengths_raw(eph, year).len(),
        forall|i: int|
            0 <= i < year_lengths_raw(eph, year).len() ==> y.lengths_spec()[i]
                == year_lengths_raw(eph, year)[i],
    ensures
        y.num_days_spec() == year_num_days(eph, year),
{
    let raw = year_lengths_raw(eph, year);
    lemma_prefix_is_sum(y, raw, raw.len() as int);
    assert(raw.subrange(0, raw.len() as int) =~= raw);
}

/// Two years with the same first day and the same month-length table have
/// the same prefix sums.
proof fn lemma_equal_tables_equal_prefix(y1: Year, y2: Year, m: int)
    requires
        0 <= m <= 13,
        y1.lengths_spec().len() == 13,
        y2.lengths_spec().len() == 13,
        forall|i: int| 0 <= i < 13 ==> y1.lengths_spec()[i] == y2.lengths_spec()[i],
    ensures
        y1.days_before_month_spec(m) == y2.days_before_month_spec(m),
    decreases m,
{
    if m > 0 {
        lemma_equal_tables_equal_prefix(y1, y2, m - 1);
    }
}

/// Two days of years with the same first day and the same month table, with
/// the same Julian day number, name the same day: the decomposition into
/// month and day index is unique.
pub proof fn lemma_day_jdn_unique(a: Day, b: Day)
    requires
        a.wf(),
        b.wf(),
        a.the_year_spec().first_day_view() == b.the_year_spec().first_day_view(),
        a.the_year_spec().num_months_spec() == b.the_year_spec().num_months_spec(),
        forall|i: int|
            0 <= i < 13 ==> a.the_year_spec().lengths_spec()[i]
                == b.the_year_spec().lengths_spec()[i],
        a.jdn_spec() == b.jdn_spec(),
    ensures
        a.the_month_spec().index_spec() == b.the_month_spec().index_spec(),
        a.index_spec() == b.index_spec(),
{
    let y = a.the_year_spec();
    let yb = b.the_year_spec();
    let ma = a.the_month_spec().index_spec();
    let mb = b.the_month_spec().index_spec();
    lemma_equal_tables_equal_prefix(y, yb, ma);
    lemma_equal_tables_equal_prefix(y, yb, mb);
    if ma < mb {
        assert(y.days_before_month_spec(ma + 1) == y.days_before_month_spec(ma)
            + y.lengths_spec()[ma]);
        y.lemma_days_mono(ma + 1, mb);
        assert(false);
    }
    if mb < ma {
        assert(y.days_before_month_spec(mb + 1) == y.days_before_month_spec(mb)
            + y.lengths_spec()[mb]);
        y.lemma_days_mono(mb + 1, ma);
        assert(false);
    }
}

/// The round trip from a Chinese day through its date and back: a day `d2`
/// that a date lookup returned for the date of a day `d` is `d` itself. The
/// tiling of adjacent years is derived from the period model
/// (`lemma_years_tile`); the one assumption left to the sky is that the
/// date's Gregorian year is the day's civil year or its successor, which
/// holds whenever consecutive winter solstices are found near their own
/// 21 December.
#[verifier::rlimit(100)]
pub proof fn lemma_chinese_roundtrip(eph: Ephemeris, d: Day, d2: Day)
    requires
        d.wf(),
        d2.wf(),
        d2.jdn_spec() == d.jdn_spec(),
        // both days' years agree with the builder's model of their year
        year_matches(eph, d.the_year_spec(), d.the_year_spec().year_spec()),
        year_matches(eph, d2.the_year_spec(), d2.the_year_spec().year_spec()),
        // the neighbouring periods are sound, so the years tile
        period_ok(eph, d.the_year_spec().year_spec() - 1),
        period_ok(eph, d.the_year_spec().year_spec()),
        period_ok(eph, d.the_year_spec().year_spec() + 1),
        // the lookup picked the Gregorian year of the date or the year before
        d2.the_year_spec().year_spec() == crate::gregorian::greg_year_of(d.jdn_spec())
            || d2.the_year_spec().year_spec() == crate::gregorian::greg_year_of(d.jdn_spec()) - 1,
        // the day's date falls in Gregorian year Y or Y + 1
        crate::gregorian::greg_year_of(d.jdn_spec()) == d.the_year_spec().year_spec()
            || crate::gregorian::greg_year_of(d.jdn_spec()) == d.the_year_spec().year_spec() + 1,
    ensures
        d2.the_year_spec().year_spec() == d.the_year_spec().year_spec(),
        d2.the_month_spec().index_spec() == d.the_month_spec().index_spec(),
        d2.index_spec() == d.index_spec(),
{
    let yy = d.the_year_spec();
    let y = yy.year_spec();
    let y2 = d2.the_year_spec().year_spec();
    let jdn = d.jdn_spec();
    lemma_years_tile(eph, y - 1);
    lemma_years_tile(eph, y);
    lemma_year_num_days(eph, y, yy);
    lemma_year_num_days(eph, y2, d2.the_year_spec());
    // each day lies within its own year's span
    yy.lemma_days_bounds(d.the_month_spec().index_spec());
    d2.the_year_spec().lemma_days_bounds(d2.the_month_spec().index_spec());
    yy.lemma_days_mono(d.the_month_spec().index_spec() + 1, yy.num_months_spec());
    assert(yy.days_before_month_spec(d.the_month_spec().index_spec() + 1)
        == yy.days_before_month_spec(d.the_month_spec().index_spec())
        + yy.lengths_spec()[d.the_month_spec().index_spec()]);
    assert(year_first_day(eph, y) <= jdn < year_first_day(eph, y) + year_num_days(eph, y));
    d2.the_year_spec().lemma_days_mono(
        d2.the_month_spec().index_spec() + 1,
        d2.the_year_spec().num_months_spec(),
    );
    assert(d2.the_year_spec().days_before_month_spec(d2.the_month_spec().index_spec() + 1)
        == d2.the_year_spec().days_before_month_spec(d2.the_month_spec().index_spec())
        + d2.the_year_spec().lengths_spec()[d2.the_month_spec().index_spec()]);
    assert(year_first_day(eph, y2) <= jdn < year_first_day(eph, y2) + year_num_days(eph, y2));
    // the tiling rules the neighbouring years out
    assert(y2 == y);
    lemma_day_jdn_unique(d, d2);
}

/// In a 13-month period the builder's leap month holds no mid-term day: no
/// day between its bracketing new moons is classified as a mid-term.
pub proof fn lemma_period_leap_no_mid_term(eph: Ephemeris, year: int)
    requires
        period_ok(eph, year),
    ensures
        period_leap(eph, year) matches Some(l) ==> {
            &&& 0 <= l < period_month_count(eph, year)
            &&& !month_has_mid_term(eph, period_nms(eph, year)[l], period_nms(eph, year)[l + 1])
        },
{
    if period_leap(eph, year) is Some {
        lemma_first_false_from_props(period_flags(eph, year), 0);
    }
}

/// The pair with 1-based cycle ordinal `o` has ordinal `o` again: `from_ord`
/// and `ord` round-trip over the sexagenary cycle.
pub proof fn lemma_stem_branch_ord_roundtrip(sb: StemBranch, o: int)
    requires
        1 <= o <= 60,
        sb.stem_spec() == Stem::from_index_spec((o - 1) % 10),
        sb.branch_spec() == Branch::from_index_spec((o - 1) % 12),
    ensures
        sb.ord_spec() == o,
{
    lemma_stem_branch_repr(sb, o - 1);
    assert((o - 1) % 60 == o - 1) by {
        vstd::arithmetic::div_mod::lemma_small_mod((o - 1) as nat, 60nat);
    }
}


/// The year's month-by-month prefix sums telescope to differences of the
/// first period's new moons, for months drawn from that period.
proof fn lemma_dbm_telescope(eph: Ephemeris, year: int, y: Year, m: int)
    requires
        period_ok(eph, year),
        period_ok(eph, year + 1),
        y.num_months_spec() == year_lengths_raw(eph, year).len(),
        forall|i: int|
            0 <= i < year_lengths_raw(eph, year).len() ==> y.lengths_spec()[i]
                == year_lengths_raw(eph, year)[i],
        0 <= m <= period_lengths(eph, year).len() - off_of_leap(period_leap(eph, year)),
    ensures
        y.days_before_month_spec(m) == period_nms(eph, year)[off_of_leap(
            period_leap(eph, year),
        ) + m] - period_nms(eph, year)[off_of_leap(period_leap(eph, year))],
    decreases m,
{
    let off = off_of_leap(period_leap(eph, year));
    let nms = period_nms(eph, year);
    let p1 = period_lengths(eph, year);
    if m > 0 {
        lemma_dbm_telescope(eph, year, y, m - 1);
        assert(year_lengths_raw(eph, year)[m - 1] == p1.subrange(off, p1.len() as int).add(
            period_lengths(eph, year + 1).subrange(
                0,
                off_of_leap(period_leap(eph, year + 1)),
            ),
        )[m - 1]);
        assert(p1[off + m - 1] == nms[off + m] - nms[off + m - 1]);
    }
}

/// The mid-term rule, for a leap month drawn from the year's first sweep
/// period: the civil year's leap month holds no day the table classifies as
/// a mid-term. (A leap month drawn from the second period is placed the
/// same way within that period, whose sweep starts at its own new moon.)
pub proof fn lemma_year_leap_no_mid_term(eph: Ephemeris, year: int, y: Year)
    requires
        year_ok(eph, year),
        period_leap(eph, year) matches Some(l) && l > 2,
        y.first_day_view() == year_first_day(eph, year),
        y.num_months_spec() == year_lengths_raw(eph, year).len(),
        forall|i: int|
            0 <= i < year_lengths_raw(eph, year).len() ==> y.lengths_spec()[i]
                == year_lengths_raw(eph, year)[i],
        y.leap_spec() == year_leap_slot(eph, year),
    ensures
        0 <= y.leap_spec() < y.num_months_spec(),
        forall|j: int|
            y.first_day_view() + y.days_before_month_spec(y.leap_spec()) <= j
                < y.first_day_view() + y.days_before_month_spec(y.leap_spec() + 1)
                ==> !eph.is_mid_term_day(j),
{
    let l = period_leap(eph, year).unwrap();
    let slot = l - 2;
    let nms = period_nms(eph, year);
    lemma_first_false_from_props(period_flags(eph, year), 0);
    lemma_period_leap_no_mid_term(eph, year);
    assert(year_leap_slot(eph, year) == slot);
    assert(year_lengths_raw(eph, year).len() >= period_lengths(eph, year).len() - 2);
    lemma_dbm_telescope(eph, year, y, slot);
    lemma_dbm_telescope(eph, year, y, slot + 1);
    assert(y.first_day_view() + y.days_before_month_spec(slot) == nms[l]);
    assert(y.first_day_view() + y.days_before_month_spec(slot + 1) == nms[l + 1]);
    assert(!month_has_mid_term(eph, nms[l], nms[l + 1]));
    assert forall|j: int| nms[l] <= j < nms[l + 1] implies !eph.is_mid_term_day(j) by {
        if eph.is_mid_term_day(j) {
            assert(month_has_mid_term(eph, nms[l], nms[l + 1]));
        }
    }
}


/// The sum of a concatenation is the sum of the parts.
proof fn lemma_seq_sum_concat(s: Seq<int>, t: Seq<int>)
    ensures
        seq_int_sum(s + t) == seq_int_sum(s) + seq_int_sum(t),
    decreases t.len(),
{
    if t.len() == 0 {
        assert(s + t =~= s);
    } else {
        lemma_seq_sum_concat(s, t.drop_last());
        assert((s + t).drop_last() =~= s + t.drop_last());
        assert((s + t).last() == t.last());
    }
}

/// The month lengths of a period telescope: their sum over a span equals
/// the distance between the bracketing new moons.
proof fn lemma_period_sum_telescope(eph: Ephemeris, year: int, a: int, b: int)
    requires
        period_window(eph, year) is Some,
        0 <= a <= b <= period_nms(eph, year).len() - 1,
    ensures
        seq_int_sum(period_lengths(eph, year).subrange(a, b)) == period_nms(eph, year)[b]
            - period_nms(eph, year)[a],
    decreases b - a,
{
    let p = period_lengths(eph, year);
    if a == b {
        assert(p.subrange(a, a) =~= Seq::<int>::empty());
    } else {
        lemma_period_sum_telescope(eph, year, a, b - 1);
        assert(p.subrange(a, b).drop_last() =~= p.subrange(a, b - 1));
        assert(p.subrange(a, b).last() == p[b - 1]);
        assert(p[b - 1] == period_nms(eph, year)[b] - period_nms(eph, year)[b - 1]);
    }
}

/// Every new moon of `[a, b)` is listed: the listing's last element is at
/// or after any new-moon day of the window.
proof fn lemma_new_moons_cover(eph: Ephemeris, a: int, b: int, j: int)
    requires
        a <= j < b,
        eph.is_new_moon_day(j),
    ensures
        new_moons_between(eph, a, b).len() >= 1,
        new_moons_between(eph, a, b).last() >= j,
{
    lemma_new_moons_split(eph, a, j, b);
    lemma_new_moons_props(eph, j, b);
    let right = new_moons_between(eph, j, b);
    assert(right[0] == j && right.len() >= 1);
    let s = new_moons_between(eph, a, b);
    assert(s.last() == right.last());
    assert(right.last() >= j);
}

/// Adjacent civil years tile: each year ends exactly where the next one
/// begins, because the two sweeps share the boundary new moon (the last new
/// moon at or before the shared winter solstice).
pub proof fn lemma_years_tile(eph: Ephemeris, year: int)
    requires
        period_ok(eph, year),
        period_ok(eph, year + 1),
    ensures
        year_first_day(eph, year) + year_num_days(eph, year) == year_first_day(eph, year + 1),
{
    let w1 = period_window(eph, year).unwrap();
    let w2 = period_window(eph, year + 1).unwrap();
    let ws = w1.1 - 1;
    lemma_find_term_day_props(eph, jdn_of_ymd(year, 12, 21), SolarTerm::WinterSolstice);
    lemma_find_new_moon_back_props(eph, ws);
    assert(w2.0 == find_new_moon_back(eph, ws).unwrap());
    let nms1 = period_nms(eph, year);
    let nms2 = period_nms(eph, year + 1);
    lemma_new_moons_props(eph, w1.0, w1.1);
    lemma_new_moons_props(eph, w2.0, w2.1);
    assert(nms1.len() >= 13 && nms2.len() >= 13);
    // the second window is nonempty, so its listing opens with its new moon
    assert(w2.0 < w2.1);
    assert(nms2[0] == w2.0 && eph.is_new_moon_day(w2.0));
    // the boundary new moon lies inside the first window ...
    assert(w1.0 <= w2.0) by {
        if w2.0 < w1.0 {
            assert(nms1[1] > w2.0 && nms1[1] <= ws && eph.is_new_moon_day(nms1[1]));
            assert(false);
        }
    }
    // ... so the first listing ends exactly there
    lemma_new_moons_cover(eph, w1.0, w1.1, w2.0);
    assert(nms1.last() >= w2.0);
    assert(nms1.last() <= w2.0) by {
        if nms1.last() > w2.0 {
            assert(eph.is_new_moon_day(nms1.last()) && nms1.last() <= ws);
            assert(false);
        }
    }
    // telescope both spans and add them up
    let off1 = off_of_leap(period_leap(eph, year));
    let off2 = off_of_leap(period_leap(eph, year + 1));
    assert(2 <= off1 <= 3 && 2 <= off2 <= 3);
    let p1 = period_lengths(eph, year);
    let p2 = period_lengths(eph, year + 1);
    lemma_seq_sum_concat(p1.subrange(off1, p1.len() as int), p2.subrange(0, off2));
    lemma_period_sum_telescope(eph, year, off1, p1.len() as int);
    lemma_period_sum_telescope(eph, year + 1, 0, off2);
    assert(nms1[p1.len() as int] == nms1.last());
}

} // verus!







