use omnical::chinese::calc_chinese_year_data;
use omnical::gregorian::gregorian_to_jdn;
use omnical::{
    Branch, ChineseDay as Day, ChineseMonth as Month, ChineseYear as Year, Date, Ephemeris,
    SolarTerm, Stem, StemBranch,
};

fn build_eph(first_jdn: u32, days: u32, tz_min: i32) -> Ephemeris {
    let mut sun: Vec<i64> = Vec::new();
    let mut moon_sun: Vec<i64> = Vec::new();
    for i in 0..days {
        let jd = (first_jdn + i) as f64 - 0.5 - tz_min as f64 / 1440.0;
        let (sp, _) = astro::sun::geocent_ecl_pos(jd);
        let s_deg = sp.long.to_degrees();
        let (mp, _) = astro::lunar::geocent_ecl_pos(jd);
        let m_deg = mp.long.to_degrees();
        let ms = (m_deg - s_deg).rem_euclid(360.0);
        let s = ((s_deg.rem_euclid(360.0) * 1e9) as i64).rem_euclid(360_000_000_000);
        let m = ((ms * 1e9) as i64).rem_euclid(360_000_000_000);
        sun.push(s);
        moon_sun.push(m);
    }
    Ephemeris::new(first_jdn, sun, moon_sun).unwrap()
}

/// A Beijing-time (+8 hours) table wide enough to build the Chinese years
/// `y0..=y1` and to look dates of those years up, which may also build the
/// year before `y0`.
fn eph_for_years(y0: i32, y1: i32) -> Ephemeris {
    let first = gregorian_to_jdn(y0 - 2, 11, 1) as u32;
    let last = gregorian_to_jdn(y1 + 2, 1, 15) as u32;
    build_eph(first, last - first + 1, 480)
}

#[test]
fn test_calc_chinese_year_data() {
    let eph = eph_for_years(2014, 2023);
    let result = calc_chinese_year_data(&eph, 2014);
    assert_eq!(
        result,
        Some((
            Date::from_jdn(2456689),
            [29, 30, 29, 30, 29, 30, 29, 30, 30, 29, 30, 29, 30],
            9
        ))
    );
    let result = calc_chinese_year_data(&eph, 2023);
    assert_eq!(
        result,
        Some((
            Date::from_jdn(2459967),
            [29, 30, 29, 29, 30, 30, 29, 30, 30, 29, 30, 29, 30],
            2
        ))
    );
}

#[test]
fn test_stem_branch() {
    assert_eq!(
        StemBranch::from_ord(1),
        StemBranch::from_stem_branch(Stem::Jia, Branch::Zi)
    );
    assert_eq!(StemBranch::from_stem_branch(Stem::Jia, Branch::Zi).unwrap().ord(), 1);
    assert_eq!(
        StemBranch::from_ord(2),
        StemBranch::from_stem_branch(Stem::Yi, Branch::Chou)
    );
    assert_eq!(StemBranch::from_stem_branch(Stem::Yi, Branch::Chou).unwrap().ord(), 2);
    assert_eq!(
        StemBranch::from_ord(13),
        StemBranch::from_stem_branch(Stem::Bing, Branch::Zi)
    );
    assert_eq!(StemBranch::from_stem_branch(Stem::Bing, Branch::Zi).unwrap().ord(), 13);
    assert_eq!(
        StemBranch::from_ord(41),
        StemBranch::from_stem_branch(Stem::Jia, Branch::Chen)
    );
    assert_eq!(StemBranch::from_stem_branch(Stem::Jia, Branch::Chen).unwrap().ord(), 41);
    assert_eq!(
        StemBranch::from_ord(60),
        StemBranch::from_stem_branch(Stem::Gui, Branch::Hai)
    );
    assert_eq!(StemBranch::from_stem_branch(Stem::Gui, Branch::Hai).unwrap().ord(), 60);
}

#[test]
fn stem_branch_cycle() {
    // every ordinal round-trips, and mismatched parities are rejected
    for o in 1..=60usize {
        assert_eq!(StemBranch::from_ord(o).unwrap().ord(), o);
    }
    assert_eq!(StemBranch::from_ord(0), None);
    assert_eq!(StemBranch::from_ord(61), None);
    assert_eq!(StemBranch::from_stem_branch(Stem::Jia, Branch::Chou), None);
    assert_eq!(StemBranch::from_stem_branch(Stem::Yi, Branch::Zi), None);
}

#[test]
fn chinese_test_year() {
    let eph = eph_for_years(2021, 2023);
    let year = Year::from_y(2021, &eph).unwrap();
    assert_eq!(year.ord(), 2021);
    assert_eq!(year.stem(), Stem::Xin);
    assert_eq!(year.branch(), Branch::Chou);
    assert_eq!(
        year.stem_branch(),
        StemBranch::from_stem_branch(Stem::Xin, Branch::Chou).unwrap()
    );
    assert!(!year.is_leap());
    assert!(Year::from_y(2023, &eph).unwrap().is_leap());

    assert_eq!(year.day(1), Day::from_ymd(2021, 1, 1, &eph));
}

#[test]
fn chinese_test_month() {
    let eph = eph_for_years(2023, 2023);
    let year = Year::from_y(2023, &eph).unwrap();
    assert_eq!(Month::from_ym(2023, 1, &eph).unwrap(), year.month(1).unwrap());
    assert_eq!(Month::from_ym(2023, 2, &eph).unwrap(), year.month(2).unwrap());
    assert_eq!(Month::from_ym(2023, 3, &eph).unwrap(), year.month(3).unwrap());
    assert_eq!(Month::from_ylm(2023, false, 1, &eph).unwrap(), year.month(1).unwrap());
    assert_eq!(Month::from_ylm(2023, false, 2, &eph).unwrap(), year.month(2).unwrap());
    assert_eq!(Month::from_ylm(2023, false, 3, &eph).unwrap(), year.month(4).unwrap());
    assert_eq!(Month::from_ylm(2023, true, 1, &eph), None);
    assert_eq!(Month::from_ylm(2023, true, 2, &eph).unwrap(), year.month(3).unwrap());
    assert_eq!(Month::from_ylm(2023, true, 3, &eph), None);
}

#[test]
fn chinese_test_day() {
    let eph = eph_for_years(1949, 1949);
    let day = Day::from_ymd(1949, 8, 10, &eph).unwrap();
    assert_eq!(
        day.stem_branch(),
        StemBranch::from_stem_branch(Stem::Jia, Branch::Zi).unwrap()
    );
}

#[test]
fn year_totals_in_range() {
    // every civil year from 1928 to 2056 has one of the five common day
    // totals -- except the rare 353-day years, which are listed -- and has
    // 13 months exactly when it has a leap slot
    let eph = eph_for_years(1928, 2056);
    let mut rare: Vec<(i16, usize)> = Vec::new();
    for y in 1928..=2056i16 {
        let cy = Year::from_y(y, &eph).unwrap();
        let total = cy.num_days();
        if !(total == 354 || total == 355 || total == 383 || total == 384 || total == 385) {
            rare.push((y, total));
        }
        assert_eq!(cy.num_months() == 13, cy.leap_month_slot() < 13);
        let mut sum = 0usize;
        for m in 1..=cy.num_months() {
            sum += cy.month(m as u8).unwrap().num_days();
        }
        assert_eq!(sum, total);
    }
    assert_eq!(rare, vec![(1965, 353)]);
}

#[test]
fn mid_term_rule() {
    // in the leap years of the two reference tables, the leap month holds
    // no mid-term and every other month holds exactly one
    let eph = eph_for_years(2014, 2023);
    for y in [2014i16, 2023] {
        let cy = Year::from_y(y, &eph).unwrap();
        assert!(cy.is_leap());
        let mut start = cy.first_day_date().jdn();
        for m in 0..cy.num_months() {
            let len = cy.month((m + 1) as u8).unwrap().num_days() as u32;
            let mut mid_terms = 0;
            for j in start..start + len {
                if let Some(t) = Date::from_jdn(j).solar_term(&eph) {
                    if t.is_mid_term() {
                        mid_terms += 1;
                    }
                }
            }
            if m as u8 == cy.leap_month_slot() {
                assert_eq!(mid_terms, 0, "leap month of {} holds a mid-term", y);
            } else {
                assert_eq!(mid_terms, 1, "month {} of {} holds {} mid-terms", m, y, mid_terms);
            }
            start += len;
        }
    }
}

#[test]
fn solar_terms_all_appear() {
    // across a solar year every term fires exactly once
    let eph = eph_for_years(2014, 2014);
    let start = gregorian_to_jdn(2014, 1, 1) as u32;
    let mut counts = [0u32; 24];
    for j in start..start + 365 {
        if let Some(t) = Date::from_jdn(j).solar_term(&eph) {
            counts[(t.ord() - 1) as usize] += 1;
        }
    }
    for (i, c) in counts.iter().enumerate() {
        assert_eq!(*c, 1, "term {} fired {} times", i, c);
    }
}

#[test]
fn chinese_date_roundtrip() {
    let eph = eph_for_years(2023, 2025);
    let start = gregorian_to_jdn(2023, 1, 1) as u32;
    let end = gregorian_to_jdn(2025, 12, 31) as u32;
    for j in start..=end {
        let date = Date::from_jdn(j);
        let cd = Day::from_date(date, &eph).unwrap();
        assert_eq!(cd.to_date().jdn(), j);
    }
    // walking by `succ` agrees with looking each date up afresh
    let mut cd = Day::from_date(Date::from_jdn(start), &eph).unwrap();
    for j in start..end {
        let next = cd.succ(&eph).unwrap();
        let direct = Day::from_date(Date::from_jdn(j + 1), &eph).unwrap();
        assert_eq!(next, direct);
        assert_eq!(next.pred(&eph).unwrap(), cd);
        cd = next;
    }
}

#[test]
fn chinese_day_labels() {
    let eph = eph_for_years(2021, 2021);
    // the first day of Chinese 2021 (a Xin-Chou year) is Gregorian 2021-02-12
    let day = Day::from_ymd(2021, 1, 1, &eph).unwrap();
    assert_eq!(day.to_date().jdn(), gregorian_to_jdn(2021, 2, 12) as u32);
    assert_eq!(day.the_year().stem().chinese(), "辛");
    assert_eq!(day.the_year().branch().chinese(), "丑");
    assert_eq!(day.the_month().ord_no_leap(), 1);
    assert!(!day.the_month().is_leap());
    assert_eq!(day.ord(), 1);
}

#[test]
fn winter_solstice_search() {
    let eph = eph_for_years(2023, 2023);
    let ws = omnical::chinese::get_winter_solstice(&eph, 2023).unwrap();
    assert_eq!(ws.jdn(), 2460301);
    assert_eq!(ws.solar_term(&eph), Some(SolarTerm::WinterSolstice));
    let nm = omnical::chinese::get_prev_new_moon(&eph, ws).unwrap();
    assert_eq!(nm.jdn(), 2460292);
}

#[test]
fn double_mid_term_month() {
    // the real sky puts two mid-terms in one lunar month late in 2033; the
    // first month without one is still the leap month, and the year builds
    let eph = eph_for_years(2033, 2033);
    let cy = Year::from_y(2033, &eph).unwrap();
    assert_eq!(cy.leap_month_slot(), 11);
    assert_eq!(cy.num_months(), 13);
    let mut counts: Vec<u32> = Vec::new();
    let mut start = cy.first_day_date().jdn();
    for m in 0..cy.num_months() {
        let len = cy.month((m + 1) as u8).unwrap().num_days() as u32;
        let mut mid_terms = 0;
        for j in start..start + len {
            if let Some(t) = Date::from_jdn(j).solar_term(&eph) {
                if t.is_mid_term() {
                    mid_terms += 1;
                }
            }
        }
        counts.push(mid_terms);
        start += len;
    }
    // the month before the leap month holds two mid-terms and the leap
    // month none; a mid-termless month of the year's opening 12-month
    // period (index 7) takes no leap, since the rule applies per period
    assert_eq!(counts, vec![1, 1, 1, 1, 1, 1, 1, 0, 1, 1, 2, 0, 2]);
}
