use omnical::gregorian::gregorian_to_jdn;
use omnical::{ChineseDay, Date, Ephemeris, GregorianCalendar};

fn build_eph(first_jdn: u32, days: u32, tz_min: i32) -> Ephemeris {
    let mut sun: Vec<i64> = Vec::new();
    let mut moon_sun: Vec<i64> = Vec::new();
    for i in 0..days {
        let jd = (first_jdn + i) as f64 - 0.5 - tz_min as f64 / 1440.0;
        let (sp, _) = astro::sun::geocent_ecl_pos(jd);
        let s_deg = sp.long.to_degrees();
        let (mp, _) = astro::lunar::geocent_ecl_pos(jd);
        let m_deg = mp.long.to_degrees();
        let ms = (m_deg - s_deg).rem_euclid(360.0);
        let s = ((s_deg.rem_euclid(360.0) * 1e9) as i64).rem_euclid(360_000_000_000);
        let m = ((ms * 1e9) as i64).rem_euclid(360_000_000_000);
        sun.push(s);
        moon_sun.push(m);
    }
    Ephemeris::new(first_jdn, sun, moon_sun).unwrap()
}

#[test]
fn verify_chinese_calendar() {
    let first = gregorian_to_jdn(1926, 11, 1) as u32;
    let last = gregorian_to_jdn(2058, 1, 15) as u32;
    let eph = build_eph(first, last - first + 1, 480);
    let mut v: Vec<((u16, u8, bool, u8), (u16, u8, bool, u8), (u16, u8, bool, u8))> = vec![];
    for year in 1928..2057i32 {
        let gyear = GregorianCalendar::from_y(year).unwrap();
        let mut chinese_day =
            ChineseDay::from_date(gyear.first_day().to_date(), &eph).unwrap();
        for day in gyear.days() {
            let m = day.the_month().ord();
            let d = day.ord();

            let y1 = chinese_day.the_year().ord() as u16;
            let m1 = chinese_day.the_month().ord_no_leap();
            let l1 = chinese_day.the_month().is_leap();
            let d1 = chinese_day.ord();

            let naive_date =
                chrono::NaiveDate::from_ymd_opt(year, m as u32, d as u32).unwrap();

            let lunisolar_date =
                chinese_lunisolar_calendar::LunisolarDate::from_date(naive_date).unwrap();
            let y2 = lunisolar_date.to_lunisolar_year().to_u16();
            let m2 = lunisolar_date.to_lunar_month().to_u8();
            let l2 = lunisolar_date.to_lunar_month().is_leap_month();
            let d2 = lunisolar_date.to_lunar_day().to_u8();

            let nongli_date = nongli::ChineseDate::from_gregorian(&naive_date).unwrap();
            let y3 = nongli_date.year() as u16;
            let m3 = nongli_date.month();
            let l3 = nongli_date.leap();
            let d3 = nongli_date.day();

            if (y1, m1, l1, d1) != (y2, m2, l2, d2) || (y1, m1, l1, d1) != (y3, m3, l3, d3) {
                v.push(((y1, m1, l1, d1), (y2, m2, l2, d2), (y3, m3, l3, d3)));
            }

            chinese_day = chinese_day.succ(&eph).unwrap();
        }
    }
    assert_eq!(v, vec![]);
}
