use omnical::{Date, Ephemeris, LunarPhase, SolarTerm, Weekday};

fn build_eph(first_jdn: u32, days: u32, tz_min: i32) -> Ephemeris {
    let mut sun: Vec<i64> = Vec::new();
    let mut moon_sun: Vec<i64> = Vec::new();
    for i in 0..days {
        let jd = (first_jdn + i) as f64 - 0.5 - tz_min as f64 / 1440.0;
        let (sp, _) = astro::sun::geocent_ecl_pos(jd);
        let s_deg = sp.long.to_degrees();
        let (mp, _) = astro::lunar::geocent_ecl_pos(jd);
        let m_deg = mp.long.to_degrees();
        let ms = (m_deg - s_deg).rem_euclid(360.0);
        let s = ((s_deg.rem_euclid(360.0) * 1e9) as i64).rem_euclid(360_000_000_000);
        let m = ((ms * 1e9) as i64).rem_euclid(360_000_000_000);
        sun.push(s);
        moon_sun.push(m);
    }
    Ephemeris::new(first_jdn, sun, moon_sun).unwrap()
}

#[test]
fn test_weekday() {
    let variants = [
        Weekday::Monday,
        Weekday::Tuesday,
        Weekday::Wednesday,
        Weekday::Thursday,
        Weekday::Friday,
        Weekday::Saturday,
        Weekday::Sunday,
    ];
    assert_eq!(variants.len(), 7);
    for (i, w) in variants.iter().enumerate() {
        assert_eq!(Weekday::from_repr(i), Some(*w));
    }

    let mon = Weekday::from_name("Monday").unwrap();
    assert_eq!(mon as i8, 0);
    assert_eq!(mon.name(), "Monday");

    let sun = Weekday::from_repr(6).unwrap();
    assert_eq!(sun as i8, 6);
    assert_eq!(sun.name(), "Sunday");

    assert!(Weekday::from_name("Badday").is_none());
    assert!(Weekday::from_repr(7).is_none());

    assert!(Weekday::from_ord(0).is_none());
    assert_eq!(mon.ord(), 1);
    assert_eq!(sun.ord(), 7);

    assert_eq!(Weekday::Monday.succ(), Weekday::Tuesday);
    assert_eq!(Weekday::Monday.pred(), Weekday::Sunday);
    assert_eq!(Weekday::Sunday.pred(), Weekday::Saturday);
    assert_eq!(Weekday::Sunday.succ(), Weekday::Monday);

    assert_eq!(sun.chinese(0), "星期日");
    assert_eq!(sun.chinese(2), "周日");
    assert_eq!(sun.chinese(1), "日");
}

#[test]
fn test_date() {
    let d1 = Date::from_jdn(2299160);
    let d2 = Date::from_jdn(2299161);
    assert_eq!(d1.weekday(), Weekday::Thursday);
    assert_eq!(d2.weekday(), Weekday::Friday);
    assert_eq!(Date::from_jdn(2446324).weekday(), Weekday::Sunday);
    assert_eq!(Date::from_jdn(2460351).weekday(), Weekday::Saturday);

    let eph = build_eph(2460280, 40, 480);
    assert_eq!(
        Date::from_jdn(2460301).solar_term(&eph),
        Some(SolarTerm::WinterSolstice)
    );
    assert_eq!(Date::from_jdn(2460292).lunar_phase(&eph), LunarPhase::NewMoon);

    assert_eq!(d2.diff(&d1), 1);
}

#[test]
fn date_arithmetic() {
    let d = Date::from_jdn(2451545);
    assert_eq!(d.add_days(10).diff(&d), 10);
    assert_eq!(d.add_days(-10).diff(&d), -10);
    assert_eq!(d.add_days(10).add_days(-10), d);
    assert_eq!(d.succ().pred(), d);
    assert_eq!(d.pred().succ(), d);
    assert_eq!(d.succ().diff(&d), 1);
    assert_eq!(d.weekday(), d.add_days(7).weekday());
    // saturation at the bounds
    assert_eq!(Date::from_jdn(0).pred().jdn(), 0);
    assert_eq!(Date::from_jdn(u32::MAX).succ().jdn(), u32::MAX);
    assert_eq!(Date::from_jdn(5).add_days(-9).jdn(), 0);
    // dates are ordered by their day numbers
    assert!(d < d.succ());
    assert!(d.pred() < d);
    assert!(d >= d);
}

#[test]
fn date_from_unix_time() {
    // the Unix epoch fell on JDN 2440588, a Thursday
    assert_eq!(Date::from_unix_time(0).jdn(), 2440588);
    assert_eq!(Date::from_unix_time(0).weekday(), Weekday::Thursday);
    assert_eq!(Date::from_unix_time(86399).jdn(), 2440588);
    assert_eq!(Date::from_unix_time(86400).jdn(), 2440589);
    // the timezone shift is subtracted from the instant before flooring
    assert_eq!(Date::from_unix_time_with_tz(0, 0).jdn(), 2440588);
    assert_eq!(Date::from_unix_time_with_tz(86400, 480), Date::from_unix_time(86400 - 480 * 60));
}
