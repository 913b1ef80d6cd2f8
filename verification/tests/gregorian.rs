use omnical::gregorian::{gregorian_to_jdn, jdn_to_gregorian};
use omnical::{GregorianCalendar as Calendar, MonthName, Weekday};

fn check_pg_jdn(y: i32, m: u8, d: u8, jdn: i64) {
    assert_eq!(gregorian_to_jdn(y, m, d), jdn);
    if 0 <= jdn && jdn <= u32::MAX as i64 {
        assert_eq!(jdn_to_gregorian(jdn as u32), (y, m, d));
    }
}

#[test]
fn test_proleptic_gregorian_and_julian_day() {
    check_pg_jdn(2000, 1, 1, 2451545);
    check_pg_jdn(1999, 1, 1, 2451180);
    check_pg_jdn(1987, 1, 27, 2446823);
    check_pg_jdn(1987, 6, 19, 2446966);
    check_pg_jdn(1988, 1, 27, 2447188);
    check_pg_jdn(1988, 6, 19, 2447332);
    check_pg_jdn(1900, 1, 1, 2415021);
    check_pg_jdn(1600, 1, 1, 2305448);
    check_pg_jdn(1600, 12, 31, 2305813);
    check_pg_jdn(1582, 10, 4, 2299150);
    check_pg_jdn(1582, 10, 15, 2299161);
    check_pg_jdn(1, 1, 1, 1721426);
    check_pg_jdn(0, 1, 1, 1721060);
    check_pg_jdn(-4713, 11, 24, 0);
}

#[test]
fn gregorian_test_year() {
    let year = Calendar::from_y(1985).unwrap();
    assert_eq!(year.ord(), 1985);
    assert!(!year.is_leap());
    assert_eq!(year.num_months(), 12);
    assert_eq!(year.num_days(), 365);

    assert!(Calendar::from_y(2024).unwrap().is_leap());
    assert!(Calendar::from_y(2000).unwrap().is_leap());
    assert!(!Calendar::from_y(1900).unwrap().is_leap());

    assert!(year < Calendar::from_y(1986).unwrap());
    assert!(Calendar::from_y(1984).unwrap() < year);
    assert_eq!(year.succ(), Calendar::from_y(1986).unwrap());
    assert_eq!(year.pred(), Calendar::from_y(1984).unwrap());

    assert_eq!(year.month(1).unwrap(), year.month_by_name(MonthName::January));
    assert_eq!(year.day(1).unwrap(), Calendar::from_ymd(1985, 1, 1).unwrap());
    assert_eq!(year.day(365).unwrap(), Calendar::from_ymd(1985, 12, 31).unwrap());
}

#[test]
fn test_month_name() {
    let variants = [
        MonthName::January,
        MonthName::February,
        MonthName::March,
        MonthName::April,
        MonthName::May,
        MonthName::June,
        MonthName::July,
        MonthName::August,
        MonthName::September,
        MonthName::October,
        MonthName::November,
        MonthName::December,
    ];
    assert_eq!(variants.len(), 12);
    for (i, mn) in variants.iter().enumerate() {
        assert_eq!(MonthName::from_repr(i), Some(*mn));
    }

    let jan = MonthName::from_name("January").unwrap();
    assert_eq!(jan as u8, 0);
    assert_eq!(jan.ord(), 1);
    assert_eq!(jan.name(), "January");

    let dec = MonthName::from_repr(11).unwrap();
    assert_eq!(dec as u8, 11);
    assert_eq!(dec.ord(), 12);
    assert_eq!(dec.name(), "December");

    assert!(MonthName::from_name("Invalid").is_none());
    assert!(MonthName::from_repr(12).is_none());
    assert_eq!(MonthName::from_ord(9), Some(MonthName::September));

    assert_eq!(MonthName::January.succ(), Some(MonthName::February));
    assert_eq!(MonthName::January.pred(), None);
    assert_eq!(MonthName::December.pred(), Some(MonthName::November));
    assert_eq!(MonthName::December.succ(), None);
}

#[test]
fn gregorian_test_month() {
    let month = Calendar::from_yn(1985, MonthName::September).unwrap();
    assert_eq!(month.the_year().ord(), 1985);
    assert_eq!(month.ord(), 9);
    assert!(!month.is_leap());
    assert_eq!(month.num_days(), 30);

    assert!(!Calendar::from_yn(1985, MonthName::February).unwrap().is_leap());
    assert!(Calendar::from_yn(2024, MonthName::February).unwrap().is_leap());
    assert!(Calendar::from_yn(2000, MonthName::February).unwrap().is_leap());
    assert!(!Calendar::from_yn(1900, MonthName::February).unwrap().is_leap());

    assert_eq!(Calendar::from_yn(1986, MonthName::January).unwrap().num_days(), 31);

    assert_eq!(Calendar::from_ym(2024, 0), None);
    assert_eq!(Calendar::from_ym(2024, 13), None);
    assert_eq!(Calendar::from_ym(2024, 2), Calendar::from_yn(2024, MonthName::February));

    assert_eq!(month.succ(), Calendar::from_yn(1985, MonthName::October).unwrap());
    assert_eq!(month.pred(), Calendar::from_yn(1985, MonthName::August).unwrap());
    assert_eq!(
        Calendar::from_yn(2024, MonthName::January).unwrap().pred(),
        Calendar::from_yn(2023, MonthName::December).unwrap()
    );
    assert_eq!(
        Calendar::from_yn(2023, MonthName::December).unwrap().succ(),
        Calendar::from_yn(2024, MonthName::January).unwrap()
    );
}

#[test]
fn gregorian_test_day() {
    assert_eq!(Calendar::from_ymd(-4713, 11, 24).unwrap().jdn(), 0);
    assert_eq!(Calendar::from_ymd(2000, 1, 1).unwrap().jdn(), 2451545);

    assert_eq!(Calendar::from_ymd(1582, 10, 15).unwrap().weekday(), Weekday::Friday);
    assert_eq!(Calendar::from_ymd(1985, 9, 15).unwrap().weekday(), Weekday::Sunday);
    assert_eq!(Calendar::from_ymd(2024, 2, 11).unwrap().weekday(), Weekday::Sunday);

    assert_ne!(Calendar::from_ymd(2024, 2, 29), None);
    assert_eq!(Calendar::from_ymd(2022, 2, 29), None);

    let last_day_of_2023 = Calendar::from_ymd(2023, 12, 31).unwrap();
    let first_day_of_2024 = Calendar::from_ymd(2024, 1, 1).unwrap();
    assert_eq!(last_day_of_2023.succ(), first_day_of_2024);
    assert_eq!(first_day_of_2024.pred(), last_day_of_2023);
}

#[test]
fn gregorian_roundtrip_sampled() {
    // jdn -> (y, m, d) -> jdn over a wide sample of the whole day range
    let mut jdn: u32 = 0;
    while jdn < 3_000_000_000 {
        let (y, m, d) = jdn_to_gregorian(jdn);
        assert_eq!(gregorian_to_jdn(y, m, d), jdn as i64);
        jdn = jdn.saturating_add(99_991);
    }
    // (y, m, d) -> jdn -> (y, m, d) across every day of a leap and a
    // common year, and around the anchor of the day count
    for y in [-4713, 1900, 1999, 2000, 2024] {
        for m in 1..=12u8 {
            for d in 1..=31u8 {
                if let Some(day) = Calendar::from_ymd(y, m, d) {
                    let j = day.jdn();
                    if j > 0 {
                        assert_eq!(jdn_to_gregorian(j), (y, m, d));
                    }
                }
            }
        }
    }
}

#[test]
fn gregorian_day_iteration() {
    let year = Calendar::from_y(2024).unwrap();
    let days = year.days();
    assert_eq!(days.len(), 366);
    assert_eq!(days[0], Calendar::from_ymd(2024, 1, 1).unwrap());
    assert_eq!(days[365], Calendar::from_ymd(2024, 12, 31).unwrap());
    let months = year.months();
    assert_eq!(months.len(), 12);
    assert_eq!(months[1].num_days(), 29);
    let feb = months[1];
    assert_eq!(feb.first_day(), Calendar::from_ymd(2024, 2, 1).unwrap());
    assert_eq!(feb.last_day(), Calendar::from_ymd(2024, 2, 29).unwrap());
    assert_eq!(feb.days().len(), 29);
    assert_eq!(Calendar::from_yo(2024, 60), Calendar::from_ymd(2024, 2, 29));
    assert_eq!(Calendar::from_yo(2024, 367), None);
    assert_eq!(Calendar::from_ynd(2024, MonthName::February, 29), Calendar::from_ymd(2024, 2, 29));
}
