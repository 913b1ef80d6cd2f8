use omnical::{Ephemeris, LunarPhase, SolarTerm};

const G: i64 = 1_000_000_000;

#[test]
fn test_solar_term() {
    assert!(SolarTerm::WinterSolstice.is_mid_term());
    assert!(!SolarTerm::PureBrightness.is_mid_term());

    assert_eq!(SolarTerm::WinterSolstice.pred(), SolarTerm::MajorSnow);
    assert_eq!(SolarTerm::MajorSnow.succ(), SolarTerm::WinterSolstice);
    assert_eq!(SolarTerm::WinterSolstice.succ(), SolarTerm::MinorCold);
    assert_eq!(SolarTerm::MinorCold.pred(), SolarTerm::WinterSolstice);

    assert_eq!(SolarTerm::WinterSolstice.degrees(), 270 * G);
    assert_eq!(SolarTerm::SpringEquinox.degrees(), 0);
    assert_eq!(SolarTerm::PureBrightness.degrees(), 15 * G);

    assert_eq!(SolarTerm::from_degree_range(0, G), Some(SolarTerm::SpringEquinox));
    assert_eq!(SolarTerm::from_degree_range(269 * G, 286 * G), Some(SolarTerm::WinterSolstice));
    assert_eq!(SolarTerm::from_degree_range(-G, 361 * G), Some(SolarTerm::SpringEquinox));
    assert_eq!(SolarTerm::from_degree_range(0, G), Some(SolarTerm::SpringEquinox));
    assert_eq!(SolarTerm::from_degree_range(271 * G, 285 * G), None);
}

#[test]
fn test_lunar_phase() {
    assert_eq!(LunarPhase::NewMoon.pred(), LunarPhase::WaningCrescent);
    assert_eq!(LunarPhase::WaningCrescent.succ(), LunarPhase::NewMoon);
    assert_eq!(LunarPhase::NewMoon.succ(), LunarPhase::WaxingCrescent);
    assert_eq!(LunarPhase::WaxingCrescent.pred(), LunarPhase::NewMoon);

    assert_eq!(LunarPhase::NewMoon.degrees(), 0);
    assert_eq!(LunarPhase::FullMoon.degrees(), 180 * G);
    assert_eq!(LunarPhase::WaningGibbous.degrees(), 225 * G);

    assert_eq!(LunarPhase::from_degree_range(-G, G), LunarPhase::NewMoon);
    assert_eq!(LunarPhase::from_degree_range(G, 89 * G), LunarPhase::WaxingCrescent);
    assert_eq!(LunarPhase::from_degree_range(G, 179 * G), LunarPhase::FirstQuarter);
    assert_eq!(LunarPhase::from_degree_range(91 * G, 179 * G), LunarPhase::WaxingGibbous);
    assert_eq!(LunarPhase::from_degree_range(179 * G, 181 * G), LunarPhase::FullMoon);
    assert_eq!(LunarPhase::from_degree_range(181 * G, 269 * G), LunarPhase::WaningGibbous);
    assert_eq!(LunarPhase::from_degree_range(181 * G, 359 * G), LunarPhase::LastQuarter);
    assert_eq!(LunarPhase::from_degree_range(271 * G, 359 * G), LunarPhase::WaningCrescent);
}

#[test]
fn labels_and_ordinals() {
    assert_eq!(SolarTerm::WinterSolstice.chinese(), "冬至");
    assert_eq!(SolarTerm::MajorSnow.chinese(), "大雪");
    assert_eq!(SolarTerm::WinterSolstice.ord(), 1);
    assert_eq!(SolarTerm::from_ord(1), Some(SolarTerm::WinterSolstice));
    assert_eq!(SolarTerm::from_ord(24), Some(SolarTerm::MajorSnow));
    assert_eq!(SolarTerm::from_ord(0), None);
    assert_eq!(SolarTerm::from_ord(25), None);

    assert_eq!(LunarPhase::NewMoon.chinese(), "新月");
    assert_eq!(LunarPhase::NewMoon.emoji(), "\u{1F311}");
    assert_eq!(LunarPhase::WaningCrescent.emoji(), "\u{1F318}");
    let emojis: Vec<&str> = (0..8).map(|i| LunarPhase::from_repr(i).unwrap().emoji()).collect();
    assert_eq!(emojis.concat(), "🌑🌒🌓🌔🌕🌖🌗🌘");
}

#[test]
fn ephemeris_rejects_bad_tables() {
    // mismatched column lengths
    assert!(Ephemeris::new(10, vec![0, 0], vec![0]).is_none());
    // a sample out of the normalized range
    assert!(Ephemeris::new(10, vec![360 * G], vec![0]).is_none());
    assert!(Ephemeris::new(10, vec![-1], vec![0]).is_none());
    assert!(Ephemeris::new(10, vec![0], vec![360 * G]).is_none());
    // a table running past the largest day number
    assert!(Ephemeris::new(u32::MAX, vec![0, 0], vec![0, 0]).is_none());
    // a sound table
    let e = Ephemeris::new(10, vec![0, 15 * G], vec![0, 90 * G]).unwrap();
    assert_eq!(e.first_day(), 10);
    assert_eq!(e.len(), 2);
    assert_eq!(e.sun_at(11), 15 * G);
    assert_eq!(e.moon_sun_at(10), 0);
}
