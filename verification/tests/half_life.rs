use decay_data::{Decimal, Error, HalfLife, TimeUnit};

fn isclose(a: f64, b: f64) -> bool {
    (a - b).abs() <= 1e-8 + 1e-5 * b.abs()
}

fn number(d: &Decimal) -> f64 {
    d.to_string().parse().unwrap()
}

#[test]
fn halflife_from_string() {
    let t1: HalfLife = "1 us".parse().unwrap();
    assert!(isclose(number(t1.value()), 1.));
    assert_eq!(t1.unit(), TimeUnit::MicroSecond);

    let t2: HalfLife = "2h".parse().unwrap();
    assert!(isclose(number(t2.value()), 2.));
    assert_eq!(t2.unit(), TimeUnit::Hour);

    let t3: HalfLife = "10y".parse().unwrap();
    assert!(isclose(number(t3.value()), 10.));
    assert_eq!(t3.unit(), TimeUnit::Year);

    let t4: HalfLife = "1.1 s".parse().unwrap();
    assert!(isclose(number(t4.value()), 1.1));
    assert_eq!(t4.unit(), TimeUnit::Second);
}

#[test]
fn halflife_to_string() {
    let t1: HalfLife = "1us".parse().unwrap();
    assert_eq!(t1.to_string(), "1 us");

    let t2: HalfLife = "10y".parse().unwrap();
    assert_eq!(t2.to_string(), "10 y");

    let t3: HalfLife = "1.1s".parse().unwrap();
    assert_eq!(t3.to_string(), "1.1 s");
}

#[test]
fn halflife_as_sec() {
    let t1: HalfLife = "1us".parse().unwrap();
    assert!(isclose(number(&t1.as_sec()), 1e-6));

    let t2: HalfLife = "10y".parse().unwrap();
    assert!(isclose(number(&t2.as_sec()), 10. * 365.2422 * 86400.));
}

#[test]
fn every_unit_code_is_read() {
    let cases = [
        ("3us", TimeUnit::MicroSecond),
        ("3ms", TimeUnit::MilliSecond),
        ("3s", TimeUnit::Second),
        ("3m", TimeUnit::Minute),
        ("3h", TimeUnit::Hour),
        ("3d", TimeUnit::Day),
        ("3y", TimeUnit::Year),
    ];
    for (text, unit) in cases {
        let h = HalfLife::from_str(text).unwrap();
        assert_eq!(h.unit(), unit);
        assert_eq!(h.value().digits(), &[3u8][..]);
        assert_eq!(h.value().exponent(), 0);
        let spaced = format!("3 {}", &text[1..]);
        assert_eq!(HalfLife::from_str(&spaced).unwrap(), h);
    }
}

#[test]
fn unit_seconds_are_exact() {
    let expected: [(TimeUnit, &[u8], i128); 7] = [
        (TimeUnit::MicroSecond, &[1], -6),
        (TimeUnit::MilliSecond, &[1], -3),
        (TimeUnit::Second, &[1], 0),
        (TimeUnit::Minute, &[6], 1),
        (TimeUnit::Hour, &[3, 6], 2),
        (TimeUnit::Day, &[8, 6, 4], 2),
        (TimeUnit::Year, &[3, 1, 5, 5, 6, 9, 2, 6, 0, 8], -2),
    ];
    for (unit, digits, exponent) in expected {
        let seconds = unit.as_sec();
        assert_eq!(seconds.digits(), digits);
        assert_eq!(seconds.exponent(), exponent);
    }
    assert_eq!(TimeUnit::Year.as_sec().to_string(), "31556926.08");
    assert_eq!(TimeUnit::MicroSecond.as_sec().to_string(), "0.000001");
    assert_eq!(TimeUnit::Day.as_sec().to_string(), "86400");
}

#[test]
fn seconds_are_the_exact_product() {
    let ten_years = HalfLife::from_str("10y").unwrap().as_sec();
    assert_eq!(ten_years.to_string(), "315569260.8");
    assert_eq!(ten_years.digits(), &[3u8, 1, 5, 5, 6, 9, 2, 6, 0, 8][..]);
    assert_eq!(ten_years.exponent(), -1);

    assert_eq!(HalfLife::from_str("5.27y").unwrap().as_sec().to_string(), "166305000.4416");
    assert_eq!(HalfLife::from_str("2.5e3 ms").unwrap().as_sec().to_string(), "2.5");
    assert_eq!(HalfLife::from_str("90m").unwrap().as_sec().to_string(), "5400");
    assert_eq!(HalfLife::from_str("0.5d").unwrap().as_sec().to_string(), "43200");
    assert_eq!(
        HalfLife::from_str("123456789012345678901234567890h").unwrap().as_sec().to_string(),
        "444444440444444444044444444404000"
    );
}

#[test]
fn written_forms_of_the_number() {
    let cases = [
        ("12y", "12 y"),
        ("12.y", "12 y"),
        ("12.0y", "12 y"),
        ("012.50y", "12.5 y"),
        ("1e3y", "1000 y"),
        ("1E3y", "1000 y"),
        ("1e+3y", "1000 y"),
        ("1.5e-3y", "0.0015 y"),
        ("0.00120e1y", "0.012 y"),
        ("120e-1 y", "12 y"),
        ("1\ty", "1 y"),
        ("1\u{a0}y", "1 y"),
    ];
    for (text, shown) in cases {
        let h = HalfLife::from_str(text).unwrap();
        assert_eq!(h.to_string(), shown, "{}", text);
    }
}

#[test]
fn other_texts_are_refused_with_the_text() {
    let refused = [
        "", "10", "y", "10 ", " 10y", "10y ", "10  y", "10yr", "10 years", "abc", "1e y", "1ey",
        "1e+y", ".5y", "-1y", "+1y", "1,5y", "1.5.2y", "10μs", "10 us ", "10US", "10Y", "1 e3y",
        "٣y", "1_0y", "0x10y", "10 min",
    ];
    for text in refused {
        match HalfLife::from_str(text) {
            Err(Error::InvalidHalfLife(t)) => assert_eq!(t, text),
            other => panic!("{:?} gave {:?}", text, other),
        }
    }
}

#[test]
fn zero_and_numbers_out_of_range_are_refused() {
    let refused = [
        "0y", "0.0s", "0e5d", "000h", "1e309y", "10e308y", "1.8e308y", "9.99e308y", "1e-324y",
        "1000e-327y", "2e-324y", "1e-325y", "0.1e-324y",
        "1.7976931348623159e308y", "2.4703282292062327e-324y",
        "1e99999999999999999999999999999999999999999999y",
        "1e-99999999999999999999999999999999999999999999y",
    ];
    for text in refused {
        match HalfLife::from_str(text) {
            Err(Error::InvalidHalfLife(t)) => assert_eq!(t, text),
            other => panic!("{:?} gave {:?}", text, other),
        }
    }
    let read = [
        "1e308y", "0.001e311y", "1.7976931348623157e308y", "1.7976931348623158e308y",
        "2.4703282292062328e-324y", "3e-324y", "5e-324y", "4.9e-324 s", "1e-323y",
    ];
    for text in read {
        assert!(HalfLife::from_str(text).is_ok(), "{}", text);
    }
}

#[test]
fn range_ends_where_floating_point_ends() {
    let high = &Decimal::finite_limit().to_string();
    let low_digits: String =
        Decimal::positive_limit().digits().iter().map(|d| char::from(b'0' + d)).collect();
    let low = &low_digits;
    assert_eq!(high.len(), 309);
    assert_eq!(low.len(), 752);
    assert!(high.parse::<f64>().unwrap().is_infinite());
    assert!(HalfLife::from_str(&format!("{}y", high)).is_err());
    let under = format!("{}1", &high[..308]);
    assert_eq!(under.parse::<f64>().unwrap(), f64::MAX);
    assert!(HalfLife::from_str(&format!("{}y", under)).is_ok());
    assert!(HalfLife::from_str(&format!("{}.5y", under)).is_ok());
    assert!(HalfLife::from_str(&format!("{}.000y", high)).is_err());
    assert!(HalfLife::from_str(&format!("{}.001y", high)).is_err());

    let exact = format!("{}e-1075", low);
    assert_eq!(exact.parse::<f64>().unwrap(), 0.0);
    assert!(HalfLife::from_str(&format!("{}y", exact)).is_err());
    let over = format!("{}1e-1076", low);
    assert!(over.parse::<f64>().unwrap() > 0.0);
    assert!(HalfLife::from_str(&format!("{}y", over)).is_ok());
    let under = format!("{}4e-1075", &low[..751]);
    assert_eq!(under.parse::<f64>().unwrap(), 0.0);
    assert!(HalfLife::from_str(&format!("{}y", under)).is_err());
    let plain = format!("0.{}{}1y", "0".repeat(323), low);
    assert!(HalfLife::from_str(&plain).is_ok());
}

#[test]
fn shown_half_life_reads_back() {
    let texts = [
        "10y", "1.1 s", "2h", "5.27y", "1e3 d", "7.5e-4 m", "250ms", "1e308y", "5e-324s", "1us",
        "0.3 us", "4e7us",
    ];
    for text in texts {
        let h = HalfLife::from_str(text).unwrap();
        let again = HalfLife::from_str(&h.to_string()).unwrap();
        assert_eq!(again, h, "{}", text);
    }
}

#[test]
fn shown_microseconds_read_back() {
    let h = HalfLife::from_str("1us").unwrap();
    assert_eq!(h.to_string(), "1 us");
    assert_eq!(HalfLife::from_str(&h.to_string()).unwrap(), h);
    let small = HalfLife::from_str("2.5e-3 us").unwrap();
    assert_eq!(small.to_string(), "0.0025 us");
    assert_eq!(HalfLife::from_str(&small.to_string()).unwrap(), small);
    assert_eq!(small.unit(), TimeUnit::MicroSecond);
}

#[test]
fn every_unit_is_shown_by_the_code_that_is_read() {
    let units = [
        (TimeUnit::MicroSecond, "us"),
        (TimeUnit::MilliSecond, "ms"),
        (TimeUnit::Second, "s"),
        (TimeUnit::Minute, "m"),
        (TimeUnit::Hour, "h"),
        (TimeUnit::Day, "d"),
        (TimeUnit::Year, "y"),
    ];
    for (unit, code) in units {
        assert_eq!(unit.to_string(), code);
        assert_eq!(TimeUnit::from_code(&unit.to_string()), Some(unit));
        let h = HalfLife::new(Decimal::parse("12.5").unwrap(), unit).unwrap();
        assert_eq!(h.to_string(), format!("12.5 {}", code));
        let again = HalfLife::from_str(&h.to_string()).unwrap();
        assert_eq!(again, h);
        assert_eq!(again.unit(), unit);
        let a: f64 = again.value().to_string().parse().unwrap();
        let b: f64 = h.value().to_string().parse().unwrap();
        assert!(isclose(a, b));
    }
}

#[test]
fn unit_symbols_and_codes() {
    assert_eq!(TimeUnit::MicroSecond.to_string(), "us");
    assert_eq!(TimeUnit::MilliSecond.to_string(), "ms");
    assert_eq!(TimeUnit::Second.to_string(), "s");
    assert_eq!(TimeUnit::Minute.to_string(), "m");
    assert_eq!(TimeUnit::Hour.to_string(), "h");
    assert_eq!(TimeUnit::Day.to_string(), "d");
    assert_eq!(TimeUnit::Year.to_string(), "y");
    assert_eq!(TimeUnit::from_code("us"), Some(TimeUnit::MicroSecond));
    assert_eq!(TimeUnit::from_code("ms"), Some(TimeUnit::MilliSecond));
    assert_eq!(TimeUnit::from_code("y"), Some(TimeUnit::Year));
    assert_eq!(TimeUnit::from_code("μs"), None);
    assert_eq!(TimeUnit::from_code(""), None);
    assert_eq!(TimeUnit::from_code("sec"), None);
}

#[test]
fn show_leaves_out_point_zero() {
    assert_eq!(decay_data::half_life::show("10.0", TimeUnit::Year), "10 y");
    assert_eq!(decay_data::half_life::show("1.1", TimeUnit::Second), "1.1 s");
    assert_eq!(decay_data::half_life::show("1.0", TimeUnit::MicroSecond), "1 us");
    assert_eq!(decay_data::half_life::show("1.2e8", TimeUnit::Day), "1.2e8 d");
    assert_eq!(decay_data::half_life::show(".0", TimeUnit::Hour), " h");
    assert_eq!(decay_data::half_life::show("0", TimeUnit::Hour), "0 h");
}

#[test]
fn new_takes_positive_numbers_in_range() {
    let five = Decimal::parse("5").unwrap();
    let h = HalfLife::new(five, TimeUnit::Day).unwrap();
    assert_eq!(h.to_string(), "5 d");
    assert!(HalfLife::new(Decimal::parse("0").unwrap(), TimeUnit::Day).is_none());
    assert!(HalfLife::new(TimeUnit::Year.as_sec(), TimeUnit::Second).is_some());
}
