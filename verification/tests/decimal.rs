use decay_data::{Decimal, Error};

#[test]
fn decimal_is_kept_in_canonical_form() {
    let cases: [(&str, &[u8], i128, &str); 10] = [
        ("0", &[], 0, "0"),
        ("000.000", &[], 0, "0"),
        ("0e17", &[], 0, "0"),
        ("1", &[1], 0, "1"),
        ("100", &[1], 2, "100"),
        ("1.0000E+00", &[1], 0, "1"),
        ("0.25", &[2, 5], -2, "0.25"),
        ("0012.3400", &[1, 2, 3, 4], -2, "12.34"),
        ("6.02e23", &[6, 0, 2], 21, "602000000000000000000000"),
        ("1.5e-7", &[1, 5], -8, "0.00000015"),
    ];
    for (text, digits, exponent, shown) in cases {
        let d = Decimal::parse(text).unwrap();
        assert_eq!(d.digits(), digits, "{}", text);
        assert_eq!(d.exponent(), exponent, "{}", text);
        assert_eq!(d.to_string(), shown, "{}", text);
        assert_eq!(d.is_zero(), digits.is_empty());
    }
}

#[test]
fn decimal_refuses_other_texts() {
    let refused = [
        "", " ", "1 ", " 1", "1y", "abc", ".5", "-1", "+1", "1e", "1e+", "1e-", "e5", "1.2.3",
        "1,5", "1e5.5", "1e309", "2e308", "1e-325", "2e-324", "NaN", "inf", "١",
    ];
    for text in refused {
        match Decimal::parse(text) {
            Err(Error::InvalidFloat(t)) => assert_eq!(t, text),
            other => panic!("{:?} gave {:?}", text, other),
        }
    }
}

#[test]
fn decimal_reads_back_what_it_writes() {
    let texts = ["0", "1", "10", "0.1", "123.456", "1e300", "1e-300", "1.797e308", "3e-324"];
    for text in texts {
        let d = Decimal::parse(text).unwrap();
        assert_eq!(Decimal::parse(&d.to_string()).unwrap(), d, "{}", text);
    }
}

#[test]
fn decimal_agrees_with_floating_point() {
    let texts = ["5.27", "1.1", "0.000123", "3155692608e-2", "1e21", "2.5E-3"];
    for text in texts {
        let d = Decimal::parse(text).unwrap();
        let through: f64 = d.to_string().parse().unwrap();
        let direct: f64 = text.parse().unwrap();
        assert_eq!(through, direct, "{}", text);
    }
}

#[test]
fn decimal_range() {
    assert!(Decimal::parse("1e308").unwrap().in_range());
    assert!(Decimal::parse("0").unwrap().in_range());
    let big = decay_data::HalfLife::from_str("1e308y").unwrap().as_sec();
    assert!(!big.in_range());
    assert_eq!(big.exponent(), 306);
}

fn next(state: &mut u64) -> u64 {
    *state = state.wrapping_mul(6364136223846793005).wrapping_add(1442695040888963407);
    *state >> 33
}

fn digits(state: &mut u64, count: u64) -> String {
    (0..count).map(|_| char::from(b'0' + (next(state) % 10) as u8)).collect()
}

#[test]
fn many_written_forms_agree_with_floating_point() {
    let mut state = 20261028u64;
    for _ in 0..2000 {
        let whole_len = 1 + next(&mut state) % 12;
        let mut text = digits(&mut state, whole_len);
        if next(&mut state) % 2 == 0 {
            text.push('.');
            let fraction_len = next(&mut state) % 12;
            text.push_str(&digits(&mut state, fraction_len));
        }
        if next(&mut state) % 2 == 0 {
            text.push(if next(&mut state) % 2 == 0 { 'e' } else { 'E' });
            match next(&mut state) % 3 {
                0 => text.push('+'),
                1 => text.push('-'),
                _ => {}
            }
            text.push_str(&(next(&mut state) % 250).to_string());
        }
        let d = Decimal::parse(&text).unwrap();
        let direct: f64 = text.parse().unwrap();
        let through: f64 = d.to_string().parse().unwrap();
        assert_eq!(through, direct, "{}", text);
        assert_eq!(Decimal::parse(&d.to_string()).unwrap(), d, "{}", text);
        assert_eq!(d.is_zero(), direct == 0.0, "{}", text);
    }
}

#[test]
fn seconds_agree_with_floating_point() {
    let mut state = 107u64;
    let units = [("us", 1e-6), ("ms", 1e-3), ("s", 1.), ("m", 60.), ("h", 3600.), ("d", 86400.), ("y", 365.2422 * 86400.)];
    for _ in 0..1000 {
        let whole_len = 1 + next(&mut state) % 6;
        let fraction_len = 1 + next(&mut state) % 6;
        let number = format!("{}.{}1", digits(&mut state, whole_len), digits(&mut state, fraction_len));
        let (code, seconds) = units[(next(&mut state) % 7) as usize];
        let text = format!("{}{}", number, code);
        let h = decay_data::HalfLife::from_str(&text).unwrap();
        let exact: f64 = h.as_sec().to_string().parse().unwrap();
        let value: f64 = number.parse().unwrap();
        let float = value * seconds;
        assert!((exact - float).abs() <= 1e-5 * float.abs(), "{}", text);
    }
}

#[test]
fn numbers_are_read_where_floating_point_is_finite_and_not_zero() {
    let mut state = 1075u64;
    let mut read = 0;
    let mut refused = 0;
    for _ in 0..4000 {
        let whole_len = 1 + next(&mut state) % 4;
        let fraction_len = next(&mut state) % 20;
        let exponent = match next(&mut state) % 4 {
            0 => 300 + (next(&mut state) % 12) as i64,
            1 => -(318 + (next(&mut state) % 12) as i64),
            2 => (next(&mut state) % 700) as i64 - 350,
            _ => (next(&mut state) % 40) as i64 - 20,
        };
        let text = format!(
            "{}.{}e{}",
            digits(&mut state, whole_len),
            digits(&mut state, fraction_len),
            exponent
        );
        let float: f64 = text.parse().unwrap();
        let zero = text[..text.find('e').unwrap()].chars().all(|c| c == '0' || c == '.');
        match Decimal::parse(&text) {
            Ok(d) => {
                read += 1;
                assert!(float.is_finite(), "{}", text);
                assert_eq!(float == 0.0, zero, "{}", text);
                assert_eq!(d.is_zero(), zero, "{}", text);
                assert!(d.in_range(), "{}", text);
            }
            Err(_) => {
                refused += 1;
                assert!(float.is_infinite() || (float == 0.0 && !zero), "{}", text);
            }
        }
    }
    assert!(read > 1000 && refused > 300, "{} {}", read, refused);
}

#[test]
fn decimals_are_ordered_as_numbers() {
    let ordered = [
        "0", "3e-324", "1e-10", "0.001", "0.0011", "0.01", "0.5", "0.99", "1", "1.0001", "1.1",
        "2", "9.99", "10", "10.5", "99", "100", "123456789", "1e20", "1.7e308",
    ];
    for (i, a) in ordered.iter().enumerate() {
        for (j, b) in ordered.iter().enumerate() {
            let x = Decimal::parse(a).unwrap();
            let y = Decimal::parse(b).unwrap();
            assert_eq!(x.lt(&y), i < j, "{} {}", a, b);
        }
    }
    let mut state = 7u64;
    for _ in 0..2000 {
        let lengths = [
            1 + next(&mut state) % 3,
            next(&mut state) % 4,
            1 + next(&mut state) % 3,
            next(&mut state) % 4,
        ];
        let a = format!("{}.{}", digits(&mut state, lengths[0]), digits(&mut state, lengths[1]));
        let b = format!("{}.{}", digits(&mut state, lengths[2]), digits(&mut state, lengths[3]));
        let x: f64 = a.parse().unwrap();
        let y: f64 = b.parse().unwrap();
        assert_eq!(Decimal::parse(&a).unwrap().lt(&Decimal::parse(&b).unwrap()), x < y, "{} {}", a, b);
    }
}

#[test]
fn limits_of_the_range() {
    let high = Decimal::finite_limit();
    let low = Decimal::positive_limit();
    assert_eq!(high.digits().len(), 309);
    assert_eq!(high.exponent(), 0);
    assert!(high.to_string().starts_with("17976931348623158079372897140530341507993413271003782693"));
    assert!(high.to_string().ends_with("4174497792"));
    assert!(high.to_string().parse::<f64>().unwrap().is_infinite());
    assert!(low.to_string().starts_with(&format!("0.{}24703282292062327208", "0".repeat(323))));
    assert!(low.to_string().ends_with("28125"));
    assert_eq!(low.to_string().parse::<f64>().unwrap(), 0.0);
    assert_eq!(low.digits().len(), 752);
    assert_eq!(low.exponent(), -1075);
    assert!(low.lt(&high));
    assert!(!high.in_range());
    assert!(!low.in_range());
}
