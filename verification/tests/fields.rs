use decay_data::field::{parse_energy, parse_integer};
use decay_data::{DecayMode, Error, RadiationType};

#[test]
fn integers_are_decimal_digits_only() {
    assert_eq!(parse_integer("0").unwrap(), 0);
    assert_eq!(parse_integer("7").unwrap(), 7);
    assert_eq!(parse_integer("00042").unwrap(), 42);
    assert_eq!(parse_integer("1252").unwrap(), 1252);
    assert_eq!(parse_integer("18446744073709551615").unwrap(), u64::MAX);
    let refused = [
        "", " ", "1 ", " 1", "+1", "-1", "1.0", "1e3", "0x10", "12a", "a12", "1_000",
        "18446744073709551616", "99999999999999999999999999999999999999999999999999", "٣",
    ];
    for text in refused {
        match parse_integer(text) {
            Err(Error::InvalidInteger(t)) => assert_eq!(t, text),
            other => panic!("{:?} gave {:?}", text, other),
        }
    }
}

#[test]
fn decay_mode_tokens() {
    let tokens = [
        ("A", DecayMode::Alpha),
        ("B-", DecayMode::BetaMinus),
        ("B+", DecayMode::BetaPlus),
        ("EC", DecayMode::ElectronCapture),
        ("IT", DecayMode::IsomericTransition),
        ("SF", DecayMode::SpontaneousFission),
    ];
    for (token, mode) in tokens {
        assert_eq!(DecayMode::from_str(token).unwrap(), mode);
        assert_eq!(mode.to_string(), token);
    }
    for text in ["", "a", "B", "B-B+", "ec", " A", "A ", "AR", "X"] {
        match DecayMode::from_str(text) {
            Err(Error::InvalidDecayMode(t)) => assert_eq!(t, text),
            other => panic!("{:?} gave {:?}", text, other),
        }
    }
}

#[test]
fn radiation_type_tokens() {
    let tokens = [
        ("G", RadiationType::Gamma),
        ("PG", RadiationType::PromptGamma),
        ("DG", RadiationType::DelayedGamma),
        ("X", RadiationType::XRay),
        ("AQ", RadiationType::AnnihilationPhoton),
        ("B+", RadiationType::BetaPlus),
        ("B-", RadiationType::BetaMinus),
        ("BD", RadiationType::DelayedBeta),
        ("IE", RadiationType::ConversionElectron),
        ("AE", RadiationType::AugerElectron),
        ("A", RadiationType::Alpha),
        ("AR", RadiationType::AlphaRecoil),
        ("FF", RadiationType::FissionFragment),
        ("N", RadiationType::Neutron),
    ];
    for (token, kind) in tokens {
        assert_eq!(RadiationType::from_str(token).unwrap(), kind);
        assert_eq!(kind.to_string(), token);
    }
    for text in ["", "g", "Q", "GG", "B", "EC", " G", "G "] {
        match RadiationType::from_str(text) {
            Err(Error::InvalidRadiationType(t)) => assert_eq!(t, text),
            other => panic!("{:?} gave {:?}", text, other),
        }
    }
}

#[test]
fn io_error_becomes_an_error_of_the_library() {
    let e = std::io::Error::new(std::io::ErrorKind::PermissionDenied, "denied");
    match Error::from(e) {
        Error::StdIoError(inner) => assert_eq!(inner.kind(), std::io::ErrorKind::PermissionDenied),
        other => panic!("{:?}", other),
    }
}

#[test]
fn characters_of_a_text() {
    assert_eq!(decay_data::text::chars_of("1 μs"), vec!['1', ' ', 'μ', 's']);
    assert!(decay_data::text::chars_of("").is_empty());
}

#[test]
fn energies_are_decimal_numbers() {
    let read = [
        ("0", "0"),
        ("1.173228", "1.173228"),
        ("6.61657E-01", "0.661657"),
        ("0.0000", "0"),
        ("2.5e3", "2500"),
        ("0010.50", "10.5"),
    ];
    for (text, shown) in read {
        assert_eq!(parse_energy(text).unwrap().to_string(), shown, "{}", text);
        assert_eq!(parse_energy(text).unwrap(), decay_data::Decimal::parse(text).unwrap());
    }
    let refused = ["", " ", "1.17 MeV", "MeV", "-1", "+1", ".5", "1e", "1 ", " 1", "1e309", "1e-400", "NaN"];
    for text in refused {
        match parse_energy(text) {
            Err(Error::InvalidEnergy(t)) => assert_eq!(t, text),
            other => panic!("{:?} gave {:?}", text, other),
        }
    }
}
