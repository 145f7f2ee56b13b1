use decay_data::{
    AckSpectrum, Attribute, BetSpectrum, DecayData, DecayMode, Decimal, Error, HalfLife, Icrp107,
    IndexTable, NsfSpectrum, Nuclide, NuclideData, Progeny, RadSpectrum, RadiationType,
    SpectrumTable,
};

fn nuclide(name: &str) -> Nuclide {
    Nuclide::from_str(name).unwrap()
}

fn attribute(half_life: &str, progeny: &[(&str, DecayMode, &str)]) -> Attribute {
    Attribute {
        half_life: HalfLife::from_str(half_life).unwrap(),
        progeny: progeny
            .iter()
            .map(|(target, decay_mode, fraction)| Progeny {
                target: nuclide(target),
                decay_mode: *decay_mode,
                branching_fraction: Decimal::parse(fraction).unwrap(),
            })
            .collect(),
    }
}

fn index_records() -> Vec<Result<(Nuclide, Attribute), Error>> {
    vec![
        Ok((nuclide("Co-60"), attribute("5.27y", &[("Ni-60", DecayMode::BetaMinus, "1.0")]))),
        Ok((nuclide("Tc-99m"), attribute(
            "6.015h",
            &[("Tc-99", DecayMode::IsomericTransition, "0.99996"), ("Ru-99", DecayMode::BetaMinus, "3.7E-05")],
        ))),
        Ok((nuclide("H-3"), attribute("12.32y", &[]))),
    ]
}

fn line(energy: &str, intensity: &str) -> RadSpectrum {
    RadSpectrum {
        radiation: RadiationType::Gamma,
        energy: Decimal::parse(energy).unwrap(),
        intensity: Decimal::parse(intensity).unwrap(),
    }
}

/// What is handed in where the index is loaded and nothing was read.
fn unread() -> Result<IndexTable, Error> {
    Err(Error::InvalidFilePath)
}

fn number(d: &Decimal) -> f64 {
    d.to_string().parse().unwrap()
}

#[test]
fn index_record_of_cobalt_60() {
    let records = vec![Ok((
        nuclide("Co-60"),
        attribute("5.27y", &[("Ni-60", DecayMode::BetaMinus, "1")]),
    ))];
    let mut dataset = Icrp107::open("data").unwrap();
    dataset.ndx(IndexTable::build(records)).unwrap();
    let co60 = nuclide("Co-60");
    let seconds = number(&dataset.half_life(unread(), co60).unwrap().as_sec());
    assert!((seconds - 1.663e8).abs() < 1e5);
    let lambda = std::f64::consts::LN_2 / seconds;
    assert!((lambda - 4.167e-9).abs() < 1e-12);
    let progeny = dataset.progeny(unread(), co60).unwrap();
    assert_eq!(progeny.len(), 1);
    assert_eq!(progeny[0].target, nuclide("Ni-60"));
    assert!(dataset.check_nuclide(unread(), co60).is_ok());
}

#[test]
fn index_has_one_entry_for_each_nuclide() {
    let table = IndexTable::build(index_records()).unwrap();
    assert_eq!(table.len(), 3);
    assert_eq!(table.get(nuclide("Tc-99m")).unwrap().progeny.len(), 2);
    assert_eq!(table.get(nuclide("H-3")).unwrap().half_life.to_string(), "12.32 y");
    assert!(table.get(nuclide("Tc-99")).is_none());
    assert_eq!(IndexTable::build(vec![]).unwrap().len(), 0);
}

#[test]
fn later_index_record_replaces_earlier() {
    let records = vec![
        Ok((nuclide("H-3"), attribute("1y", &[]))),
        Ok((nuclide("H-3"), attribute("12.32y", &[]))),
    ];
    let table = IndexTable::build(records).unwrap();
    assert_eq!(table.len(), 1);
    assert_eq!(table.get(nuclide("H-3")).unwrap().half_life.to_string(), "12.32 y");
}

#[test]
fn one_bad_record_fails_the_index() {
    let mut records = index_records();
    records.insert(1, Err(Error::InvalidHalfLife("5.27 yr".to_string())));
    records.push(Err(Error::InvalidInteger("x".to_string())));
    match IndexTable::build(records) {
        Err(Error::InvalidHalfLife(text)) => assert_eq!(text, "5.27 yr"),
        other => panic!("{:?}", other.map(|t| t.len())),
    }
}

#[test]
fn spectrum_keeps_the_order_of_the_file() {
    let records = vec![
        Ok((nuclide("Co-60"), line("1.173228", "0.9985"))),
        Ok((nuclide("Cs-137"), line("0.661657", "0.851"))),
        Ok((nuclide("Co-60"), line("1.332492", "0.999826"))),
        Ok((nuclide("Co-60"), line("0.347140", "0.000075"))),
    ];
    let table = SpectrumTable::build(records).unwrap();
    assert_eq!(table.len(), 2);
    let co60 = table.get(nuclide("Co-60")).unwrap();
    assert_eq!(co60.len(), 3);
    assert_eq!(co60[0], line("1.173228", "0.9985"));
    assert_eq!(co60[1], line("1.332492", "0.999826"));
    assert_eq!(co60[2], line("0.347140", "0.000075"));
    assert_eq!(table.get(nuclide("Cs-137")).unwrap().len(), 1);
    assert!(table.get(nuclide("Ni-60")).is_none());
}

#[test]
fn one_bad_record_fails_the_spectrum() {
    let records = vec![
        Ok((nuclide("Co-60"), line("1.173228", "0.9985"))),
        Err(Error::InvalidFloat("1.33x".to_string())),
        Err(Error::InvalidRadiationType("Q".to_string())),
        Ok((nuclide("Co-60"), line("0.347140", "0.000075"))),
    ];
    match SpectrumTable::build(records) {
        Err(Error::InvalidFloat(text)) => assert_eq!(text, "1.33x"),
        other => panic!("{:?}", other.map(|t| t.len())),
    }
}

#[test]
fn dataset_opens_empty() {
    let dataset = Icrp107::open("/var/lib/icrp107").unwrap();
    assert_eq!(dataset.path(), "/var/lib/icrp107");
    assert!(dataset.index().is_none());
    assert!(dataset.discrete().is_none());
    assert!(dataset.beta().is_none());
    assert!(dataset.auger().is_none());
    assert!(dataset.fission_neutron().is_none());
    let other = NuclideData::open("").unwrap();
    assert_eq!(other.path(), "");
    assert!(other.index().is_none());
}

#[test]
fn file_names_are_fixed() {
    assert_eq!(decay_data::dataset::NDX_FILE, "ICRP-07.NDX");
    assert_eq!(decay_data::dataset::RAD_FILE, "ICRP-07.RAD");
    assert_eq!(decay_data::dataset::BET_FILE, "ICRP-07.BET");
    assert_eq!(decay_data::dataset::ACK_FILE, "ICRP-07.ACK");
    assert_eq!(decay_data::dataset::NSF_FILE, "ICRP-07.NSF");
}

#[test]
fn table_is_loaded_once() {
    let mut dataset = Icrp107::open("data").unwrap();
    assert_eq!(dataset.ndx(IndexTable::build(index_records())).unwrap().len(), 3);
    assert_eq!(dataset.index().unwrap().len(), 3);
    // A table that is there is not replaced, whatever is handed in later.
    assert_eq!(dataset.ndx(IndexTable::build(vec![])).unwrap().len(), 3);
    assert_eq!(dataset.ndx(Err(Error::InvalidFilePath)).unwrap().len(), 3);
    assert_eq!(dataset.index().unwrap().len(), 3);
    assert!(dataset.discrete().is_none());
}

#[test]
fn failed_load_leaves_the_slot_empty() {
    let mut dataset = Icrp107::open("data").unwrap();
    let mut records = index_records();
    records.push(Err(Error::InvalidDecayMode("??".to_string())));
    match dataset.ndx(IndexTable::build(records)) {
        Err(Error::InvalidDecayMode(text)) => assert_eq!(text, "??"),
        other => panic!("{:?}", other.map(|t| t.len())),
    }
    assert!(dataset.index().is_none());
    let missing = std::io::Error::new(std::io::ErrorKind::NotFound, "no such file");
    assert!(matches!(dataset.ndx(Err(Error::StdIoError(missing))), Err(Error::StdIoError(_))));
    assert!(dataset.index().is_none());
    assert_eq!(dataset.ndx(IndexTable::build(index_records())).unwrap().len(), 3);
    assert_eq!(dataset.index().unwrap().len(), 3);
}

#[test]
fn each_table_has_its_own_slot() {
    let mut dataset = NuclideData::open("data").unwrap();
    let rad = SpectrumTable::build(vec![Ok((nuclide("Co-60"), line("1.17", "1")))]);
    let bet = SpectrumTable::build(vec![
        Ok((nuclide("H-3"), BetSpectrum { energy: Decimal::parse("0").unwrap(), intensity: Decimal::parse("1.5").unwrap() })),
        Ok((nuclide("H-3"), BetSpectrum { energy: Decimal::parse("0.0001").unwrap(), intensity: Decimal::parse("1.4").unwrap() })),
    ]);
    let ack = SpectrumTable::build(vec![
        Ok((nuclide("I-125"), AckSpectrum { energy: Decimal::parse("0.0036").unwrap(), intensity: Decimal::parse("1.6").unwrap() })),
    ]);
    let nsf = SpectrumTable::build(vec![
        Ok((nuclide("Cf-252"), NsfSpectrum { energy: Decimal::parse("0.5").unwrap(), intensity: Decimal::parse("0.3").unwrap() })),
    ]);
    assert_eq!(dataset.rad(rad).unwrap().len(), 1);
    assert!(dataset.beta().is_none());
    assert_eq!(dataset.bet(bet).unwrap().get(nuclide("H-3")).unwrap().len(), 2);
    assert_eq!(dataset.ack(ack).unwrap().len(), 1);
    assert_eq!(dataset.nsf(nsf).unwrap().len(), 1);
    assert!(dataset.index().is_none());
    assert_eq!(dataset.discrete().unwrap().get(nuclide("Co-60")).unwrap()[0], line("1.17", "1"));
    assert_eq!(dataset.beta().unwrap().len(), 1);
    assert!(dataset.auger().unwrap().get(nuclide("I-125")).is_some());
    assert!(dataset.fission_neutron().unwrap().get(nuclide("Cf-252")).is_some());
    assert_eq!(dataset.path(), "data");
}

#[test]
fn lookups_refuse_nuclides_that_the_index_lacks() {
    let mut dataset = Icrp107::open("data").unwrap();
    dataset.ndx(IndexTable::build(index_records())).unwrap();
    let absent = nuclide("Ni-60");
    match dataset.check_nuclide(unread(), absent) {
        Err(Error::InvalidNuclide(name)) => assert_eq!(name, "Ni-60"),
        other => panic!("{:?}", other),
    }
    match dataset.progeny(unread(), absent) {
        Err(Error::InvalidNuclide(name)) => assert_eq!(name, "Ni-60"),
        other => panic!("{:?}", other),
    }
    match dataset.half_life(unread(), absent) {
        Err(Error::InvalidNuclide(name)) => assert_eq!(name, "Ni-60"),
        other => panic!("{:?}", other),
    }
    for name in ["Co-60", "Tc-99m", "H-3"] {
        let present = nuclide(name);
        assert!(dataset.check_nuclide(unread(), present).is_ok());
        assert!(dataset.progeny(unread(), present).is_ok());
        assert!(dataset.half_life(unread(), present).is_ok());
    }
    assert_eq!(dataset.progeny(unread(), nuclide("H-3")).unwrap().len(), 0);
    let progeny = dataset.progeny(unread(), nuclide("Tc-99m")).unwrap();
    assert_eq!(progeny[0].target, nuclide("Tc-99"));
    assert_eq!(progeny[1].target, nuclide("Ru-99"));
    assert_eq!(progeny[1].decay_mode, DecayMode::BetaMinus);
    assert_eq!(progeny[1].branching_fraction.to_string(), "0.000037");
}

#[test]
fn index_table_answers_the_lookups_itself() {
    let table = IndexTable::build(index_records()).unwrap();
    assert_eq!(table.half_life(nuclide("Tc-99m")).unwrap().to_string(), "6.015 h");
    assert!(matches!(table.check_nuclide(nuclide("Tc-99")), Err(Error::InvalidNuclide(_))));
}

#[test]
fn nuclide_data_lookups() {
    let mut dataset = NuclideData::open("data").unwrap();
    dataset.ndx(IndexTable::build(index_records())).unwrap();
    assert_eq!(dataset.get_progeny(unread(), &nuclide("Co-60")).unwrap().unwrap()[0].target, nuclide("Ni-60"));
    assert_eq!(dataset.get_half_life(unread(), &nuclide("Co-60")).unwrap().unwrap().to_string(), "5.27 y");
    assert!(dataset.get_progeny(unread(), &nuclide("Ni-60")).unwrap().is_none());
    assert!(dataset.get_half_life(unread(), &nuclide("Ni-60")).unwrap().is_none());
    assert!(dataset.check_nuclide(unread(), nuclide("Tc-99m")).is_ok());
}

#[test]
fn distinct_nuclides_give_as_many_entries() {
    let names = ["H-3", "C-14", "Co-60", "Co-60m", "Sr-90", "Y-90", "Tc-99", "Tc-99m", "I-131"];
    let records: Vec<Result<(Nuclide, Attribute), Error>> =
        names.iter().map(|name| Ok((nuclide(name), attribute("1 d", &[])))).collect();
    assert_eq!(IndexTable::build(records).unwrap().len(), names.len());
    let lines: Vec<Result<(Nuclide, RadSpectrum), Error>> =
        names.iter().map(|name| Ok((nuclide(name), line("1", "1")))).collect();
    let table = SpectrumTable::build(lines).unwrap();
    assert_eq!(table.len(), names.len());
    for name in names {
        assert_eq!(table.get(nuclide(name)).unwrap().len(), 1);
    }
}

#[test]
fn empty_spectrum_file_gives_an_empty_table() {
    let table: SpectrumTable<NsfSpectrum> = SpectrumTable::build(vec![]).unwrap();
    assert_eq!(table.len(), 0);
    assert!(table.get(nuclide("Cf-252")).is_none());
}

#[test]
fn file_is_read_once() {
    let mut dataset = Icrp107::open("data").unwrap();
    let mut reads = 0;
    for _ in 0..5 {
        if dataset.index().is_none() {
            reads += 1;
            dataset.ndx(IndexTable::build(index_records())).unwrap();
        }
        assert_eq!(dataset.index().unwrap().len(), 3);
    }
    assert_eq!(reads, 1);
}

#[test]
fn failed_read_is_tried_again() {
    let mut dataset = Icrp107::open("data").unwrap();
    let mut reads = 0;
    for attempt in 0..4 {
        if dataset.index().is_none() {
            reads += 1;
            let read = if attempt < 2 {
                Err(Error::StdIoError(std::io::Error::new(std::io::ErrorKind::NotFound, "missing")))
            } else {
                IndexTable::build(index_records())
            };
            assert_eq!(dataset.ndx(read).is_ok(), attempt >= 2);
        }
    }
    assert_eq!(reads, 3);
    assert_eq!(dataset.index().unwrap().len(), 3);
}

#[test]
fn numbers_and_half_lives_can_be_copied() {
    let half_life = HalfLife::from_str("5.27y").unwrap();
    assert_eq!(half_life.clone(), half_life);
    let fraction = Decimal::parse("0.99996").unwrap();
    assert_eq!(fraction.clone(), fraction);
    let progeny = Progeny { target: nuclide("Ni-60"), decay_mode: DecayMode::BetaMinus, branching_fraction: fraction };
    assert_eq!(progeny.clone(), progeny);
}

#[test]
fn lookup_loads_the_index() {
    let mut dataset = Icrp107::open("data").unwrap();
    assert!(dataset.index().is_none());
    assert!(dataset.check_nuclide(IndexTable::build(index_records()), nuclide("Co-60")).is_ok());
    assert_eq!(dataset.index().unwrap().len(), 3);
    // The index is there: what is handed in later is not looked at.
    let lost = std::io::Error::new(std::io::ErrorKind::NotFound, "missing");
    assert_eq!(
        dataset.half_life(Err(Error::StdIoError(lost)), nuclide("H-3")).unwrap().to_string(),
        "12.32 y"
    );
    assert_eq!(dataset.progeny(IndexTable::build(vec![]), nuclide("Tc-99m")).unwrap().len(), 2);
    assert_eq!(dataset.index().unwrap().len(), 3);
}

#[test]
fn lookup_hands_on_the_error_of_a_failed_load() {
    let mut dataset = Icrp107::open("data").unwrap();
    let co60 = nuclide("Co-60");
    let lost = std::io::Error::new(std::io::ErrorKind::NotFound, "missing");
    match dataset.check_nuclide(Err(Error::StdIoError(lost)), co60) {
        Err(Error::StdIoError(e)) => {
            assert_eq!(e.kind(), std::io::ErrorKind::NotFound);
            assert_eq!(e.to_string(), "missing");
        }
        other => panic!("{:?}", other),
    }
    assert!(dataset.index().is_none());
    let mut records = index_records();
    records.insert(0, Err(Error::InvalidHalfLife("5.27 yr".to_string())));
    match dataset.progeny(IndexTable::build(records), co60) {
        Err(Error::InvalidHalfLife(text)) => assert_eq!(text, "5.27 yr"),
        other => panic!("{:?}", other),
    }
    assert!(dataset.index().is_none());
    let mut records = index_records();
    records.push(Err(Error::InvalidDecayMode("??".to_string())));
    match dataset.half_life(IndexTable::build(records), co60) {
        Err(Error::InvalidDecayMode(text)) => assert_eq!(text, "??"),
        other => panic!("{:?}", other),
    }
    assert!(dataset.index().is_none());
    // The load can be tried again, and the lookup answers once it succeeds.
    assert!(dataset.check_nuclide(IndexTable::build(index_records()), co60).is_ok());
    assert!(matches!(
        dataset.check_nuclide(unread(), nuclide("Ni-60")),
        Err(Error::InvalidNuclide(_))
    ));
}

#[test]
fn nuclide_data_lookups_load_and_hand_on_errors() {
    let mut dataset = NuclideData::open("data").unwrap();
    let co60 = nuclide("Co-60");
    match dataset.get_progeny(Err(Error::InvalidInteger("x1".to_string())), &co60) {
        Err(Error::InvalidInteger(text)) => assert_eq!(text, "x1"),
        other => panic!("{:?}", other),
    }
    match dataset.get_half_life(Err(Error::InvalidFloat("1.x".to_string())), &co60) {
        Err(Error::InvalidFloat(text)) => assert_eq!(text, "1.x"),
        other => panic!("{:?}", other),
    }
    assert!(matches!(dataset.half_life(Err(Error::InvalidFilePath), co60), Err(Error::InvalidFilePath)));
    assert!(dataset.index().is_none());
    let progeny = dataset.get_progeny(IndexTable::build(index_records()), &co60).unwrap().unwrap();
    assert_eq!(progeny.len(), 1);
    assert_eq!(progeny[0].target, nuclide("Ni-60"));
    assert_eq!(dataset.index().unwrap().len(), 3);
    assert!(dataset.get_progeny(unread(), &nuclide("Ni-60")).unwrap().is_none());
    assert_eq!(dataset.get_progeny(unread(), &nuclide("H-3")).unwrap().unwrap().len(), 0);
    match dataset.progeny(unread(), nuclide("Ni-60")) {
        Err(Error::InvalidNuclide(name)) => assert_eq!(name, "Ni-60"),
        other => panic!("{:?}", other),
    }
}
