use decay_data::{Error, Nuclide, State};

#[test]
fn nuclide_names() {
    let co60 = Nuclide::new(27, 60, State::Ground).unwrap();
    assert_eq!(co60.to_string(), "Co-60");
    assert_eq!(Nuclide::from_str("Co-60").unwrap(), co60);
    let tc99m = Nuclide::from_str("Tc-99m").unwrap();
    assert_eq!(tc99m.atomic_number(), 43);
    assert_eq!(tc99m.mass_number(), 99);
    assert_eq!(tc99m.state(), State::First);
    assert_eq!(tc99m.to_string(), "Tc-99m");
    let ir = Nuclide::from_str("Ir-190n").unwrap();
    assert_eq!(ir.state(), State::Second);
    assert_eq!(ir.to_string(), "Ir-190n");
    assert_eq!(Nuclide::from_str("H-3").unwrap().to_string(), "H-3");
    let parsed: Nuclide = "Sr-90".parse().unwrap();
    assert_eq!(parsed, Nuclide::new(38, 90, State::Ground).unwrap());
    assert_eq!(Nuclide::from_str("U-238").unwrap().atomic_number(), 92);
    assert_eq!(Nuclide::from_str("Og-294").unwrap().atomic_number(), 118);
    assert_eq!(Nuclide::new(1, 65535, State::Ground).unwrap().to_string(), "H-65535");
    assert_eq!(Nuclide::new(1, 0, State::Ground).unwrap().to_string(), "H-0");
}

#[test]
fn nuclide_spellings_give_one_key() {
    let a = Nuclide::from_str("Co-60").unwrap();
    let b = Nuclide::from_str("Co-060").unwrap();
    assert_eq!(a, b);
    assert_eq!(a.key(), b.key());
    assert_eq!(b.to_string(), "Co-60");
}

#[test]
fn nuclide_keys_differ() {
    let names = ["Co-60", "Co-60m", "Co-60n", "Co-61", "Ni-60", "Fe-60", "H-3", "He-3"];
    let mut keys: Vec<u64> = names.iter().map(|n| Nuclide::from_str(n).unwrap().key()).collect();
    keys.sort();
    keys.dedup();
    assert_eq!(keys.len(), names.len());
    assert_eq!(Nuclide::from_str("Co-60m").unwrap().key(), 27 * 0x100_0000 + 60 * 0x100 + 1);
}

#[test]
fn nuclide_refuses_other_texts() {
    let refused = [
        "", "Co", "Co-", "Co60", "-60", "Xx-60", "co-60", "CO-60", "Co-60x", "Co-60mm", "Co-6 0",
        "Co--60", "Co-60-", " Co-60", "Co-60 ", "Co-65536", "Co-99999999999999999999999999999999999999999",
    ];
    for text in refused {
        match Nuclide::from_str(text) {
            Err(Error::InvalidNuclide(t)) => assert_eq!(t, text),
            other => panic!("{:?} gave {:?}", text, other),
        }
    }
}

#[test]
fn nuclide_needs_a_known_element() {
    assert!(matches!(Nuclide::new(0, 1, State::Ground), Err(Error::InvalidAtomicNumber(0))));
    assert!(matches!(Nuclide::new(119, 300, State::Ground), Err(Error::InvalidAtomicNumber(119))));
    assert!(Nuclide::new(118, 294, State::Ground).is_ok());
    assert!(Nuclide::new(1, 1, State::Ground).is_ok());
}

#[test]
fn every_element_reads_back() {
    for z in 1..=118u8 {
        let n = Nuclide::new(z, 100, State::First).unwrap();
        assert_eq!(Nuclide::from_str(&n.to_string()).unwrap(), n);
    }
}
