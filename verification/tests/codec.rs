use dusty::DustyError;
use dusty::DustyLocation;

#[test]
fn roundtrip_in_range_values() {
    let pairs: Vec<(i8, u32)> = vec![
        (-4, 0),
        (-4, 400),
        (-1, 7),
        (0, 0),
        (1, 303),
        (3, 42),
        (4, 400),
        (4, 399),
        (2, 100),
    ];
    for (floor, space) in pairs {
        let loc = DustyLocation::new(floor, space).unwrap();
        let text = loc.to_text();
        let parsed = DustyLocation::from_str(&text).unwrap();
        assert_eq!(parsed.floor(), floor);
        assert_eq!(parsed.space(), space);
    }
}

#[test]
fn canonical_format_is_exact() {
    assert_eq!(DustyLocation::new(1, 303).unwrap().to_text(), "P1.303");
    assert_eq!(DustyLocation::new(-4, 7).unwrap().to_text(), "P-4.007");
    assert_eq!(DustyLocation::new(0, 0).unwrap().to_text(), "P0.000");
    assert_eq!(DustyLocation::new(2, 42).unwrap().to_text(), "P2.042");
    assert_eq!(DustyLocation::new(4, 400).unwrap().to_text(), "P4.400");
}

#[test]
fn boundary_floors() {
    assert_eq!(DustyLocation::from_str("P-4.1").unwrap().floor(), -4);
    assert_eq!(DustyLocation::from_str("P4.1").unwrap().floor(), 4);
    assert_eq!(
        DustyLocation::from_str("P-5.1").unwrap_err(),
        DustyError::InvalidFloor
    );
    assert_eq!(
        DustyLocation::from_str("P5.1").unwrap_err(),
        DustyError::InvalidFloor
    );
}

#[test]
fn boundary_spaces() {
    assert_eq!(DustyLocation::from_str("P1.0").unwrap().space(), 0);
    assert_eq!(DustyLocation::from_str("P1.400").unwrap().space(), 400);
    assert_eq!(
        DustyLocation::from_str("P1.401").unwrap_err(),
        DustyError::InvalidSpace
    );
}

#[test]
fn format_rejections() {
    let bad = vec![
        "",
        "1.303",
        "P1303",
        "Pa.3",
        "P1.x",
        "P.5",
        "P1.",
        "P-.5",
        "p1.303",
        "P 1.303",
        "P1.303 extra",
        "xP1.303",
    ];
    for text in bad {
        assert_eq!(
            DustyLocation::from_str(text).unwrap_err(),
            DustyError::InvalidFormat,
            "expected InvalidFormat for {:?}",
            text
        );
    }
}

#[test]
fn validation_order_floor_before_space() {
    assert_eq!(
        DustyLocation::from_str("P9.999").unwrap_err(),
        DustyError::InvalidFloor
    );
    assert_eq!(
        DustyLocation::from_str("P99999999999999999999.5").unwrap_err(),
        DustyError::InvalidFloor
    );
    assert_eq!(
        DustyLocation::from_str("P9.x").unwrap_err(),
        DustyError::InvalidFormat
    );
}

#[test]
fn parse_accepts_padding_and_signs() {
    let loc = DustyLocation::from_str("P-0.007").unwrap();
    assert_eq!(loc.floor(), 0);
    assert_eq!(loc.space(), 7);
    let loc = DustyLocation::from_str("P01.0033").unwrap();
    assert_eq!(loc.floor(), 1);
    assert_eq!(loc.space(), 33);
}

#[test]
fn constructor_validates() {
    assert_eq!(
        DustyLocation::new(5, 10).unwrap_err(),
        DustyError::InvalidFloor
    );
    assert_eq!(
        DustyLocation::new(-5, 10).unwrap_err(),
        DustyError::InvalidFloor
    );
    assert_eq!(
        DustyLocation::new(1, 401).unwrap_err(),
        DustyError::InvalidSpace
    );
    let loc = DustyLocation::new(-2, 399).unwrap();
    assert_eq!(loc.floor(), -2);
    assert_eq!(loc.space(), 399);
}

#[test]
fn error_messages_are_fixed() {
    assert_eq!(
        DustyError::InvalidFloor.message(),
        "Invalid floor, please input a floor between [-4,4]"
    );
    assert_eq!(
        DustyError::InvalidSpace.message(),
        "Invalid space, please input a space between [0,400]"
    );
    assert_eq!(
        DustyError::InvalidFormat.message(),
        "Invalid format, please input a location in the format P<floor>.<space>"
    );
    assert_eq!(
        DustyError::CorruptState.message(),
        "Dusty's location file is corrupt, please fix or delete it."
    );
    assert_eq!(
        DustyError::InternalError.message(),
        "I experienced an internal error, please check my logs"
    );
    assert_eq!(
        DustyError::FileError.message(),
        "Couldn't access Dusty's location file."
    );
}
