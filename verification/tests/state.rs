use dusty::DustyError;
use dusty::DustyLocation;
use dusty::DustyState;
use dusty::StateStore;

fn state(floor: i8, space: u32, parked_back: bool) -> DustyState {
    DustyState {
        dusty_location: DustyLocation::new(floor, space).unwrap(),
        parked_back,
    }
}

#[test]
fn encode_is_exact() {
    assert_eq!(
        state(1, 303, true).encode(),
        "{\"location\":\"P1.303\",\"confirmed\":true}"
    );
    assert_eq!(
        state(-4, 7, false).encode(),
        "{\"location\":\"P-4.007\",\"confirmed\":false}"
    );
}

#[test]
fn decode_roundtrips_encode() {
    for (floor, space, parked) in vec![(1, 303, true), (-4, 0, false), (4, 400, true), (0, 5, false)]
    {
        let original = state(floor, space, parked);
        let decoded = DustyState::decode(&original.encode()).unwrap();
        assert_eq!(decoded.dusty_location.floor(), floor);
        assert_eq!(decoded.dusty_location.space(), space);
        assert_eq!(decoded.parked_back, parked);
    }
}

#[test]
fn decode_rejects_corrupt_content() {
    let bad = vec![
        "",
        "garbage",
        "{\"location\":\"P1.303\",\"confirmed\":maybe}",
        "{\"location\":\"P1.303\",\"confirmed\":true} ",
        "{\"location\":\"P9.1\",\"confirmed\":true}",
        "{\"location\":\"P1.401\",\"confirmed\":true}",
        "{\"location\":\"nowhere\",\"confirmed\":true}",
        "{\"location\":\"P1.303",
        "{\"somewhere\":\"P1.303\",\"confirmed\":true}",
    ];
    for text in bad {
        assert_eq!(
            DustyState::decode(text).unwrap_err(),
            DustyError::CorruptState,
            "expected CorruptState for {:?}",
            text
        );
    }
}

#[test]
fn load_missing_file_is_no_state_and_creates_empty() {
    let mut store = StateStore::new();
    let loaded = store.load().unwrap();
    assert!(loaded.is_none());
    assert_eq!(store.file, Some(String::new()));
}

#[test]
fn load_empty_content_is_no_state() {
    let mut store = StateStore {
        file: Some(String::new()),
        read_fails: false,
        write_fails: false,
    };
    assert!(store.load().unwrap().is_none());
}

#[test]
fn load_surfaces_read_fault() {
    let mut store = StateStore {
        file: Some("{\"location\":\"P1.303\",\"confirmed\":true}".to_string()),
        read_fails: true,
        write_fails: false,
    };
    assert_eq!(store.load().unwrap_err(), DustyError::FileError);
}

#[test]
fn load_surfaces_corrupt_content() {
    let mut store = StateStore {
        file: Some("not a record".to_string()),
        read_fails: false,
        write_fails: false,
    };
    assert_eq!(store.load().unwrap_err(), DustyError::CorruptState);
}

#[test]
fn save_then_load_returns_record() {
    let mut store = StateStore::new();
    store.save(&state(-3, 42, true)).unwrap();
    let loaded = store.load().unwrap().unwrap();
    assert_eq!(loaded.dusty_location.floor(), -3);
    assert_eq!(loaded.dusty_location.space(), 42);
    assert!(loaded.parked_back);
}

#[test]
fn save_surfaces_write_fault_and_keeps_file() {
    let before = Some("{\"location\":\"P1.303\",\"confirmed\":true}".to_string());
    let mut store = StateStore {
        file: before.clone(),
        read_fails: false,
        write_fails: true,
    };
    assert_eq!(
        store.save(&state(2, 9, true)).unwrap_err(),
        DustyError::FileError
    );
    assert_eq!(store.file, before);
}
