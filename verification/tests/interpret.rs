use dusty::handle_dusty_query;
use dusty::DustyError;
use dusty::DustyLocation;
use dusty::DustyState;
use dusty::Intent;
use dusty::StateStore;
use dusty::interpret::classify;

const HELP: &str = "I don't understand that. Please either ask 'Where is Dusty?', or tell me 'Dusty is at P<floor>.<space>' (example: 'Dusty is at P1.303')";

#[test]
fn classify_intents() {
    assert!(matches!(classify("Where is Dusty?"), Intent::Query));
    assert!(matches!(classify("  wHeRe IS dusty?  "), Intent::Query));
    assert!(matches!(classify("hello"), Intent::Unknown));
    assert!(matches!(classify("Where is Dusty? now"), Intent::Unknown));
    match classify("Dusty is at   P1.303  ") {
        Intent::Update(payload) => assert_eq!(payload, "P1.303"),
        other => panic!("expected an update intent, got {:?}", other),
    }
}

#[test]
fn update_saves_state_and_acknowledges() {
    let mut store = StateStore::new();
    let reply = handle_dusty_query("Dusty is at P1.303", &mut store);
    assert_eq!(reply, "Got it!");
    assert_eq!(
        store.file,
        Some("{\"location\":\"P1.303\",\"confirmed\":true}".to_string())
    );
    let saved = store.load().unwrap().unwrap();
    assert_eq!(saved.dusty_location.floor(), 1);
    assert_eq!(saved.dusty_location.space(), 303);
    assert!(saved.parked_back);
}

#[test]
fn query_after_update_reports_confirmed_location() {
    let mut store = StateStore::new();
    handle_dusty_query("Dusty is at P1.303", &mut store);
    let reply = handle_dusty_query("Where is Dusty?", &mut store);
    assert_eq!(reply, "Dusty is at *P1.303*");
    assert!(reply.contains("P1.303"));
}

#[test]
fn invalid_floor_update_rejected_without_mutation() {
    let mut store = StateStore::new();
    handle_dusty_query("Dusty is at P1.303", &mut store);
    let before = store.file.clone();
    let reply = handle_dusty_query("Dusty is at P9.10", &mut store);
    assert_eq!(reply, DustyError::InvalidFloor.message());
    assert_eq!(store.file, before);
}

#[test]
fn unrecognized_message_gets_help_without_file_access() {
    let mut store = StateStore::new();
    let reply = handle_dusty_query("hello", &mut store);
    assert_eq!(reply, HELP);
    assert_eq!(store.file, None);
}

#[test]
fn query_before_any_update_is_no_location_not_error() {
    let mut store = StateStore::new();
    let reply = handle_dusty_query("Where is Dusty?", &mut store);
    assert_eq!(
        reply,
        "I don't know where Dusty is yet. Tell me with 'Dusty is at P<floor>.<space>'."
    );
    assert_ne!(reply, DustyError::FileError.message());
    assert_ne!(reply, DustyError::CorruptState.message());
    assert_eq!(store.file, Some(String::new()));
}

#[test]
fn unconfirmed_state_is_reported_as_stale() {
    let mut store = StateStore::new();
    let stale = DustyState {
        dusty_location: DustyLocation::new(2, 77).unwrap(),
        parked_back: false,
    };
    store.save(&stale).unwrap();
    let reply = handle_dusty_query("Where is Dusty?", &mut store);
    assert_eq!(
        reply,
        "Someone asked where Dusty is, but hasn't explicitly put it back. *P2.077* was its last know location"
    );
}

#[test]
fn update_trigger_is_case_insensitive_payload_is_not() {
    let mut store = StateStore::new();
    let reply = handle_dusty_query("DUSTY IS AT P2.005", &mut store);
    assert_eq!(reply, "Got it!");
    let reply = handle_dusty_query("Dusty is at p2.005", &mut store);
    assert_eq!(reply, DustyError::InvalidFormat.message());
}

#[test]
fn invalid_space_and_format_updates_reply_with_their_message() {
    let mut store = StateStore::new();
    assert_eq!(
        handle_dusty_query("Dusty is at P1.401", &mut store),
        DustyError::InvalidSpace.message()
    );
    assert_eq!(
        handle_dusty_query("Dusty is at the corner", &mut store),
        DustyError::InvalidFormat.message()
    );
    assert_eq!(store.file, None);
}

#[test]
fn query_surfaces_read_fault_as_file_error() {
    let mut store = StateStore {
        file: Some("{\"location\":\"P1.303\",\"confirmed\":true}".to_string()),
        read_fails: true,
        write_fails: false,
    };
    let reply = handle_dusty_query("Where is Dusty?", &mut store);
    assert_eq!(reply, DustyError::FileError.message());
}

#[test]
fn query_surfaces_corrupt_file() {
    let mut store = StateStore {
        file: Some("scribbles".to_string()),
        read_fails: false,
        write_fails: false,
    };
    let reply = handle_dusty_query("Where is Dusty?", &mut store);
    assert_eq!(reply, DustyError::CorruptState.message());
}

#[test]
fn update_surfaces_write_fault_and_keeps_file() {
    let mut store = StateStore {
        file: None,
        read_fails: false,
        write_fails: true,
    };
    let reply = handle_dusty_query("Dusty is at P1.303", &mut store);
    assert_eq!(reply, DustyError::FileError.message());
    assert_eq!(store.file, None);
}

#[test]
fn trimmed_messages_are_understood() {
    let mut store = StateStore::new();
    assert_eq!(
        handle_dusty_query("   Dusty is at P-4.400 \n", &mut store),
        "Got it!"
    );
    let reply = handle_dusty_query(" \t Where is Dusty? ", &mut store);
    assert_eq!(reply, "Dusty is at *P-4.400*");
}
