use framed_client::client::{Action, ClientState, Msg};
use uuid::Uuid;

fn id_a() -> Uuid {
    Uuid::parse_str("00112233-4455-6677-8899-aabbccddeeff").unwrap()
}

fn id_b() -> Uuid {
    Uuid::parse_str("ffeeddcc-bbaa-9988-7766-554433221100").unwrap()
}

fn dialled(action: Action) -> Uuid {
    match action {
        Action::Dial(id) => id,
        _ => panic!("no dial"),
    }
}

#[test]
fn starts_without_connection() {
    let state = ClientState::new();
    assert!(state.is_running());
    assert!(!state.is_connected());
    assert_eq!(state.connection_id(), None);
}

#[test]
fn start_then_matching_established_connects() {
    let mut state = ClientState::new();
    let id = dialled(state.handle(Some(Msg::Start)));
    assert_eq!(state.connection_id(), Some(id));
    assert!(!state.is_connected());
    assert!(matches!(state.handle(Some(Msg::Established(id))), Action::Nothing));
    assert!(state.is_connected());
    assert!(state.is_running());
}

#[test]
fn established_before_start_is_ignored() {
    let mut state = ClientState::new();
    assert!(matches!(state.handle(Some(Msg::Established(id_a()))), Action::Nothing));
    assert!(!state.is_connected());
    assert_eq!(state.connection_id(), None);
    assert!(matches!(state.start_with(id_a()), Action::Dial(id) if id == id_a()));
    assert!(!state.is_connected());
}

#[test]
fn stale_established_is_ignored() {
    let mut state = ClientState::new();
    state.start_with(id_a());
    assert!(matches!(state.handle(Some(Msg::Established(id_b()))), Action::Nothing));
    assert!(!state.is_connected());
    assert_eq!(state.connection_id(), Some(id_a()));
    assert!(state.is_running());
}

#[test]
fn start_with_dials_under_the_given_id() {
    let mut state = ClientState::new();
    assert_eq!(dialled(state.start_with(id_b())), id_b());
    assert_eq!(state.connection_id(), Some(id_b()));
    state.handle(Some(Msg::Established(id_b())));
    assert!(state.is_connected());
}

#[test]
fn second_start_replaces_the_connection() {
    let mut state = ClientState::new();
    state.start_with(id_a());
    state.handle(Some(Msg::Established(id_a())));
    assert!(state.is_connected());
    state.start_with(id_b());
    assert_eq!(state.connection_id(), Some(id_b()));
    assert!(state.is_connected());
}

#[test]
fn late_notice_for_an_abandoned_connection_is_ignored() {
    let mut state = ClientState::new();
    state.start_with(id_a());
    state.start_with(id_b());
    state.handle(Some(Msg::Established(id_a())));
    assert!(!state.is_connected());
    state.handle(Some(Msg::Established(id_b())));
    assert!(state.is_connected());
}

#[test]
fn fresh_ids_are_random_version_four() {
    let mut state = ClientState::new();
    let first = dialled(state.handle(Some(Msg::Start)));
    let second = dialled(state.handle(Some(Msg::Start)));
    assert_ne!(first, second);
    assert_eq!(first.get_version_num(), 4);
    assert_eq!(second.get_version_num(), 4);
    assert_eq!(state.connection_id(), Some(second));
}

#[test]
fn shutdown_stops_the_loop() {
    let mut state = ClientState::new();
    assert!(matches!(state.handle(Some(Msg::Shutdown)), Action::AnnounceShutdown));
    assert!(!state.is_running());
}

#[test]
fn nothing_is_handled_after_shutdown() {
    let mut state = ClientState::new();
    state.start_with(id_a());
    state.handle(Some(Msg::Shutdown));
    assert!(matches!(state.handle(Some(Msg::Established(id_a()))), Action::Nothing));
    assert!(!state.is_connected());
    assert!(matches!(state.handle(Some(Msg::Start)), Action::Nothing));
    assert!(matches!(state.start_with(id_b()), Action::Nothing));
    assert_eq!(state.connection_id(), Some(id_a()));
    assert!(matches!(state.handle(Some(Msg::Shutdown)), Action::Nothing));
    assert!(matches!(state.handle(None), Action::Nothing));
    assert!(!state.is_running());
}

#[test]
fn closed_bus_stops_the_loop() {
    let mut state = ClientState::new();
    assert!(matches!(state.handle(None), Action::AnnounceBusClosed));
    assert!(!state.is_running());
    assert!(matches!(state.handle(Some(Msg::Start)), Action::Nothing));
    assert_eq!(state.connection_id(), None);
}

#[test]
fn fresh_ids_carry_the_rfc_variant() {
    let mut state = ClientState::new();
    for _ in 0..32 {
        let id = dialled(state.handle(Some(Msg::Start)));
        let bytes = id.as_bytes();
        assert_eq!(bytes[6] & 0xf0, 0x40);
        assert_eq!(bytes[8] & 0xc0, 0x80);
    }
}
