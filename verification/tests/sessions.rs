use zher::state::{AppState, User};
use zher::ws::{
    connect_as, fresh_profile, name_change_fail_text, on_connect, on_disconnect,
    request_name_change, text_message, Auth, Connection, NameChange, Rejection,
};

const UA: &str = "Mozilla/5.0 (Windows NT 10.0)";
const GRACE: u64 = 600_000;

fn auth(session: Option<&str>, code: Option<&str>) -> Auth {
    Auth { session_id: session.map(str::to_string), room_code: code.map(str::to_string) }
}

fn user(id: &str, name: &str) -> User {
    User {
        id: id.to_string(),
        name: name.to_string(),
        color: "#ef4444".to_string(),
        device: "desktop".to_string(),
    }
}

fn accepted(c: Connection) -> (String, zher::ws::Welcome, bool) {
    match c {
        Connection::Accepted { session_key, welcome, announce_join } => {
            (session_key, welcome, announce_join)
        }
        Connection::Rejected(_) => panic!("the connect was rejected"),
    }
}

fn names(users: &[User]) -> Vec<String> {
    users.iter().map(|u| u.name.clone()).collect()
}

#[test]
fn first_connect_creates_a_session_and_announces_the_join() {
    let mut state = AppState::default();
    state.set_server_url("http://10.0.0.2:4836".to_string());
    let (key, welcome, join) = accepted(on_connect(&mut state, "sock-a", auth(None, None), UA, 1_000));
    assert!(join);
    assert_eq!(key.len(), 36);
    assert_eq!(welcome.server_url, "http://10.0.0.2:4836");
    assert_eq!(welcome.user.id.len(), 36);
    assert_eq!(welcome.user.name.len(), 6);
    assert!(welcome.user.name.chars().all(|c| matches!(c, '0'..='9' | 'a'..='f')));
    assert!(welcome.user.color.starts_with('#'));
    assert_eq!(welcome.user.device, "desktop");
    assert_eq!(welcome.all_users.len(), 1);
    assert_eq!(welcome.all_users[0].id, welcome.user.id);
    let session = state.session(&key).unwrap();
    assert_eq!(session.disconnect_time, None);
    assert!(session.active_sockets.contains("sock-a"));
    assert_eq!(session.active_sockets.len(), 1);
    assert!(state.is_attached("sock-a"));
    assert_eq!(state.session_key_of("sock-a"), Some(key));
    assert_eq!(state.room_code_of("sock-a"), Some(None));
}

#[test]
fn fresh_identifiers_differ_from_one_connect_to_the_next() {
    let mut state = AppState::default();
    let (key_a, a, _) = accepted(on_connect(&mut state, "a", auth(None, None), UA, 1));
    let (key_b, b, _) = accepted(on_connect(&mut state, "b", auth(None, None), UA, 2));
    assert_ne!(key_a, key_b);
    assert_ne!(a.user.id, b.user.id);
    assert_ne!(key_a, a.user.id);
    for id in [&key_a, &a.user.id] {
        let bytes = id.as_bytes();
        for (i, c) in bytes.iter().enumerate() {
            if i == 8 || i == 13 || i == 18 || i == 23 {
                assert_eq!(*c, b'-');
            } else {
                assert!(c.is_ascii_hexdigit() && !c.is_ascii_uppercase());
            }
        }
    }
    let profile = fresh_profile("Mozilla/5.0 (iPhone)");
    assert_eq!(profile.device, "mobile");
}

#[test]
fn second_tab_of_a_live_session_is_not_announced() {
    let mut state = AppState::default();
    let (_, first, _) = accepted(on_connect(&mut state, "tab-1", auth(Some("s"), None), UA, 10));
    let (key, second, join) =
        accepted(on_connect(&mut state, "tab-2", auth(Some("s"), None), "iPhone", 20));
    assert_eq!(key, "s");
    assert!(!join);
    assert_eq!(second.user.id, first.user.id);
    assert_eq!(second.user.name, first.user.name);
    assert_eq!(second.user.color, first.user.color);
    assert_eq!(second.user.device, first.user.device);
    assert_eq!(second.all_users.len(), 1);
    assert_eq!(state.session("s").unwrap().active_sockets.len(), 2);
}

#[test]
fn admission_asks_for_the_room_code_when_enabled() {
    let mut state = AppState::default();
    state.set_room_code(Some("123456".to_string()));
    state.set_room_code_enabled(true);
    match on_connect(&mut state, "x", auth(None, Some("000000")), UA, 1) {
        Connection::Rejected(why) => assert_eq!(why, Rejection::InvalidCode),
        Connection::Accepted { .. } => panic!("a wrong code was accepted"),
    }
    match on_connect(&mut state, "x", auth(None, None), UA, 1) {
        Connection::Rejected(why) => assert_eq!(why, Rejection::MissingCode),
        Connection::Accepted { .. } => panic!("a missing code was accepted"),
    }
    assert!(!state.is_attached("x"));
    assert!(state.active_users().is_empty());
    let (_, welcome, join) =
        accepted(on_connect(&mut state, "x", auth(None, Some("123456")), UA, 1));
    assert!(join);
    assert_eq!(welcome.all_users.len(), 1);
    assert_eq!(state.room_code_of("x"), Some(Some("123456".to_string())));
}

#[test]
fn admission_is_open_without_a_code_or_when_disabled() {
    let mut state = AppState::default();
    state.set_room_code_enabled(true);
    assert!(state.admits(&None));
    assert!(state.admits(&Some("whatever".to_string())));
    state.set_room_code(Some("123456".to_string()));
    assert!(!state.admits(&None));
    assert!(!state.admits(&Some("12345".to_string())));
    assert!(state.admits(&Some("123456".to_string())));
    state.set_room_code_enabled(false);
    assert!(state.admits(&None));
    assert!(state.room_code().is_some());
    assert!(!state.room_code_enabled());
}

#[test]
fn disconnect_of_the_last_socket_stamps_the_session_and_names_the_leaver() {
    let mut state = AppState::default();
    let (_, a, _) = accepted(on_connect(&mut state, "a1", auth(Some("s"), None), UA, 10));
    accepted(on_connect(&mut state, "a2", auth(Some("s"), None), UA, 11));
    assert_eq!(on_disconnect(&mut state, "a1", 50), None);
    assert_eq!(state.session("s").unwrap().disconnect_time, None);
    assert_eq!(on_disconnect(&mut state, "a2", 60), Some(a.user.id.clone()));
    let session = state.session("s").unwrap();
    assert_eq!(session.disconnect_time, Some(60));
    assert!(session.active_sockets.is_empty());
    assert!(!state.is_attached("a1"));
    assert!(!state.is_attached("a2"));
    assert_eq!(state.room_code_of("a2"), None);
    assert!(state.active_users().is_empty());
    // A socket that is not attached leaves nothing behind.
    assert_eq!(on_disconnect(&mut state, "a2", 70), None);
    assert_eq!(state.session("s").unwrap().disconnect_time, Some(60));
}

#[test]
fn reconnect_within_the_grace_period_keeps_the_profile() {
    let mut state = AppState::default();
    let (_, before, _) = accepted(on_connect(&mut state, "a", auth(Some("s"), None), UA, 1_000));
    accepted(on_connect(&mut state, "peer", auth(Some("p"), None), UA, 1_001));
    assert!(on_disconnect(&mut state, "a", 2_000).is_some());
    let (_, after, join) =
        accepted(on_connect(&mut state, "a-again", auth(Some("s"), None), "iPad", 2_000 + GRACE));
    assert_eq!(after.user.id, before.user.id);
    assert_eq!(after.user.name, before.user.name);
    assert_eq!(after.user.color, before.user.color);
    assert_eq!(after.user.device, before.user.device);
    // The session had no socket left, so the returning one is its first.
    assert!(join);
    assert_eq!(state.session("s").unwrap().disconnect_time, None);
    assert_eq!(after.all_users.len(), 2);
    assert_eq!(after.all_users[0].id, before.user.id);
}

#[test]
fn reconnect_after_the_grace_period_starts_anew() {
    let mut state = AppState::default();
    let (_, before, _) = accepted(on_connect(&mut state, "a", auth(Some("s"), None), UA, 1_000));
    on_disconnect(&mut state, "a", 2_000);
    let (key, after, join) = accepted(on_connect(
        &mut state,
        "a-again",
        auth(Some("s"), None),
        "Mozilla/5.0 (Android)",
        2_000 + GRACE + 1,
    ));
    assert_eq!(key, "s");
    assert!(join);
    assert_ne!(after.user.id, before.user.id);
    assert_eq!(after.user.device, "mobile");
    assert_eq!(after.all_users.len(), 1);
    let session = state.session("s").unwrap();
    assert_eq!(session.active_sockets.len(), 1);
    assert!(session.active_sockets.contains("a-again"));
}

#[test]
fn a_clock_that_went_back_does_not_expire_a_session() {
    let mut state = AppState::default();
    let (_, before, _) = accepted(on_connect(&mut state, "a", auth(Some("s"), None), UA, 5_000_000));
    on_disconnect(&mut state, "a", 5_000_000);
    let (_, after, _) = accepted(on_connect(&mut state, "b", auth(Some("s"), None), UA, 10));
    assert_eq!(after.user.id, before.user.id);
}

#[test]
fn a_session_expires_right_after_the_grace_period() {
    let mut state = AppState::default();
    accepted(on_connect(&mut state, "a", auth(Some("s"), None), UA, 7));
    assert!(state.resumes("s", u64::MAX));
    on_disconnect(&mut state, "a", 5_000_000);
    assert!(state.resumes("s", 0));
    assert!(state.resumes("s", 5_000_000 + GRACE));
    assert!(!state.resumes("s", 5_000_000 + GRACE + 1));
    assert!(!state.resumes("unknown", 0));
}

#[test]
fn connect_as_uses_the_fresh_profile_only_for_a_new_session() {
    let mut state = AppState::default();
    let (w1, join1) = connect_as(&mut state, "a", "s".to_string(), None, user("u1", "ann"), 1);
    assert!(join1);
    assert_eq!(w1.user.id, "u1");
    let (w2, join2) = connect_as(&mut state, "b", "s".to_string(), None, user("u2", "bob"), 2);
    assert!(!join2);
    assert_eq!(w2.user.id, "u1");
    assert_eq!(names(&w2.all_users), vec!["ann"]);
    let (w3, _) = connect_as(&mut state, "c", "t".to_string(), None, user("u3", "cat"), 3);
    assert_eq!(names(&w3.all_users), vec!["ann", "cat"]);
}

#[test]
fn name_change_trims_and_checks_the_length() {
    let mut state = AppState::default();
    connect_as(&mut state, "a", "s".to_string(), None, user("u1", "ann"), 1);
    match request_name_change(&mut state, "a", "  Zoë \n") {
        NameChange::Changed { name, all_users } => {
            assert_eq!(name, "Zoë");
            assert_eq!(names(&all_users), vec!["Zoë"]);
        }
        _ => panic!("the name was not taken"),
    }
    let long = "x".repeat(25);
    assert!(matches!(request_name_change(&mut state, "a", &long), NameChange::Rejected));
    assert!(matches!(request_name_change(&mut state, "a", "   "), NameChange::Rejected));
    assert!(matches!(request_name_change(&mut state, "a", ""), NameChange::Rejected));
    assert_eq!(state.sender_of("a").unwrap().name, "Zoë");
    // Twenty-four characters pass, however many bytes they take.
    let wide = "é".repeat(24);
    assert!(matches!(
        request_name_change(&mut state, "a", &format!(" {wide} ")),
        NameChange::Changed { .. }
    ));
    assert_eq!(state.sender_of("a").unwrap().name, wide);
    assert!(matches!(request_name_change(&mut state, "nobody", "ann"), NameChange::Ignored));
    assert!(matches!(request_name_change(&mut state, "nobody", ""), NameChange::Rejected));
    assert_eq!(name_change_fail_text(), "名字无效或太长");
}

#[test]
fn name_collision_gets_a_suffix() {
    let mut state = AppState::default();
    connect_as(&mut state, "a", "s".to_string(), None, user("u1", "ann"), 1);
    connect_as(&mut state, "b", "t".to_string(), None, user("u2", "bob"), 2);
    match request_name_change(&mut state, "b", "ann") {
        NameChange::Changed { name, all_users } => {
            assert_eq!(name, "ann1");
            assert_eq!(names(&all_users), vec!["ann", "ann1"]);
        }
        _ => panic!("the name was not taken"),
    }
    // One's own name collides with nobody.
    match request_name_change(&mut state, "a", "ann") {
        NameChange::Changed { name, .. } => assert_eq!(name, "ann"),
        _ => panic!("the name was not taken"),
    }
    // A session without sockets does not hold its name.
    on_disconnect(&mut state, "a", 5);
    match request_name_change(&mut state, "b", "ann") {
        NameChange::Changed { name, all_users } => {
            assert_eq!(name, "ann");
            assert_eq!(names(&all_users), vec!["ann"]);
        }
        _ => panic!("the name was not taken"),
    }
}

#[test]
fn a_third_user_can_end_up_with_a_name_that_is_taken() {
    let mut state = AppState::default();
    connect_as(&mut state, "a", "s".to_string(), None, user("u1", "ann"), 1);
    connect_as(&mut state, "b", "t".to_string(), None, user("u2", "bob"), 2);
    connect_as(&mut state, "c", "v".to_string(), None, user("u3", "cat"), 3);
    request_name_change(&mut state, "b", "ann");
    match request_name_change(&mut state, "c", "ann") {
        NameChange::Changed { all_users, .. } => {
            assert_eq!(names(&all_users), vec!["ann", "ann1", "ann1"]);
        }
        _ => panic!("the name was not taken"),
    }
}

#[test]
fn chat_message_carries_the_stable_user_id() {
    let mut state = AppState::default();
    let (_, a, _) = accepted(on_connect(&mut state, "a", auth(None, None), UA, 1));
    accepted(on_connect(&mut state, "b", auth(None, None), UA, 2));
    let message = text_message(&state, "a", "hi".to_string(), 1_700_000_000_123).unwrap();
    assert_eq!(message.id, 1_700_000_000_123);
    assert_eq!(message.sender_id, a.user.id);
    assert_eq!(message.sender_name, a.user.name);
    assert_eq!(message.sender_color, a.user.color);
    assert_eq!(message.sender_device, a.user.device);
    assert_eq!(message.msg_type, "text");
    assert_eq!(message.text, "hi");
    assert!(text_message(&state, "nobody", "hi".to_string(), 3).is_none());
}

#[test]
fn the_invariants_hold_along_a_run_of_events() {
    let mut state = AppState::default();
    let sockets = ["a", "b", "c", "d"];
    let keys = ["s", "s", "t", "u"];
    let check = |state: &AppState| {
        for sock in sockets {
            if let Some(key) = state.session_key_of(sock) {
                let session = state.session(&key).unwrap();
                assert!(session.active_sockets.contains(sock));
                assert!(session.disconnect_time.is_none());
            }
            assert_eq!(state.is_attached(sock), state.room_code_of(sock).is_some());
        }
        for key in ["s", "t", "u"] {
            if let Some(session) = state.session(key) {
                assert_eq!(session.active_sockets.is_empty(), session.disconnect_time.is_some());
            }
        }
    };
    for (i, (sock, key)) in sockets.iter().zip(keys.iter()).enumerate() {
        accepted(on_connect(&mut state, sock, auth(Some(key), None), UA, i as u64));
        check(&state);
    }
    for (i, sock) in ["b", "a", "d", "a", "c"].iter().enumerate() {
        on_disconnect(&mut state, sock, 100 + i as u64);
        check(&state);
    }
    accepted(on_connect(&mut state, "a", auth(Some("u"), None), UA, 200));
    check(&state);
    assert_eq!(state.active_users().len(), 1);
}
