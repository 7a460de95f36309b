use koko::clock::Timestamp;
use koko::error::ApiError;
use koko::model::Experience;
use koko::registry::check_privileged;
use koko::state::{get_place_id_from_request, get_token_from_request, AppState};

fn experience() -> Experience {
    Experience { id: 77, open_cloud_api_key: "cloud-key".to_string() }
}

fn at(secs: i64) -> Timestamp {
    Timestamp::new(secs, 0)
}

fn connected(state: &mut AppState, topic: &str) -> String {
    let publish = state
        .create_server(Some(experience()), Some(9001), 42, topic.to_string())
        .unwrap();
    let token = publish.message.clone();
    state.verify_server_at(&token, 9001, 5, String::new(), None, at(1_000)).unwrap();
    token
}

#[test]
fn begin_publishes_a_token_on_topic_zero() {
    let mut state = AppState::new();
    let publish = state
        .create_server(Some(experience()), Some(9001), 42, "abc".to_string())
        .unwrap();
    assert_eq!(publish.topic, "abc0");
    assert_eq!(publish.experience_id, 77);
    assert_eq!(publish.api_key, "cloud-key");
    assert_eq!(publish.message.len(), 64);
    assert!(publish.message.chars().all(|c| c.is_ascii_alphanumeric()));
    assert_eq!(state.pending_connections.len(), 1);
    assert!(state.pending_connections.contains(&publish.message));
    assert_eq!(state.servers.len(), 0);
    let entry = &state.pending_connections.entries[0];
    assert_eq!(entry.place_id, 9001);
    assert_eq!(entry.server_id, 42);
    assert_eq!(entry.secret_topic, "abc");
    assert_eq!(entry.connection_token, publish.message);
    assert_eq!(entry.experience.id, 77);
}

#[test]
fn tokens_are_drawn_afresh() {
    let mut state = AppState::new();
    let first = state.create_server(Some(experience()), Some(1), 1, "a".to_string()).unwrap();
    let second = state.create_server(Some(experience()), Some(1), 2, "a".to_string()).unwrap();
    assert_ne!(first.message, second.message);
    assert_eq!(state.pending_connections.len(), 2);
}

#[test]
fn begin_without_an_experience_is_refused() {
    let mut state = AppState::new();
    let result = state.create_server(None, Some(9001), 42, "abc".to_string());
    assert_eq!(result.unwrap_err(), ApiError::InvalidApiKey);
    assert_eq!(state.pending_connections.len(), 0);
    let result = state.create_server(None, None, 42, "abc".to_string());
    assert_eq!(result.unwrap_err(), ApiError::InvalidApiKey);
}

#[test]
fn begin_without_a_place_id_is_refused() {
    let mut state = AppState::new();
    let result = state.create_server(Some(experience()), None, 42, "abc".to_string());
    assert_eq!(result.unwrap_err(), ApiError::MissingHeaders);
    assert_eq!(state.pending_connections.len(), 0);
}

#[test]
fn begin_with_a_token_in_use_is_refused() {
    let mut state = AppState::new();
    let token = "t".repeat(64);
    let first = state.create_server_with_token(
        Some(experience()),
        Some(1),
        1,
        "abc".to_string(),
        token.clone(),
    );
    assert_eq!(first.unwrap().message, token);
    let pending_again = state.create_server_with_token(
        Some(experience()),
        Some(1),
        2,
        "abc".to_string(),
        token.clone(),
    );
    assert_eq!(pending_again.unwrap_err(), ApiError::InternalError);
    assert_eq!(state.pending_connections.len(), 1);
    state.verify_server_at(&token, 1, 1, String::new(), None, at(0)).unwrap();
    let live_again = state.create_server_with_token(
        Some(experience()),
        Some(1),
        3,
        "abc".to_string(),
        token.clone(),
    );
    assert_eq!(live_again.unwrap_err(), ApiError::InternalError);
    assert_eq!(state.pending_connections.len(), 0);
    assert_eq!(state.servers.len(), 1);
}

#[test]
fn verify_of_an_unknown_token_is_refused() {
    let mut state = AppState::new();
    let result = state.verify_server_at(&"nobody".to_string(), 1, 1, String::new(), None, at(0));
    assert_eq!(result, Err(ApiError::GenericInvalidRequest));
    assert_eq!(state.servers.len(), 0);
    state.create_server(Some(experience()), Some(1), 1, "abc".to_string()).unwrap();
    let result = state.verify_server_at(&"nobody".to_string(), 1, 1, String::new(), None, at(0));
    assert_eq!(result, Err(ApiError::GenericInvalidRequest));
    assert_eq!(state.servers.len(), 0);
    assert_eq!(state.pending_connections.len(), 1);
}

#[test]
fn verify_succeeds_at_most_once() {
    let mut state = AppState::new();
    let token = state
        .create_server(Some(experience()), Some(1), 1, "abc".to_string())
        .unwrap()
        .message;
    assert_eq!(state.verify_server_at(&token, 1, 1, String::new(), None, at(0)), Ok(()));
    assert_eq!(
        state.verify_server_at(&token, 1, 1, String::new(), None, at(1)),
        Err(ApiError::GenericInvalidRequest)
    );
    assert_eq!(state.servers.len(), 1);
    assert_eq!(state.pending_connections.len(), 0);
}

#[test]
fn verified_record_is_fresh() {
    let mut state = AppState::new();
    let token = state
        .create_server(Some(experience()), Some(9001), 42, "abc".to_string())
        .unwrap()
        .message;
    let now = Timestamp::new(1_700_000_000, 250);
    state
        .verify_server_at(&token, 9002, 5, "private".to_string(), Some("NL".to_string()), now)
        .unwrap();
    assert!(!state.pending_connections.contains(&token));
    let server = state.servers.get(&token).unwrap();
    assert_eq!(server.id, 42);
    assert_eq!(server.place_id, 9002);
    assert_eq!(server.place_version, 5);
    assert_eq!(server.private_server_id, Some("private".to_string()));
    assert_eq!(server.country, Some("NL".to_string()));
    assert!(server.players.is_empty());
    assert!(!server.has_requested_actions);
    assert_eq!(server.ack_token, None);
    assert_eq!(server.created_at, now);
    assert_eq!(server.last_ack_at, now);
    assert_eq!(server.last_ack_sent_at, now);
    assert_eq!(server.secret_topic, "abc");
    assert_eq!(server.connection_token, token);
    assert_eq!(server.experience.id, 77);
    assert_eq!(server.experience.open_cloud_api_key, "cloud-key");
}

#[test]
fn handshake_then_heartbeat() {
    let mut state = AppState::new();
    let begin = state
        .create_server(Some(experience()), Some(9001), 42, "abc".to_string())
        .unwrap();
    assert_eq!(begin.topic, "abc0");
    let token = begin.message;
    state.verify_server_at(&token, 9001, 5, String::new(), None, at(100)).unwrap();
    {
        let server = state.servers.get(&token).unwrap();
        assert_eq!(server.place_version, 5);
        assert_eq!(server.private_server_id, None);
    }
    let early = state.servers.sweep_at(Timestamp::new(109, 999_000_000));
    assert!(early.is_empty());
    assert_eq!(state.servers.get(&token).unwrap().ack_token, None);
    let pings = state.servers.sweep_at(at(120));
    assert_eq!(pings.len(), 1);
    assert_eq!(pings[0].topic, "abc1");
    assert_eq!(pings[0].experience_id, 77);
    assert_eq!(pings[0].api_key, "cloud-key");
    assert_eq!(pings[0].message.len(), 64);
    {
        let server = state.servers.get(&token).unwrap();
        assert_eq!(server.ack_token, Some(pings[0].message.clone()));
        assert_eq!(server.last_ack_sent_at, at(120));
        assert_eq!(server.last_ack_at, at(100));
    }
    assert_eq!(state.servers.server_ack_at(&token, &pings[0].message, at(123)), Ok(()));
    let server = state.servers.get(&token).unwrap();
    assert_eq!(server.ack_token, None);
    assert_eq!(server.last_ack_at, at(123));
    assert_eq!(server.last_ack_sent_at, at(120));
}

#[test]
fn connected_helper_yields_a_live_record() {
    let mut state = AppState::new();
    let token = connected(&mut state, "abc");
    assert!(state.servers.contains(&token));
    assert_eq!(state.servers.len(), 1);
}

#[test]
fn headers_are_required() {
    assert_eq!(get_token_from_request(None), Err(ApiError::InvalidApiKey));
    assert_eq!(get_token_from_request(Some("tok".to_string())), Ok("tok".to_string()));
    assert_eq!(get_place_id_from_request(None), Err(ApiError::MissingHeaders));
    assert_eq!(get_place_id_from_request(Some(12)), Ok(12));
}

#[test]
fn only_the_privileged_key_is_admitted() {
    let key = "master".to_string();
    assert_eq!(check_privileged(Some(&"master".to_string()), &key), Ok(()));
    assert_eq!(check_privileged(Some(&"other".to_string()), &key), Err(ApiError::InvalidApiKey));
    assert_eq!(check_privileged(None, &key), Err(ApiError::InvalidApiKey));
}

#[test]
fn verify_stamps_the_record_with_one_instant() {
    let mut state = AppState::new();
    let token = state
        .create_server(Some(experience()), Some(9001), 42, "abc".to_string())
        .unwrap()
        .message;
    assert_eq!(state.verify_server(&token, 9001, 5, String::new(), None), Ok(()));
    assert_eq!(
        state.verify_server(&token, 9001, 5, String::new(), None),
        Err(ApiError::GenericInvalidRequest)
    );
    let server = state.servers.get(&token).unwrap();
    assert_eq!(server.last_ack_at, server.created_at);
    assert_eq!(server.last_ack_sent_at, server.created_at);
    assert!(server.created_at.secs > 1_600_000_000);
    assert_eq!(server.place_version, 5);
    assert_eq!(server.private_server_id, None);
}

#[test]
fn a_sweep_right_after_verification_does_nothing() {
    let mut state = AppState::new();
    let token = state
        .create_server(Some(experience()), Some(9001), 42, "abc".to_string())
        .unwrap()
        .message;
    state.verify_server(&token, 9001, 5, String::new(), None).unwrap();
    let pings = state.servers.sweep();
    assert!(pings.is_empty());
    assert!(state.servers.contains(&token));
    assert_eq!(
        state.servers.server_ack(&token, &"anything".to_string()),
        Err(ApiError::GenericInvalidRequest)
    );
}

#[test]
fn the_clock_drives_ping_and_acknowledgement() {
    let mut state = AppState::new();
    let token = state
        .create_server(Some(experience()), Some(9001), 42, "abc".to_string())
        .unwrap()
        .message;
    state.verify_server_at(&token, 9001, 5, String::new(), None, at(1_000)).unwrap();
    let pings = state.servers.sweep();
    assert_eq!(pings.len(), 1);
    assert_eq!(pings[0].topic, "abc1");
    let sent = state.servers.get(&token).unwrap().last_ack_sent_at;
    assert!(sent.secs > 1_600_000_000);
    assert!(state.servers.sweep().is_empty());
    assert!(state.servers.contains(&token));
    assert_eq!(state.servers.server_ack(&token, &pings[0].message), Ok(()));
    let server = state.servers.get(&token).unwrap();
    assert_eq!(server.ack_token, None);
    assert!(server.last_ack_at.secs >= sent.secs);
    assert_eq!(server.last_ack_sent_at, sent);
}

#[test]
fn the_clock_evicts_a_record_whose_ping_is_long_overdue() {
    let mut state = AppState::new();
    let token = state
        .create_server(Some(experience()), Some(9001), 42, "abc".to_string())
        .unwrap()
        .message;
    state.verify_server_at(&token, 9001, 5, String::new(), None, at(1_000)).unwrap();
    assert_eq!(state.servers.sweep_at(at(1_010)).len(), 1);
    assert!(state.servers.sweep().is_empty());
    assert!(!state.servers.contains(&token));
}
