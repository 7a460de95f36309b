use koko::clock::Timestamp;
use koko::error::ApiError;
use koko::model::{Due, Experience, PendingConnection, Server, ServerPlayer};
use koko::pending::PendingStore;
use koko::registry::Registry;
use std::collections::HashMap;

fn at(secs: i64) -> Timestamp {
    Timestamp::new(secs, 0)
}

fn pending(token: &str, experience_id: u64) -> PendingConnection {
    PendingConnection {
        place_id: 1,
        server_id: 7,
        experience: Experience { id: experience_id, open_cloud_api_key: "key".to_string() },
        secret_topic: "topic".to_string(),
        connection_token: token.to_string(),
    }
}

fn server(token: &str, experience_id: u64, now: Timestamp) -> Server {
    Server::promote(pending(token, experience_id), 1, 3, String::new(), None, now)
}

fn player(id: u64, referrer: u64) -> ServerPlayer {
    ServerPlayer {
        id,
        name: format!("Player {}", id),
        username: format!("player{}", id),
        has_verified_badge: false,
        joined_at: at(5),
        joined_via_user: referrer,
    }
}

fn registry_of(tokens: &[&str]) -> Registry {
    let mut registry = Registry::new();
    for token in tokens {
        registry.insert(server(token, 1, at(0)));
    }
    registry
}

#[test]
fn pending_put_refuses_a_token_twice() {
    let mut store = PendingStore::new();
    assert_eq!(store.put(pending("a", 1)), Ok(()));
    assert_eq!(store.put(pending("b", 1)), Ok(()));
    assert_eq!(store.put(pending("a", 2)), Err(ApiError::InternalError));
    assert_eq!(store.len(), 2);
    assert_eq!(store.entries[0].experience.id, 1);
}

#[test]
fn pending_take_consumes_the_entry() {
    let mut store = PendingStore::new();
    store.put(pending("a", 1)).unwrap();
    store.put(pending("b", 2)).unwrap();
    let taken = store.take(&"a".to_string()).unwrap();
    assert_eq!(taken.connection_token, "a");
    assert_eq!(taken.experience.id, 1);
    assert!(store.take(&"a".to_string()).is_none());
    assert!(store.contains(&"b".to_string()));
    assert!(!store.contains(&"a".to_string()));
    assert_eq!(store.len(), 1);
}

#[test]
fn insert_replaces_the_record_under_a_token() {
    let mut registry = registry_of(&["a", "b"]);
    registry.insert(server("a", 9, at(0)));
    assert_eq!(registry.len(), 2);
    assert_eq!(registry.get(&"a".to_string()).unwrap().experience.id, 9);
    assert_eq!(registry.get(&"b".to_string()).unwrap().experience.id, 1);
    assert!(registry.get(&"c".to_string()).is_none());
    assert_eq!(registry.position(&"b".to_string()), Some(1));
    assert_eq!(registry.position(&"c".to_string()), None);
}

#[test]
fn remove_takes_the_record_out() {
    let mut registry = registry_of(&["a", "b", "c"]);
    let removed = registry.remove(&"b".to_string()).unwrap();
    assert_eq!(removed.connection_token, "b");
    assert!(registry.remove(&"b".to_string()).is_none());
    assert_eq!(registry.len(), 2);
    assert!(registry.contains(&"a".to_string()));
    assert!(registry.contains(&"c".to_string()));
}

#[test]
fn remove_server_reports_unknown_tokens() {
    let mut registry = registry_of(&["a"]);
    assert_eq!(registry.remove_server(&"zzz".to_string()), Err(ApiError::GenericInvalidRequest));
    assert_eq!(registry.len(), 1);
    assert_eq!(registry.remove_server(&"a".to_string()), Ok(()));
    assert_eq!(registry.len(), 0);
    assert_eq!(registry.remove_server(&"a".to_string()), Err(ApiError::GenericInvalidRequest));
}

#[test]
fn actions_are_granted_once() {
    let mut registry = Registry::new();
    registry.insert(server("a", 31, at(0)));
    assert_eq!(registry.get_server_actions(&"a".to_string()), Ok(31));
    assert!(registry.get(&"a".to_string()).unwrap().has_requested_actions);
    assert_eq!(registry.get_server_actions(&"a".to_string()), Err(ApiError::TooManyRequests));
    assert_eq!(registry.get_server_actions(&"a".to_string()), Err(ApiError::TooManyRequests));
    assert_eq!(
        registry.get_server_actions(&"b".to_string()),
        Err(ApiError::GenericInvalidRequest)
    );
}

#[test]
fn roster_operations_on_an_unknown_token_change_nothing() {
    let mut registry = registry_of(&["a"]);
    registry.set_server_player(&"a".to_string(), 1, player(1, 0)).unwrap();
    let unknown = "nobody".to_string();
    let mut roster = HashMap::new();
    roster.insert(8, player(8, 0));
    assert_eq!(registry.set_server_players(&unknown, roster), Err(ApiError::GenericInvalidRequest));
    assert_eq!(
        registry.set_server_player(&unknown, 2, player(2, 0)),
        Err(ApiError::GenericInvalidRequest)
    );
    assert_eq!(registry.remove_server_player(&unknown, 1), Err(ApiError::GenericInvalidRequest));
    assert_eq!(registry.len(), 1);
    let players = &registry.get(&"a".to_string()).unwrap().players;
    assert_eq!(players.len(), 1);
    assert_eq!(players[&1].name, "Player 1");
}

#[test]
fn roster_operations_on_a_live_record() {
    let mut registry = registry_of(&["a", "b"]);
    let a = "a".to_string();
    assert_eq!(registry.set_server_player(&a, 1, player(1, 0)), Ok(()));
    assert_eq!(registry.set_server_player(&a, 2, player(2, 1)), Ok(()));
    assert_eq!(registry.set_server_player(&a, 1, player(10, 0)), Ok(()));
    {
        let players = &registry.get(&a).unwrap().players;
        assert_eq!(players.len(), 2);
        assert_eq!(players[&1].id, 10);
        assert_eq!(players[&2].joined_via_user(), Some(1));
    }
    assert_eq!(registry.remove_server_player(&a, 1), Ok(()));
    assert_eq!(registry.remove_server_player(&a, 99), Ok(()));
    {
        let players = &registry.get(&a).unwrap().players;
        assert_eq!(players.len(), 1);
        assert!(players.contains_key(&2));
    }
    let mut roster = HashMap::new();
    roster.insert(5, player(5, 0));
    roster.insert(6, player(6, 0));
    roster.insert(7, player(7, 0));
    assert_eq!(registry.set_server_players(&a, roster), Ok(()));
    let players = &registry.get(&a).unwrap().players;
    assert_eq!(players.len(), 3);
    assert!(!players.contains_key(&2));
    assert!(registry.get(&"b".to_string()).unwrap().players.is_empty());
}

#[test]
fn joined_via_user_reads_zero_as_nobody() {
    assert_eq!(player(1, 0).joined_via_user(), None);
    assert_eq!(player(1, 44).joined_via_user(), Some(44));
}

#[test]
fn servers_are_listed_by_experience() {
    let mut registry = Registry::new();
    registry.insert(server("a", 1, at(0)));
    registry.insert(server("b", 2, at(0)));
    registry.insert(server("c", 1, at(0)));
    let found = registry.of_experience(1);
    assert_eq!(found.len(), 2);
    assert_eq!(found[0].connection_token, "a");
    assert_eq!(found[1].connection_token, "c");
    assert_eq!(registry.of_experience(2).len(), 1);
    assert!(registry.of_experience(3).is_empty());
}

#[test]
fn servers_are_listed_for_the_privileged_key_only() {
    let mut registry = Registry::new();
    registry.insert(server("a", 1, at(0)));
    registry.insert(server("b", 2, at(0)));
    let key = "master".to_string();
    let found = registry.get_experience_servers(Some(&"master".to_string()), &key, 2).unwrap();
    assert_eq!(found.len(), 1);
    assert_eq!(found[0].connection_token, "b");
    assert_eq!(
        registry.get_experience_servers(Some(&"guess".to_string()), &key, 2).unwrap_err(),
        ApiError::InvalidApiKey
    );
    assert_eq!(
        registry.get_experience_servers(None, &key, 2).unwrap_err(),
        ApiError::InvalidApiKey
    );
}

#[test]
fn sweep_leaves_fresh_records_alone() {
    let mut registry = Registry::new();
    registry.insert(server("a", 1, at(100)));
    let pings = registry.sweep_at(Timestamp::new(109, 999_999_999));
    assert!(pings.is_empty());
    let record = registry.get(&"a".to_string()).unwrap();
    assert_eq!(record.ack_token, None);
    assert_eq!(record.last_ack_sent_at, at(100));
}

#[test]
fn sweep_pings_then_evicts_a_silent_record() {
    let mut registry = Registry::new();
    registry.insert(server("a", 1, at(100)));
    let pings = registry.sweep_at(at(110));
    assert_eq!(pings.len(), 1);
    assert_eq!(pings[0].topic, "topic1");
    assert_eq!(pings[0].api_key, "key");
    assert_eq!(pings[0].experience_id, 1);
    assert_eq!(
        registry.get(&"a".to_string()).unwrap().ack_token,
        Some(pings[0].message.clone())
    );
    let pings = registry.sweep_at(at(119));
    assert!(pings.is_empty());
    assert!(registry.contains(&"a".to_string()));
    let pings = registry.sweep_at(at(120));
    assert!(pings.is_empty());
    assert!(!registry.contains(&"a".to_string()));
    assert_eq!(registry.len(), 0);
}

#[test]
fn sweep_keeps_a_record_that_keeps_answering() {
    let mut registry = Registry::new();
    registry.insert(server("a", 1, at(0)));
    let a = "a".to_string();
    let mut now: i64 = 0;
    for _ in 0..5 {
        now += 10;
        let pings = registry.sweep_at(at(now));
        assert_eq!(pings.len(), 1);
        assert_eq!(registry.server_ack_at(&a, &pings[0].message, at(now + 1)), Ok(()));
        now += 1;
        let record = registry.get(&a).unwrap();
        assert_eq!(record.ack_token, None);
        assert_eq!(record.last_ack_at, at(now));
    }
    assert!(registry.contains(&a));
}

#[test]
fn sweep_treats_each_record_on_its_own() {
    let mut registry = Registry::new();
    registry.insert(server("idle", 1, at(0)));
    registry.insert(server("fresh", 2, at(15)));
    registry.insert(server("silent", 3, at(0)));
    registry.insert(server("idle2", 4, at(1)));
    let first = registry.sweep_at(at(10));
    assert_eq!(first.len(), 2);
    assert_eq!(first[0].experience_id, 1);
    assert_eq!(first[1].experience_id, 3);
    registry.server_ack_at(&"idle".to_string(), &first[0].message, at(12)).unwrap();
    let second = registry.sweep_at(at(20));
    assert_eq!(second.len(), 1);
    assert_eq!(second[0].experience_id, 4);
    assert!(!registry.contains(&"silent".to_string()));
    assert!(registry.contains(&"idle".to_string()));
    assert!(registry.contains(&"fresh".to_string()));
    assert!(registry.contains(&"idle2".to_string()));
    assert_eq!(registry.len(), 3);
    assert_eq!(registry.get(&"fresh".to_string()).unwrap().ack_token, None);
}

#[test]
fn wrong_ack_changes_nothing() {
    let mut registry = Registry::new();
    registry.insert(server("a", 1, at(0)));
    let a = "a".to_string();
    assert_eq!(
        registry.server_ack_at(&a, &"anything".to_string(), at(1)),
        Err(ApiError::GenericInvalidRequest)
    );
    assert_eq!(registry.get(&a).unwrap().last_ack_at, at(0));
    let pings = registry.sweep_at(at(10));
    let ping = pings[0].message.clone();
    assert_eq!(
        registry.server_ack_at(&a, &"wrong".to_string(), at(11)),
        Err(ApiError::GenericInvalidRequest)
    );
    assert_eq!(
        registry.server_ack_at(&"b".to_string(), &ping, at(11)),
        Err(ApiError::GenericInvalidRequest)
    );
    let record = registry.get(&a).unwrap();
    assert_eq!(record.ack_token, Some(ping.clone()));
    assert_eq!(record.last_ack_at, at(0));
    assert_eq!(record.last_ack_sent_at, at(10));
    assert_eq!(registry.server_ack_at(&a, &ping, at(12)), Ok(()));
    assert_eq!(registry.server_ack_at(&a, &ping, at(13)), Err(ApiError::GenericInvalidRequest));
    assert_eq!(registry.get(&a).unwrap().last_ack_at, at(12));
}

#[test]
fn due_follows_the_heartbeat_period() {
    let mut record = server("a", 1, at(100));
    assert_eq!(record.due(at(100)), Due::Wait);
    assert_eq!(record.due(Timestamp::new(109, 999_999_999)), Due::Wait);
    assert_eq!(record.due(at(110)), Due::Ping);
    assert_eq!(record.due(at(50)), Due::Wait);
    let publish = record.mark_pinged("p".repeat(64), at(110));
    assert_eq!(publish.message, "p".repeat(64));
    assert_eq!(publish.topic, "topic1");
    assert_eq!(record.due(at(119)), Due::Wait);
    assert_eq!(record.due(at(120)), Due::Evict);
    assert_eq!(record.acknowledge(&"q".repeat(64), at(121)), Err(ApiError::GenericInvalidRequest));
    assert_eq!(record.acknowledge(&"p".repeat(64), at(121)), Ok(()));
    assert_eq!(record.due(at(130)), Due::Wait);
    assert_eq!(record.due(at(131)), Due::Ping);
}
