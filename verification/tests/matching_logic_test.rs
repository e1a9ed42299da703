use battle_server::clock::{Timestamp, EXPIRY_MILLIS};
use battle_server::game::manager::{GameManager, CLEANUP_INTERVAL_SECS, TICK_INTERVAL_MS};
use battle_server::handlers::websocket::{CLIENT_TIMEOUT_MILLIS, HEARTBEAT_INTERVAL_MILLIS};
use battle_server::handlers::MatchingSessions;
use battle_server::models::{Character, MatchingSession, MatchingStatus, Player};

fn now_millis() -> i64 {
    chrono::Utc::now().timestamp_millis()
}

fn matched_session(matching_id: u128, a: &str, b: &str) -> MatchingSession {
    MatchingSession {
        matching_id,
        creator_username: None,
        player_a: Player::new(a.to_string()),
        player_b: Some(Player::new(b.to_string())),
        status: MatchingStatus::Matched,
        created_at: Timestamp::from_millis(now_millis()),
        last_active_at: None,
        is_battle_started: false,
        is_battle_finished: false,
    }
}

#[test]
fn test_matching_validity_logic() {
    let mut session = matched_session(1, "player_a", "player_b");

    assert!(session.is_valid());

    session.last_active_at = None;
    assert!(session.is_valid());

    session.last_active_at = Some(Timestamp::from_millis(now_millis() - 30 * 1000));
    assert!(session.is_valid());

    session.last_active_at = Some(Timestamp::from_millis(now_millis() - 61 * 1000));
    assert!(!session.is_valid());

    session.last_active_at = None;
    session.is_battle_finished = true;
    assert!(!session.is_valid());
}

#[test]
fn test_cleanup_task() {
    let mut sessions = MatchingSessions::new();
    let mut manager = GameManager::new();
    let matching_id: u128 = 0x1234;

    let mut session = matched_session(matching_id, "a", "b");
    session.last_active_at = Some(Timestamp::from_millis(now_millis() - 65 * 1000));
    sessions.insert(session);

    manager.cleanup(&mut sessions, Timestamp::from_millis(now_millis()));

    assert!(sessions.get(matching_id).is_none());
}

#[test]
fn validity_turns_exactly_after_sixty_seconds() {
    let mut session = matched_session(2, "a", "b");
    session.last_active_at = Some(Timestamp::from_millis(1_000));
    assert!(session.is_valid_at(Timestamp::from_millis(1_000)));
    assert!(session.is_valid_at(Timestamp::from_millis(61_000)));
    assert!(!session.is_valid_at(Timestamp::from_millis(61_001)));
    // A clock that runs behind the time of leaving never expires a match.
    assert!(session.is_valid_at(Timestamp::from_millis(0)));
}

#[test]
fn validity_does_not_overflow_at_the_ends_of_time() {
    let mut session = matched_session(3, "a", "b");
    session.last_active_at = Some(Timestamp::from_millis(i64::MIN));
    assert!(!session.is_valid_at(Timestamp::from_millis(i64::MAX)));
    session.last_active_at = Some(Timestamp::from_millis(i64::MAX));
    assert!(session.is_valid_at(Timestamp::from_millis(i64::MIN)));
}

#[test]
fn cleanup_keeps_valid_matches_and_drops_their_expired_neighbours() {
    let mut sessions = MatchingSessions::new();
    let mut manager = GameManager::new();
    let mut gone = matched_session(10, "a", "b");
    gone.last_active_at = Some(Timestamp::from_millis(0));
    let mut kept = matched_session(11, "c", "d");
    kept.last_active_at = Some(Timestamp::from_millis(50_000));
    let mut finished = matched_session(12, "e", "f");
    finished.is_battle_finished = true;
    let connected = matched_session(13, "g", "h");
    sessions.insert(gone);
    sessions.insert(kept);
    sessions.insert(finished);
    sessions.insert(connected);

    manager.cleanup(&mut sessions, Timestamp::from_millis(70_000));

    assert!(sessions.get(10).is_none());
    assert!(sessions.get(11).is_some());
    assert!(sessions.get(12).is_none());
    assert!(sessions.get(13).is_some());
    assert_eq!(sessions.len(), 2);
}

#[test]
fn new_sessions_wait_under_distinct_ids() {
    let one = MatchingSession::new("p".to_string());
    let two = MatchingSession::new_with_username("p".to_string(), Some("Name".to_string()));
    assert_ne!(one.matching_id, two.matching_id);
    assert_eq!(one.status, MatchingStatus::Waiting);
    assert_eq!(one.player_a.id, "p");
    assert_eq!(one.creator_username, None);
    assert_eq!(two.creator_username, Some("Name".to_string()));
    assert_eq!(two.player_a.username, Some("Name".to_string()));
    assert!(two.player_b.is_none());
    assert!(!two.is_battle_started && !two.is_battle_finished);
    assert!(two.last_active_at.is_none());
    // The creation time is read from the clock.
    assert!((two.created_at.millis - now_millis()).abs() < 60_000);
}

#[test]
fn both_ready_needs_two_ready_players_with_characters() {
    let mut session = matched_session(20, "a", "b");
    assert!(!session.is_both_ready());
    session.player_a.ready = true;
    session.player_b.as_mut().unwrap().ready = true;
    // Ready flags alone are not enough.
    assert!(!session.is_both_ready());
    session.player_a.character = Some(Character::new("m1".to_string()));
    assert!(!session.is_both_ready());
    session.player_b.as_mut().unwrap().character = Some(Character::new("m2".to_string()));
    assert!(session.is_both_ready());
    session.player_b = None;
    assert!(!session.is_both_ready());
}

#[test]
fn the_periods_and_limits_are_those_of_the_protocol() {
    assert_eq!(TICK_INTERVAL_MS, 16);
    assert_eq!(CLEANUP_INTERVAL_SECS, 1);
    assert_eq!(HEARTBEAT_INTERVAL_MILLIS, 5_000);
    assert_eq!(CLIENT_TIMEOUT_MILLIS, 10_000);
    assert_eq!(EXPIRY_MILLIS, 60_000);
}
