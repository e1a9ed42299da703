use battle_server::clock::Timestamp;
use battle_server::handlers::matching::{
    create_matching, create_matching_at, join_matching, join_matching_at, ReplyStatus,
};
use battle_server::handlers::MatchingSessions;
use battle_server::models::MatchingStatus;

#[test]
fn test_create_matching() {
    let mut sessions = MatchingSessions::new();
    let matching_id = create_matching(&mut sessions, "test_player_a".to_string());
    assert_ne!(matching_id, 0);
    let session = sessions.get(matching_id).expect("the match is registered");
    assert_eq!(session.player_a.id, "test_player_a");
    assert_eq!(session.status, MatchingStatus::Waiting);
}

#[test]
fn test_join_matching_success() {
    let mut sessions = MatchingSessions::new();
    let matching_id = create_matching(&mut sessions, "player_a".to_string());

    let reply = join_matching(&mut sessions, matching_id, "player_b".to_string());
    assert_eq!(reply.status, ReplyStatus::Success);
    assert!(reply.success);
    assert_eq!(reply.message.as_deref(), Some("Matching successful"));

    let session = sessions.get(matching_id).unwrap();
    assert_eq!(session.status, MatchingStatus::Matched);
    assert_eq!(session.player_b.as_ref().unwrap().id, "player_b");
}

#[test]
fn test_join_matching_not_found() {
    let mut sessions = MatchingSessions::new();
    let _ = create_matching(&mut sessions, "player_a".to_string());
    let reply = join_matching(&mut sessions, 0xdead_beef, "player_b".to_string());
    assert_eq!(reply.status, ReplyStatus::NotFound);
    assert!(!reply.success);
    assert_eq!(reply.message.as_deref(), Some("Matching session not found"));
}

#[test]
fn join_by_request_refuses_the_creator_and_strangers() {
    let mut sessions = MatchingSessions::new();
    let now = Timestamp::from_millis(1_000);
    let id = create_matching_at(&mut sessions, "a".to_string(), 5, now);
    assert_eq!(id, 5);

    let own = join_matching_at(&mut sessions, 5, "a".to_string(), now);
    assert_eq!(own.status, ReplyStatus::BadRequest);
    assert_eq!(own.message.as_deref(), Some("Cannot join your own matching session"));
    assert_eq!(sessions.get(5).unwrap().status, MatchingStatus::Waiting);

    let joined = join_matching_at(&mut sessions, 5, "b".to_string(), now);
    assert_eq!(joined.status, ReplyStatus::Success);

    let stranger = join_matching_at(&mut sessions, 5, "c".to_string(), now);
    assert_eq!(stranger.status, ReplyStatus::BadRequest);
    assert!(!stranger.success);
    assert_eq!(stranger.message.as_deref(), Some("This matching session is not available"));
    assert_eq!(sessions.get(5).unwrap().player_b.as_ref().unwrap().id, "b");
}

#[test]
fn join_by_request_lets_the_second_player_back_in_while_valid() {
    let mut sessions = MatchingSessions::new();
    let now = Timestamp::from_millis(1_000);
    create_matching_at(&mut sessions, "a".to_string(), 5, now);
    join_matching_at(&mut sessions, 5, "b".to_string(), now);

    let again = join_matching_at(&mut sessions, 5, "b".to_string(), now);
    assert_eq!(again.status, ReplyStatus::Success);
    assert_eq!(again.message.as_deref(), Some("Rejoined matching session"));

    sessions.sessions.get_mut(&5).unwrap().last_active_at = Some(Timestamp::from_millis(2_000));
    let late = join_matching_at(&mut sessions, 5, "b".to_string(), Timestamp::from_millis(63_000));
    assert_eq!(late.status, ReplyStatus::BadRequest);
    assert_eq!(late.message.as_deref(), Some("This matching session is not available"));
    // A refused request changes nothing.
    assert_eq!(
        sessions.get(5).unwrap().last_active_at,
        Some(Timestamp::from_millis(2_000))
    );

    let in_time = join_matching_at(&mut sessions, 5, "b".to_string(), Timestamp::from_millis(62_000));
    assert_eq!(in_time.status, ReplyStatus::Success);
    assert_eq!(in_time.message.as_deref(), Some("Rejoined matching session"));
    // A request connects nobody: the match stays abandoned since then.
    assert_eq!(
        sessions.get(5).unwrap().last_active_at,
        Some(Timestamp::from_millis(2_000))
    );
    assert!(!sessions.get(5).unwrap().is_valid_at(Timestamp::from_millis(62_001)));
}

#[test]
fn join_by_request_leaves_the_expiry_timer_and_the_other_matches_alone() {
    let mut sessions = MatchingSessions::new();
    create_matching_at(&mut sessions, "a".to_string(), 5, Timestamp::from_millis(1_000));
    create_matching_at(&mut sessions, "c".to_string(), 6, Timestamp::from_millis(1_500));
    sessions.sessions.get_mut(&5).unwrap().last_active_at = Some(Timestamp::from_millis(2_000));
    let other_before = sessions.get(6).unwrap().clone();

    let joined = join_matching_at(&mut sessions, 5, "b".to_string(), Timestamp::from_millis(3_000));
    assert_eq!(joined.status, ReplyStatus::Success);
    assert_eq!(joined.message.as_deref(), Some("Matching successful"));
    let session = sessions.get(5).unwrap();
    assert_eq!(session.status, MatchingStatus::Matched);
    assert_eq!(session.player_b.as_ref().unwrap().id, "b");
    assert_eq!(session.last_active_at, Some(Timestamp::from_millis(2_000)));
    assert_eq!(session.created_at, Timestamp::from_millis(1_000));
    assert_eq!(sessions.get(6).unwrap(), &other_before);

    // Both players stay away: the match expires as if nobody had asked.
    let removed = sessions.remove_expired(Timestamp::from_millis(62_001));
    assert_eq!(removed, vec![5]);
    assert!(sessions.get(5).is_none());
    assert_eq!(sessions.get(6).unwrap(), &other_before);
}
