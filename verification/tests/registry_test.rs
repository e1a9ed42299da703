use battle_server::clock::Timestamp;
use battle_server::game::manager::{game_result, ApplyDamage, Battle, GameManager, StartGame};
use battle_server::game::state::GameStateManager;
use battle_server::handlers::{
    find_queue, Channel, ChannelEntry, MatchingSessions, WaitingPlayer, WaitingPlayers, WsChannels,
};
use battle_server::handlers::websocket::broadcast_update_matchings;
use battle_server::handlers::websocket::SharedState;
use battle_server::models::{
    AttackType, Character, GameResult, JoinOutcome, MatchingInfo, MatchingSession, MatchingStatus,
    Vector3, WsMessage,
};

fn at(millis: i64) -> Timestamp {
    Timestamp::from_millis(millis)
}

fn session(id: u128, creator: &str) -> MatchingSession {
    MatchingSession::create(id, creator.to_string(), Some(creator.to_uppercase()), at(id as i64))
}

#[test]
fn the_match_registry_holds_one_match_per_id() {
    let mut sessions = MatchingSessions::new();
    sessions.insert(session(1, "a"));
    sessions.insert(session(2, "b"));
    sessions.insert(session(1, "c"));
    assert_eq!(sessions.len(), 2);
    assert_eq!(sessions.get(1).unwrap().player_a.id, "c");
    assert_eq!(sessions.get(2).unwrap().player_a.id, "b");
    assert!(sessions.is_wf());
    let mut ids = sessions.ids();
    ids.sort();
    assert_eq!(ids, vec![1, 2]);
    assert!(sessions.get(3).is_none());

    let removed = sessions.remove(1).unwrap();
    assert_eq!(removed.player_a.id, "c");
    assert!(sessions.remove(1).is_none());
    assert_eq!(sessions.ids(), vec![2]);
    assert_eq!(sessions.len(), 1);
}

#[test]
fn the_lobby_lists_the_matches_of_the_others_in_order() {
    let mut shared = SharedState::new();
    for (id, player) in [(1u128, "a"), (2, "b"), (3, "c")] {
        shared.sessions.insert(session(id, player));
        shared.waiting_players.insert(player.to_string(), id, id as u64 * 10);
    }
    // An advertiser whose match is gone is listed for nobody.
    shared.waiting_players.insert("d".to_string(), 4, 40);

    let lines = shared.waiting_players.snapshot(&shared.sessions, &"b".to_string());
    assert_eq!(
        lines,
        vec![
            MatchingInfo {
                matching_id: 1,
                creator_username: Some("A".to_string()),
                created_at: at(1),
                status: MatchingStatus::Waiting,
            },
            MatchingInfo {
                matching_id: 3,
                creator_username: Some("C".to_string()),
                created_at: at(3),
                status: MatchingStatus::Waiting,
            },
        ]
    );
    let all = shared.waiting_players.snapshot(&shared.sessions, &"nobody".to_string());
    assert_eq!(all.len(), 3);

    let out = broadcast_update_matchings(&shared, at(99));
    assert_eq!(out.len(), 4);
    let queues: Vec<u64> = out.iter().map(|o| o.queue).collect();
    assert_eq!(queues, vec![10, 20, 30, 40]);
    match &out[3].message {
        WsMessage::UpdateMatchings { current_matchings, timestamp } => {
            assert_eq!(current_matchings.len(), 3);
            assert_eq!(*timestamp, at(99));
        }
        m => panic!("Expected UpdateMatchings, got {:?}", m),
    }
    match &out[0].message {
        WsMessage::UpdateMatchings { current_matchings, .. } => {
            let ids: Vec<u128> = current_matchings.iter().map(|m| m.matching_id).collect();
            assert_eq!(ids, vec![2, 3]);
        }
        m => panic!("Expected UpdateMatchings, got {:?}", m),
    }
}

#[test]
fn the_lobby_holds_one_entry_per_player() {
    let mut waiting = WaitingPlayers::new();
    waiting.insert("a".to_string(), 1, 10);
    waiting.insert("b".to_string(), 2, 20);
    waiting.insert("a".to_string(), 3, 30);
    assert_eq!(waiting.entries.len(), 2);
    assert_eq!(waiting.entries[0].matching_id, 3);
    assert_eq!(waiting.entries[0].queue, 30);
    assert_eq!(waiting.position(&"b".to_string()), Some(1));
    let gone = waiting.remove(&"a".to_string()).unwrap();
    assert_eq!((gone.matching_id, gone.queue), (3, 30));
    assert!(waiting.remove(&"a".to_string()).is_none());
    assert_eq!(waiting.entries.len(), 1);
}

#[test]
fn channels_are_kept_per_match_and_player() {
    let mut channels = WsChannels::new();
    let a = "a".to_string();
    let b = "b".to_string();
    channels.register(1, a.clone(), 10);
    channels.register(1, b.clone(), 20);
    channels.register(2, a.clone(), 30);
    channels.register(1, a.clone(), 11);
    assert_eq!(channels.channels.len(), 3);
    assert_eq!(channels.queue_for(1, &a), Some(11));
    assert_eq!(channels.queue_for(2, &a), Some(30));
    assert_eq!(channels.queue_for(2, &b), None);
    assert!(channels.is_connected(1));
    assert!(!channels.is_connected(3));

    let senders = channels.senders(1);
    assert_eq!(
        senders,
        vec![
            ChannelEntry { player_id: a.clone(), queue: 11 },
            ChannelEntry { player_id: b.clone(), queue: 20 },
        ]
    );
    assert_eq!(find_queue(&senders, &b), Some(20));
    assert_eq!(find_queue(&senders, &"c".to_string()), None);
    assert!(channels.senders(3).is_empty());

    // Only the last player to leave empties the match.
    assert!(!channels.unregister(1, &a));
    assert!(!channels.unregister(1, &a));
    assert!(channels.unregister(1, &b));
    assert!(!channels.is_connected(1));
    assert!(!channels.unregister(1, &b));
    assert!(!channels.unregister(3, &a));
    assert_eq!(channels.queue_for(2, &a), Some(30));
}

#[test]
fn a_match_walks_through_its_statuses_in_order() {
    let mut s = session(1, "a");
    assert_eq!(s.status, MatchingStatus::Waiting);
    assert!(!s.start_battle());
    assert_eq!(s.join("a".to_string()), JoinOutcome::OwnSession);
    assert_eq!(s.join("b".to_string()), JoinOutcome::Joined);
    assert_eq!(s.status, MatchingStatus::Matched);
    assert_eq!(s.join("c".to_string()), JoinOutcome::NotAvailable);
    assert_eq!(s.join("b".to_string()), JoinOutcome::Rejoined);
    assert_eq!(s.join("a".to_string()), JoinOutcome::NotAvailable);

    let a = "a".to_string();
    let b = "b".to_string();
    assert_eq!(s.opponent_of(&a), Some(b.clone()));
    assert_eq!(s.opponent_of(&b), Some(a.clone()));
    assert_eq!(s.select_character(&"c".to_string(), Character::new("m0".to_string())), None);
    assert!(s.player_a.character.is_none());
    assert_eq!(s.select_character(&a, Character::new("m1".to_string())), Some(b.clone()));
    assert!(!s.start_battle());
    assert_eq!(s.select_character(&b, Character::new("m2".to_string())), Some(a.clone()));
    assert!(s.is_both_ready());
    assert!(s.start_battle());
    assert_eq!(s.status, MatchingStatus::InGame);
    assert!(s.is_battle_started);
    assert!(!s.start_battle());
    assert_eq!(s.join("b".to_string()), JoinOutcome::NotAvailable);

    s.finish_battle();
    assert_eq!(s.status, MatchingStatus::Finished);
    assert!(s.is_battle_finished);
    assert!(!s.is_valid_at(at(0)));
    s.finish_battle();
    assert_eq!(s.status, MatchingStatus::Finished);
}

#[test]
fn a_character_chosen_in_a_waiting_match_prepares_the_creator_alone() {
    let mut s = session(1, "a");
    assert_eq!(s.select_character(&"a".to_string(), Character::new("m1".to_string())), None);
    assert!(s.player_a.ready);
    assert!(!s.start_battle());
    assert_eq!(s.status, MatchingStatus::Waiting);
}

#[test]
fn starting_a_battle_replaces_an_earlier_one_of_the_match() {
    let mut manager = GameManager::new();
    let senders = vec![ChannelEntry { player_id: "b".to_string(), queue: 2 }];
    let game = |model: &str| {
        GameStateManager::new(
            1,
            "a".to_string(),
            "b".to_string(),
            Character::new(model.to_string()),
            Character::new("m2".to_string()),
        )
    };
    let out = manager.handle_start_game(StartGame { game: game("m1"), ws_senders: senders.clone() }, at(1));
    // Only the connected participant is told.
    assert_eq!(out.len(), 1);
    assert_eq!(out[0].queue, 2);
    match &out[0].message {
        WsMessage::GameStart { opponent_character, your_player_id, .. } => {
            assert_eq!(opponent_character.model_id, "m1");
            assert_eq!(your_player_id, "b");
        }
        m => panic!("Expected GameStart, got {:?}", m),
    }
    manager.handle_start_game(StartGame { game: game("m9"), ws_senders: senders }, at(2));
    assert_eq!(manager.len(), 1);
    assert_eq!(manager.get(1).unwrap().game.player_a_character.model_id, "m9");
    assert!(manager.get(2).is_none());
    manager.remove(1);
    assert!(manager.battles.is_empty());
}

fn battle(id: u128, a: &str, b: &str) -> Battle {
    Battle {
        game: GameStateManager::new(
            id,
            a.to_string(),
            b.to_string(),
            Character::new("m1".to_string()),
            Character::new("m2".to_string()),
        ),
        senders: vec![
            ChannelEntry { player_id: a.to_string(), queue: id as u64 * 10 + 1 },
            ChannelEntry { player_id: b.to_string(), queue: id as u64 * 10 + 2 },
        ],
    }
}

#[test]
fn registries_tell_whether_they_are_in_order() {
    let mut sessions = MatchingSessions::new();
    assert!(sessions.is_wf());
    sessions.sessions.insert(1, session(1, "a"));
    sessions.sessions.insert(2, session(2, "b"));
    assert!(sessions.is_wf());
    sessions.sessions.insert(3, session(1, "c"));
    assert!(!sessions.is_wf());

    let mut waiting = WaitingPlayers::new();
    waiting.entries.push(WaitingPlayer { player_id: "a".to_string(), matching_id: 1, queue: 1 });
    waiting.entries.push(WaitingPlayer { player_id: "b".to_string(), matching_id: 1, queue: 1 });
    assert!(waiting.is_wf());
    waiting.entries.push(WaitingPlayer { player_id: "a".to_string(), matching_id: 2, queue: 2 });
    assert!(!waiting.is_wf());

    let mut channels = WsChannels::new();
    channels.channels.push(Channel { matching_id: 1, player_id: "a".to_string(), queue: 1 });
    channels.channels.push(Channel { matching_id: 2, player_id: "a".to_string(), queue: 1 });
    channels.channels.push(Channel { matching_id: 1, player_id: "b".to_string(), queue: 1 });
    assert!(channels.is_wf());
    channels.channels.push(Channel { matching_id: 2, player_id: "a".to_string(), queue: 9 });
    assert!(!channels.is_wf());

    let mut manager = GameManager::new();
    manager.battles.insert(1, battle(1, "a", "b"));
    manager.battles.insert(2, battle(2, "a", "b"));
    assert!(manager.is_wf());
    manager.battles.insert(3, battle(2, "c", "d"));
    assert!(!manager.is_wf());

    let mut shared = SharedState::new();
    assert!(shared.is_wf());
    shared.ws_channels = channels;
    assert!(!shared.is_wf());
}

#[test]
fn expired_matches_are_reported_as_they_are_removed() {
    let mut sessions = MatchingSessions::new();
    for id in 1..=5u128 {
        let mut s = session(id, "a");
        if id % 2 == 1 {
            s.last_active_at = Some(at(0));
        }
        sessions.insert(s);
    }
    let mut removed = sessions.remove_expired(at(60_001));
    removed.sort();
    assert_eq!(removed, vec![1, 3, 5]);
    let mut left = sessions.ids();
    left.sort();
    assert_eq!(left, vec![2, 4]);
    assert!(sessions.remove_expired(at(60_001)).is_empty());
}

#[test]
fn finished_battles_mark_their_matches() {
    let mut sessions = MatchingSessions::new();
    let mut in_game = session(1, "a");
    in_game.join("b".to_string());
    in_game.select_character(&"a".to_string(), Character::new("m1".to_string()));
    in_game.select_character(&"b".to_string(), Character::new("m2".to_string()));
    assert!(in_game.start_battle());
    sessions.insert(in_game);
    sessions.insert(session(2, "c"));

    let other = sessions.get(2).unwrap().clone();
    sessions.finish_battle(7);
    assert_eq!(sessions.get(1).unwrap().status, MatchingStatus::InGame);
    sessions.finish_battle(1);
    assert_eq!(sessions.get(2).unwrap(), &other);
    assert_eq!(sessions.get(1).unwrap().status, MatchingStatus::Finished);
    assert!(sessions.get(1).unwrap().is_battle_finished);
    assert_eq!(sessions.get(2).unwrap().status, MatchingStatus::Waiting);
    assert!(!sessions.get(2).unwrap().is_battle_finished);
    assert_eq!(sessions.len(), 2);
}

#[test]
fn the_victory_check_closes_every_battle_that_is_over() {
    let mut manager = GameManager::new();
    let mut sessions = MatchingSessions::new();
    for id in 1..=3u128 {
        let b = battle(id, "a", "b");
        manager.handle_start_game(StartGame { game: b.game, ws_senders: b.senders }, at(0));
    }
    manager.handle_apply_damage(ApplyDamage { matching_id: 1, player_id: "a".to_string(), damage: 100 });
    manager.handle_apply_damage(ApplyDamage { matching_id: 3, player_id: "b".to_string(), damage: 100 });

    let mut ids = manager.matching_ids();
    ids.sort();
    assert_eq!(ids, vec![1, 2, 3]);
    assert!(game_result(&manager.get(2).unwrap().game, at(5)).is_none());
    let first = game_result(&manager.get(1).unwrap().game, at(5)).expect("the first battle is over");
    assert_eq!(first.matching_id, 1);
    assert_eq!(first.winner_id, "b");
    assert_eq!(first.loser_id, "a");
    assert_eq!(first.player_a_id, "a");
    assert_eq!(first.player_b_id, "b");
    assert_eq!(first.play_time_seconds, 0);
    assert_eq!(first.finished_at, at(5));
    assert_eq!(manager.len(), 3);

    // The battles are closed in no particular order; the two messages of
    // one battle stand together, first participant first.
    let mut sent = manager.tick(&mut sessions, at(5));
    assert_eq!(sent.len(), 4);
    assert_eq!(sent[0].queue + 1, sent[1].queue);
    assert_eq!(sent[2].queue + 1, sent[3].queue);
    sent.sort_by_key(|o| o.queue);
    match &sent[0].message {
        WsMessage::GameEnd { result, timestamp } => {
            assert_eq!(result, &first);
            assert_eq!(*timestamp, at(5));
        }
        m => panic!("Expected GameEnd, got {:?}", m),
    }
    assert_eq!(sent[1].message, sent[0].message);
    let queues: Vec<u64> = sent.iter().map(|o| o.queue).collect();
    assert_eq!(queues, vec![11, 12, 31, 32]);
    match &sent[2].message {
        WsMessage::GameEnd { result, .. } => {
            assert_eq!(result.matching_id, 3);
            assert_eq!(result.winner_id, "a");
            assert_eq!(result.loser_id, "b");
        }
        m => panic!("Expected GameEnd, got {:?}", m),
    }
    assert_eq!(manager.len(), 1);
    assert_eq!(manager.matching_ids(), vec![2]);

    manager.remove_all(&vec![2, 9]);
    assert!(manager.battles.is_empty());
}

#[test]
fn ending_one_battle_tells_its_players_once_and_leaves_the_others() {
    let mut manager = GameManager::new();
    for id in 1..=3u128 {
        let b = battle(id, "a", "b");
        manager.handle_start_game(StartGame { game: b.game, ws_senders: b.senders }, at(0));
    }
    // Another battle is over as well: it is not touched.
    manager.handle_apply_damage(ApplyDamage { matching_id: 3, player_id: "b".to_string(), damage: 100 });
    let result = GameResult {
        matching_id: 2,
        winner_id: "a".to_string(),
        loser_id: "b".to_string(),
        player_a_id: "a".to_string(),
        player_b_id: "b".to_string(),
        play_time_seconds: 0,
        finished_at: at(7),
    };

    let out = manager.broadcast_game_end(2, result.clone(), at(8));
    assert_eq!(out.len(), 2);
    assert_eq!(out[0].queue, 21);
    assert_eq!(out[1].queue, 22);
    for event in &out {
        match &event.message {
            WsMessage::GameEnd { result: sent, timestamp } => {
                assert_eq!(sent, &result);
                assert_eq!(*timestamp, at(8));
            }
            m => panic!("Expected GameEnd, got {:?}", m),
        }
    }
    let mut left = manager.matching_ids();
    left.sort();
    assert_eq!(left, vec![1, 3]);
    assert_eq!(manager.get(3).unwrap().game.player_b_character.hp, 0);
    assert_eq!(manager.get(1).unwrap().game.player_a_character.hp, 100);

    // The battle is gone: nobody is told a second time.
    assert!(manager.broadcast_game_end(2, result.clone(), at(9)).is_empty());
    assert!(manager.broadcast_game_end(44, result, at(9)).is_empty());
    assert_eq!(manager.len(), 2);

    let mut sessions = MatchingSessions::new();
    let closing = manager.tick(&mut sessions, at(10));
    let queues: Vec<u64> = closing.iter().map(|o| o.queue).collect();
    assert_eq!(queues, vec![31, 32]);
    assert!(manager.tick(&mut sessions, at(11)).is_empty());
    assert_eq!(manager.matching_ids(), vec![1]);
}

#[test]
fn notices_go_to_the_opponent_of_the_player_named() {
    let mut manager = GameManager::new();
    let b = battle(4, "a", "b");
    manager.handle_start_game(StartGame { game: b.game, ws_senders: b.senders }, at(0));

    let out = manager.send_opponent_state_for_player(4, "a", at(1));
    assert_eq!(out.len(), 1);
    assert_eq!(out[0].queue, 42);
    let out = manager.send_opponent_state_for_player(4, "b", at(1));
    assert_eq!(out[0].queue, 41);
    match &out[0].message {
        WsMessage::OpponentStateUpdate { opponent, .. } => assert_eq!(opponent.model_id, "m2"),
        m => panic!("Expected OpponentStateUpdate, got {:?}", m),
    }
    assert!(manager.send_opponent_state_for_player(4, "c", at(1)).is_empty());
    assert!(manager.send_opponent_state_for_player(5, "a", at(1)).is_empty());

    let hit = manager.send_opponent_attack(
        4,
        &"b".to_string(),
        AttackType::Normal,
        Vector3::zero(),
        Vector3::new(1, 2, 3),
        at(2),
    );
    assert_eq!(hit.len(), 1);
    assert_eq!(hit[0].queue, 41);
    assert!(manager
        .send_opponent_attack(4, &"c".to_string(), AttackType::Normal, Vector3::zero(), Vector3::zero(), at(2))
        .is_empty());
}
