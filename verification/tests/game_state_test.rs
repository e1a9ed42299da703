use battle_server::clock::Timestamp;
use battle_server::game::state::{reduce_hp, GameStateManager, Side};
use battle_server::models::{AttackType, Character, InputAction, PlayerInput, Vector3};

fn game() -> GameStateManager {
    GameStateManager::new(
        9,
        "a".to_string(),
        "b".to_string(),
        Character::new("m1".to_string()),
        Character::new("m2".to_string()),
    )
}

fn input(player: &str, action: InputAction) -> PlayerInput {
    PlayerInput { player_id: player.to_string(), action, timestamp: Timestamp::from_millis(0) }
}

fn vec3(x: f32, y: f32, z: f32) -> Vector3 {
    Vector3::new(x.to_bits(), y.to_bits(), z.to_bits())
}

#[test]
fn a_new_character_stands_at_the_origin_with_full_health() {
    let c = Character::new("m".to_string());
    assert_eq!(c.model_id, "m");
    assert_eq!(c.position, Vector3::zero());
    assert_eq!(c.rotation, Vector3::zero());
    assert_eq!((c.hp, c.max_hp), (100, 100));
    assert!(c.is_alive());
    assert_eq!(Vector3::zero(), Vector3::new(0, 0, 0));
    assert_eq!(f32::from_bits(Vector3::zero().x), 0.0);
    assert_eq!(vec3(1.5, -2.0, 0.25).y, (-2.0f32).to_bits());
}

#[test]
fn damage_is_taken_off_and_stops_at_zero() {
    let mut g = game();
    g.apply_damage("b", 30);
    assert_eq!(g.player_b_character.hp, 70);
    assert_eq!(g.player_a_character.hp, 100);
    assert!(!g.is_game_over());
    assert_eq!(g.check_winner(), None);
    g.apply_damage("b", 0);
    assert_eq!(g.player_b_character.hp, 70);
    g.apply_damage("b", 71);
    assert_eq!(g.player_b_character.hp, 0);
    assert!(!g.player_b_character.is_alive());
    assert!(g.is_game_over());
    assert_eq!(g.check_winner(), Some("a".to_string()));
    g.apply_damage("nobody", 100);
    assert_eq!(g.player_a_character.hp, 100);
}

#[test]
fn hit_points_never_leave_their_bounds_under_damage() {
    let mut g = game();
    for damage in [0, 1, 7, 50, 41, 1, 1_000, i32::MAX] {
        g.apply_damage("a", damage);
        let c = &g.player_a_character;
        assert!(0 <= c.hp && c.hp <= c.max_hp);
    }
    assert_eq!(g.player_a_character.hp, 0);
}

#[test]
fn hit_points_never_leave_their_bounds_under_negative_damage() {
    let mut g = game();
    g.apply_damage("a", -1);
    assert_eq!(g.player_a_character.hp, 100);
    g.apply_damage("a", 60);
    assert_eq!(g.player_a_character.hp, 40);
    g.apply_damage("a", -25);
    assert_eq!(g.player_a_character.hp, 65);
    for damage in [-1, -40, i32::MIN, i32::MIN + 1, -100] {
        g.apply_damage("a", damage);
        let c = &g.player_a_character;
        assert!(0 <= c.hp && c.hp <= c.max_hp);
    }
    assert_eq!(g.player_a_character.hp, 100);
    assert_eq!(g.player_a_character.max_hp, 100);
    assert_eq!(g.player_b_character.hp, 100);
}

#[test]
fn reduce_hp_is_exact_and_saturates() {
    assert_eq!(reduce_hp(100, 100, 30), 70);
    assert_eq!(reduce_hp(100, 100, 100), 0);
    assert_eq!(reduce_hp(100, 100, 101), 0);
    assert_eq!(reduce_hp(0, 100, i32::MAX), 0);
    assert_eq!(reduce_hp(-5, 100, 0), 0);
    // Negative damage restores hit points, up to the maximum and no further.
    assert_eq!(reduce_hp(100, 100, -1), 100);
    assert_eq!(reduce_hp(40, 100, -1), 41);
    assert_eq!(reduce_hp(99, 100, -1), 100);
    assert_eq!(reduce_hp(1, 100, i32::MIN), 100);
    assert_eq!(reduce_hp(0, 100, i32::MIN + 1), 100);
    assert_eq!(reduce_hp(0, i32::MAX, i32::MIN), i32::MAX);
}

#[test]
fn when_both_have_fallen_the_second_player_is_the_winner() {
    let mut g = game();
    g.apply_damage("a", 100);
    g.apply_damage("b", 100);
    assert_eq!(g.check_winner(), Some("b".to_string()));
    assert!(g.is_game_over());
}

#[test]
fn a_move_takes_the_character_to_its_destination() {
    let mut g = game();
    let nowhere = InputAction::Move { direction: vec3(0.0, 0.0, 0.0), speed: 5.0f32.to_bits() };
    // A move in no direction leads to where the character stands.
    let here = g.position_of("a").unwrap();
    g.process_input(input("a", nowhere), here);
    assert_eq!(g.player_a_character.position, Vector3::zero());

    let action = InputAction::Move { direction: vec3(1.0, 0.0, 2.0), speed: 60.0f32.to_bits() };
    let there = vec3(1.0, 0.0, 2.0);
    g.process_input(input("b", action), there);
    assert_eq!(g.player_b_character.position, there);
    assert_eq!(g.player_a_character.position, Vector3::zero());
    assert_eq!(g.player_b_character.rotation, Vector3::zero());
    assert_eq!(g.player_b_character.hp, 100);
}

#[test]
fn a_move_in_no_direction_leaves_the_position_unchanged() {
    let mut g = game();
    g.update_state("a", vec3(3.0, -4.0, 5.5), vec3(0.0, 90.0, 0.0));
    let before = g.state_at(Timestamp::from_millis(0));
    let elsewhere = vec3(9.0, 9.0, 9.0);
    for direction in [vec3(0.0, 0.0, 0.0), vec3(-0.0, 0.0, -0.0), vec3(-0.0, -0.0, -0.0)] {
        for speed in [0.0f32, 60.0, -1.0, f32::INFINITY, f32::NAN] {
            assert!(direction.is_zero());
            let action = InputAction::Move { direction, speed: speed.to_bits() };
            g.process_input(input("a", action), elsewhere);
            assert_eq!(g.state_at(Timestamp::from_millis(0)), before);
        }
    }
    assert_eq!(g.player_a_character.position, vec3(3.0, -4.0, 5.5));
    // The smallest step in any direction is a direction.
    let tiny = Vector3::new(1, 0, 0);
    assert!(!tiny.is_zero());
    assert!(!vec3(0.0, 1.0, 0.0).is_zero());
    assert!(!vec3(f32::NAN, 0.0, 0.0).is_zero());
    g.process_input(input("a", InputAction::Move { direction: tiny, speed: 1.0f32.to_bits() }), elsewhere);
    assert_eq!(g.player_a_character.position, elsewhere);
}

#[test]
fn rotation_replaces_and_attack_changes_nothing() {
    let mut g = game();
    let r = vec3(0.0, 180.0, 0.0);
    g.process_input(input("a", InputAction::Rotate { rotation: r }), vec3(7.0, 7.0, 7.0));
    assert_eq!(g.player_a_character.rotation, r);
    assert_eq!(g.player_a_character.position, Vector3::zero());

    let before = g.get_state();
    let attack = InputAction::Attack {
        attack_type: AttackType::Normal,
        position: vec3(1.0, 1.0, 1.0),
        direction: vec3(0.0, 1.0, 0.0),
    };
    g.process_input(input("a", attack), vec3(7.0, 7.0, 7.0));
    g.process_input(input("zzz", InputAction::Rotate { rotation: r }), vec3(7.0, 7.0, 7.0));
    let after = g.state_at(before.timestamp);
    assert_eq!(after, before);
    assert_eq!(after.matching_id, 9);
}

#[test]
fn update_state_overwrites_position_and_rotation() {
    let mut g = game();
    g.update_state("b", vec3(1.0, 2.0, 3.0), vec3(4.0, 5.0, 6.0));
    assert_eq!(g.player_b_character.position, vec3(1.0, 2.0, 3.0));
    assert_eq!(g.player_b_character.rotation, vec3(4.0, 5.0, 6.0));
    assert_eq!(g.player_a_character.position, Vector3::zero());
    g.update_state("c", vec3(9.0, 9.0, 9.0), vec3(9.0, 9.0, 9.0));
    assert_eq!(g.player_a_character.position, Vector3::zero());
    assert_eq!(g.player_b_character.position, vec3(1.0, 2.0, 3.0));
}

#[test]
fn sides_are_found_by_player_id() {
    let g = game();
    assert_eq!(g.side_of("a"), Some(Side::A));
    assert_eq!(g.side_of("b"), Some(Side::B));
    assert_eq!(g.side_of("A"), None);
    assert_eq!(g.side_of(""), None);
    assert_eq!(g.position_of("c"), None);
}

#[test]
fn attack_types_have_their_names() {
    assert_eq!(AttackType::Normal.to_string(), "Normal");
    assert_eq!(AttackType::Special.to_string(), "Special");
}
