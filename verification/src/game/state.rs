//! The authoritative state of one battle.

use vstd::prelude::*;
use crate::clock::{current_time, Timestamp};
use crate::models::{Character, GameState, InputAction, PlayerInput, Vector3};
use crate::text::text_is;

verus! {

/// Which of the two participants of a battle a player id names.
#[derive(Clone, Copy, Debug, PartialEq, Eq, Structural)]
pub enum Side {
    A,
    B,
}

/// Hit points after a report of `damage`: the difference, but never below
/// zero and never above the maximum. A report of negative damage can
/// therefore restore hit points, and never more than the character may have.
pub open spec fn hp_after_damage(hp: i32, max_hp: i32, damage: i32) -> i32 {
    if hp - damage < 0 {
        0
    } else if hp - damage > max_hp {
        max_hp
    } else {
        (hp - damage) as i32
    }
}

/// The two characters of a battle and the players they belong to.
#[derive(Debug, PartialEq, Eq)]
pub struct GameStateManager {
    pub matching_id: u128,
    pub player_a_id: String,
    pub player_b_id: String,
    pub player_a_character: Character,
    pub player_b_character: Character,
}

impl GameStateManager {
    /// Both characters have valid hit points.
    pub open spec fn wf(&self) -> bool {
        self.player_a_character.wf() && self.player_b_character.wf()
    }

    /// The side of a player; the first participant is looked at first.
    pub open spec fn spec_side_of(&self, player_id: Seq<char>) -> Option<Side> {
        if player_id == self.player_a_id@ {
            Some(Side::A)
        } else if player_id == self.player_b_id@ {
            Some(Side::B)
        } else {
            None
        }
    }

    pub open spec fn character(&self, side: Side) -> Character {
        match side {
            Side::A => self.player_a_character,
            Side::B => self.player_b_character,
        }
    }

    /// The battle with the character of one side replaced.
    pub open spec fn with_character(&self, side: Side, c: Character) -> GameStateManager {
        match side {
            Side::A => GameStateManager { player_a_character: c, ..*self },
            Side::B => GameStateManager { player_b_character: c, ..*self },
        }
    }

    /// A character after an input of its player. `destination` is where a
    /// move takes the character; a move in no direction leaves it where it
    /// stands, whatever the speed and the destination; a rotation replaces
    /// the rotation; an attack changes nothing.
    pub open spec fn character_after_input(c: Character, action: InputAction, destination: Vector3)
        -> Character {
        match action {
            InputAction::Move { direction, .. } => if direction.spec_is_zero() {
                c
            } else {
                Character { position: destination, ..c }
            },
            InputAction::Rotate { rotation } => Character { rotation, ..c },
            InputAction::Attack { .. } => c,
        }
    }

    /// The battle after an input. An input of a stranger changes nothing.
    pub open spec fn after_input(&self, input: PlayerInput, destination: Vector3)
        -> GameStateManager {
        match self.spec_side_of(input.player_id@) {
            Some(side) => self.with_character(
                side,
                Self::character_after_input(self.character(side), input.action, destination),
            ),
            None => *self,
        }
    }

    /// The battle after a player has reported position and rotation.
    pub open spec fn after_state_update(
        &self,
        player_id: Seq<char>,
        position: Vector3,
        rotation: Vector3,
    ) -> GameStateManager {
        match self.spec_side_of(player_id) {
            Some(side) => self.with_character(
                side,
                Character { position, rotation, ..self.character(side) },
            ),
            None => *self,
        }
    }

    /// The battle after a player has reported damage taken.
    pub open spec fn after_damage(&self, player_id: Seq<char>, damage: i32) -> GameStateManager {
        match self.spec_side_of(player_id) {
            Some(side) => self.with_character(
                side,
                Character {
                    hp: hp_after_damage(
                        self.character(side).hp,
                        self.character(side).max_hp,
                        damage,
                    ),
                    ..self.character(side)
                },
            ),
            None => *self,
        }
    }

    /// The winner, once a character is dead: the second participant where
    /// the first one's character is dead, else the first participant where
    /// the second one's is.
    pub open spec fn spec_check_winner(&self) -> Option<String> {
        if !self.player_a_character.spec_is_alive() {
            Some(self.player_b_id)
        } else if !self.player_b_character.spec_is_alive() {
            Some(self.player_a_id)
        } else {
            None
        }
    }

    pub open spec fn spec_is_game_over(&self) -> bool {
        !self.player_a_character.spec_is_alive() || !self.player_b_character.spec_is_alive()
    }

    pub fn new(
        matching_id: u128,
        player_a_id: String,
        player_b_id: String,
        player_a_character: Character,
        player_b_character: Character,
    ) -> (g: GameStateManager)
        ensures
            g == (GameStateManager {
                matching_id,
                player_a_id,
                player_b_id,
                player_a_character,
                player_b_character,
            }),
    {
        GameStateManager {
            matching_id,
            player_a_id,
            player_b_id,
            player_a_character,
            player_b_character,
        }
    }

    pub fn side_of(&self, player_id: &str) -> (side: Option<Side>)
        ensures
            side == self.spec_side_of(player_id@),
    {
        if text_is(&self.player_a_id, player_id) {
            Some(Side::A)
        } else if text_is(&self.player_b_id, player_id) {
            Some(Side::B)
        } else {
            None
        }
    }

    /// Where the character of a player stands; `None` for a stranger.
    pub fn position_of(&self, player_id: &str) -> (position: Option<Vector3>)
        ensures
            position == match self.spec_side_of(player_id@) {
                Some(side) => Some(self.character(side).position),
                None => None,
            },
    {
        match self.side_of(player_id) {
            Some(Side::A) => Some(self.player_a_character.position),
            Some(Side::B) => Some(self.player_b_character.position),
            None => None,
        }
    }

    /// Applies an input of a player. For a move, `destination` is the
    /// position that the move leads to; for a move in no direction and for
    /// other inputs it is not read.
    pub fn process_input(&mut self, input: PlayerInput, destination: Vector3)
        ensures
            *final(self) == old(self).after_input(input, destination),
            input.action matches InputAction::Move { direction, .. } && direction.spec_is_zero()
                ==> *final(self) == *old(self),
            old(self).wf() ==> final(self).wf(),
    {
        let side = self.side_of(input.player_id.as_str());
        match side {
            Some(Side::A) => match input.action {
                InputAction::Move { direction, speed: _ } => {
                    if !direction.is_zero() {
                        self.player_a_character.position = destination;
                    }
                },
                InputAction::Rotate { rotation } => {
                    self.player_a_character.rotation = rotation;
                },
                InputAction::Attack { attack_type: _, position: _, direction: _ } => {},
            },
            Some(Side::B) => match input.action {
                InputAction::Move { direction, speed: _ } => {
                    if !direction.is_zero() {
                        self.player_b_character.position = destination;
                    }
                },
                InputAction::Rotate { rotation } => {
                    self.player_b_character.rotation = rotation;
                },
                InputAction::Attack { attack_type: _, position: _, direction: _ } => {},
            },
            None => {},
        }
    }

    /// Overwrites position and rotation of a player's character.
    pub fn update_state(&mut self, player_id: &str, position: Vector3, rotation: Vector3)
        ensures
            *final(self) == old(self).after_state_update(player_id@, position, rotation),
            old(self).wf() ==> final(self).wf(),
    {
        match self.side_of(player_id) {
            Some(Side::A) => {
                self.player_a_character.position = position;
                self.player_a_character.rotation = rotation;
            },
            Some(Side::B) => {
                self.player_b_character.position = position;
                self.player_b_character.rotation = rotation;
            },
            None => {},
        }
    }

    /// Takes reported damage off a player's hit points. Hit points stay
    /// within their bounds whatever the damage is.
    pub fn apply_damage(&mut self, player_id: &str, damage: i32)
        ensures
            *final(self) == old(self).after_damage(player_id@, damage),
            old(self).wf() ==> final(self).wf(),
    {
        match self.side_of(player_id) {
            Some(Side::A) => {
                self.player_a_character.hp = reduce_hp(
                    self.player_a_character.hp,
                    self.player_a_character.max_hp,
                    damage,
                );
            },
            Some(Side::B) => {
                self.player_b_character.hp = reduce_hp(
                    self.player_b_character.hp,
                    self.player_b_character.max_hp,
                    damage,
                );
            },
            None => {},
        }
    }

    /// Both characters as they are at `now`.
    pub fn state_at(&self, now: Timestamp) -> (s: GameState)
        ensures
            s == (GameState {
                matching_id: self.matching_id,
                player_a: self.player_a_character,
                player_b: self.player_b_character,
                timestamp: now,
            }),
    {
        GameState {
            matching_id: self.matching_id,
            player_a: self.player_a_character.clone(),
            player_b: self.player_b_character.clone(),
            timestamp: now,
        }
    }

    /// Both characters as they are, stamped with the time of the call.
    pub fn get_state(&self) -> (s: GameState)
        ensures
            s == (GameState {
                matching_id: self.matching_id,
                player_a: self.player_a_character,
                player_b: self.player_b_character,
                timestamp: s.timestamp,
            }),
    {
        self.state_at(current_time())
    }

    #[verifier::when_used_as_spec(spec_check_winner)]
    pub fn check_winner(&self) -> (winner: Option<String>)
        ensures
            winner == self.spec_check_winner(),
    {
        if !self.player_a_character.is_alive() {
            Some(self.player_b_id.clone())
        } else if !self.player_b_character.is_alive() {
            Some(self.player_a_id.clone())
        } else {
            None
        }
    }

    #[verifier::when_used_as_spec(spec_is_game_over)]
    pub fn is_game_over(&self) -> (over: bool)
        ensures
            over == self.spec_is_game_over(),
            over == (self.spec_check_winner() is Some),
    {
        !self.player_a_character.is_alive() || !self.player_b_character.is_alive()
    }
}

/// Hit points after damage, computed without overflow. For hit points
/// within their bounds the result is within them too, and where the damage
/// is not negative it is the difference, or zero where that is negative.
pub fn reduce_hp(hp: i32, max_hp: i32, damage: i32) -> (left: i32)
    ensures
        left == hp_after_damage(hp, max_hp, damage),
        0 <= hp <= max_hp ==> 0 <= left <= max_hp,
        0 <= hp <= max_hp && damage >= 0 ==> left == if hp - damage < 0 {
            0
        } else {
            hp - damage
        },
{
    let diff: i64 = hp as i64 - damage as i64;
    if diff < 0 {
        0
    } else if diff > max_hp as i64 {
        max_hp
    } else {
        diff as i32
    }
}

} // verus!
