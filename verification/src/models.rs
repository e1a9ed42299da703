//! The data model: avatars, players, matches and the events on the wire.

use vstd::prelude::*;
use crate::clock::Timestamp;
use crate::text::clone_opt_string;
use crate::ident::random_uuid;
use crate::clock::{current_time, EXPIRY_MILLIS};
use crate::db::models::Monster;
use crate::text::text_is_str;

verus! {

/// The size class of a monster.
#[derive(Clone, Copy, Debug, PartialEq, Eq, Structural)]
pub enum SizeType {
    Small,
    Medium,
    Large,
}

impl SizeType {
    /// The name of the variant, as text.
    pub open spec fn name(self) -> Seq<char> {
        match self {
            SizeType::Small => "Small"@,
            SizeType::Medium => "Medium"@,
            SizeType::Large => "Large"@,
        }
    }

    /// The size class that a text names, if it names one.
    pub open spec fn named(text: Seq<char>) -> Option<SizeType> {
        if text == "Small"@ {
            Some(SizeType::Small)
        } else if text == "Medium"@ {
            Some(SizeType::Medium)
        } else if text == "Large"@ {
            Some(SizeType::Large)
        } else {
            None
        }
    }

    pub fn from_str(s: &str) -> (size: Option<SizeType>)
        ensures
            size == Self::named(s@),
    {
        if text_is_str(s, "Small") {
            Some(SizeType::Small)
        } else if text_is_str(s, "Medium") {
            Some(SizeType::Medium)
        } else if text_is_str(s, "Large") {
            Some(SizeType::Large)
        } else {
            None
        }
    }

    pub fn to_string(&self) -> (s: String)
        ensures
            s@ == self.name(),
    {
        match self {
            SizeType::Small => "Small".to_string(),
            SizeType::Medium => "Medium".to_string(),
            SizeType::Large => "Large".to_string(),
        }
    }

    /// Every size class is named by its own name, and by no other.
    pub proof fn lemma_name_round_trip(size: SizeType)
        ensures
            Self::named(size.name()) == Some(size),
    {
        reveal_strlit("Small");
        reveal_strlit("Medium");
        reveal_strlit("Large");
        assert("Small"@.len() == 5);
        assert("Medium"@.len() == 6);
        assert("Large"@[0] == 'L');
        assert("Small"@[0] == 'S');
    }
}

/// The fighting values of a monster, as sent to clients.
#[derive(Debug, PartialEq, Eq)]
pub struct MonsterStats {
    pub name: String,
    pub max_hp: i64,
    pub short_range_attack_power: i64,
    pub long_range_attack_power: i64,
    pub defense_power: i64,
    pub move_speed: i64,
    pub attack_range: i64,
    pub attack_cooldown: i64,
    pub size_type: String,
}

impl MonsterStats {
    /// The values of a monster record, one for one.
    pub fn from_monster(monster: &Monster) -> (stats: MonsterStats)
        ensures
            stats == (MonsterStats {
                name: monster.name,
                max_hp: monster.max_hp,
                short_range_attack_power: monster.short_range_attack_power,
                long_range_attack_power: monster.long_range_attack_power,
                defense_power: monster.defense_power,
                move_speed: monster.move_speed,
                attack_range: monster.attack_range,
                attack_cooldown: monster.attack_cooldown,
                size_type: monster.size_type,
            }),
    {
        MonsterStats {
            name: monster.name.clone(),
            max_hp: monster.max_hp,
            short_range_attack_power: monster.short_range_attack_power,
            long_range_attack_power: monster.long_range_attack_power,
            defense_power: monster.defense_power,
            move_speed: monster.move_speed,
            attack_range: monster.attack_range,
            attack_cooldown: monster.attack_cooldown,
            size_type: monster.size_type.clone(),
        }
    }
}

/// The fighting values of a monster, as an upload declares them.
#[derive(Debug, PartialEq, Eq)]
pub struct MonsterInfo {
    pub name: String,
    pub max_hp: i64,
    pub short_range_attack_power: i64,
    pub long_range_attack_power: i64,
    pub defense_power: i64,
    pub move_speed: i64,
    pub attack_range: i64,
    pub attack_cooldown: i64,
    pub size_type: String,
}

/// The answer to an accepted upload.
#[derive(Debug, PartialEq, Eq)]
pub struct UploadModelResponse {
    pub model_id: String,
    pub file_name: String,
    pub file_size: i64,
}

/// A vector in 3D space. Each coordinate is held as the bit pattern of an
/// IEEE-754 single-precision number; the engine stores and forwards
/// coordinates and never computes with them.
#[derive(Clone, Copy, Debug, PartialEq, Eq, Structural)]
pub struct Vector3 {
    pub x: u32,
    pub y: u32,
    pub z: u32,
}

impl Vector3 {
    pub fn new(x: u32, y: u32, z: u32) -> (v: Vector3)
        ensures
            v == (Vector3 { x, y, z }),
    {
        Vector3 { x, y, z }
    }

    /// The origin: positive zero in every coordinate.
    pub fn zero() -> (v: Vector3)
        ensures
            v == (Vector3 { x: 0, y: 0, z: 0 }),
    {
        Vector3 { x: 0, y: 0, z: 0 }
    }

    /// The zero vector: every coordinate is zero, of either sign.
    pub open spec fn spec_is_zero(&self) -> bool {
        is_zero_bits(self.x) && is_zero_bits(self.y) && is_zero_bits(self.z)
    }

    /// Whether this is the zero vector.
    #[verifier::when_used_as_spec(spec_is_zero)]
    pub fn is_zero(&self) -> (zero: bool)
        ensures
            zero == self.spec_is_zero(),
    {
        (self.x == 0 || self.x == NEGATIVE_ZERO_BITS) && (self.y == 0 || self.y
            == NEGATIVE_ZERO_BITS) && (self.z == 0 || self.z == NEGATIVE_ZERO_BITS)
    }
}

/// The bit pattern of negative zero in single precision.
pub const NEGATIVE_ZERO_BITS: u32 = 0x8000_0000;

/// Whether a single-precision bit pattern is that of zero, of either sign.
pub open spec fn is_zero_bits(bits: u32) -> bool {
    bits == 0 || bits == NEGATIVE_ZERO_BITS
}

/// Hit points of a freshly created character.
pub const INITIAL_HP: i32 = 100;

/// The avatar of one player in one match.
#[derive(Debug, PartialEq, Eq)]
pub struct Character {
    pub model_id: String,
    pub position: Vector3,
    pub rotation: Vector3,
    pub hp: i32,
    pub max_hp: i32,
}

impl Clone for Character {
    fn clone(&self) -> (c: Character)
        ensures
            c == *self,
    {
        Character {
            model_id: self.model_id.clone(),
            position: self.position,
            rotation: self.rotation,
            hp: self.hp,
            max_hp: self.max_hp,
        }
    }
}

impl Character {
    /// Hit points lie between zero and the maximum.
    pub open spec fn wf(&self) -> bool {
        0 <= self.hp <= self.max_hp
    }

    pub open spec fn spec_is_alive(&self) -> bool {
        self.hp > 0
    }

    /// A character at the origin with full hit points.
    pub fn new(model_id: String) -> (c: Character)
        ensures
            c == (Character {
                model_id,
                position: Vector3 { x: 0, y: 0, z: 0 },
                rotation: Vector3 { x: 0, y: 0, z: 0 },
                hp: INITIAL_HP,
                max_hp: INITIAL_HP,
            }),
            c.wf(),
            c.spec_is_alive(),
    {
        Character {
            model_id,
            position: Vector3::zero(),
            rotation: Vector3::zero(),
            hp: INITIAL_HP,
            max_hp: INITIAL_HP,
        }
    }

    #[verifier::when_used_as_spec(spec_is_alive)]
    pub fn is_alive(&self) -> (alive: bool)
        ensures
            alive == self.spec_is_alive(),
    {
        self.hp > 0
    }
}

/// One of the two participants of a match.
#[derive(Debug, PartialEq, Eq)]
pub struct Player {
    pub id: String,
    pub username: Option<String>,
    pub character: Option<Character>,
    pub ready: bool,
}

impl Clone for Player {
    fn clone(&self) -> (p: Player)
        ensures
            p == *self,
    {
        let character = match &self.character {
            Some(c) => Some(c.clone()),
            None => None,
        };
        Player {
            id: self.id.clone(),
            username: clone_opt_string(&self.username),
            character,
            ready: self.ready,
        }
    }
}

impl Player {
    /// A character, where there is one, has valid hit points.
    pub open spec fn wf(&self) -> bool {
        self.character is Some ==> self.character->0.wf()
    }

    /// Ready, with a character chosen.
    pub open spec fn is_prepared(&self) -> bool {
        self.ready && self.character is Some
    }

    pub fn new(id: String) -> (p: Player)
        ensures
            p == (Player { id, username: None, character: None, ready: false }),
    {
        Player { id, username: None, character: None, ready: false }
    }

    pub fn new_with_username(id: String, username: Option<String>) -> (p: Player)
        ensures
            p == (Player { id, username, character: None, ready: false }),
    {
        Player { id, username, character: None, ready: false }
    }
}


/// Where a match stands in its life. The order of the variants is the order
/// in which a match passes through them.
#[derive(Clone, Copy, Debug, PartialEq, Eq, Structural)]
pub enum MatchingStatus {
    Waiting,
    Matched,
    InGame,
    Finished,
}

impl MatchingStatus {
    /// The place of a status in the life of a match, counted from zero.
    pub open spec fn rank(self) -> nat {
        match self {
            MatchingStatus::Waiting => 0,
            MatchingStatus::Matched => 1,
            MatchingStatus::InGame => 2,
            MatchingStatus::Finished => 3,
        }
    }

    /// Whether a match in status `self` may be found in status `next` after one
    /// operation: it stays, or it moves on to the status that follows.
    pub open spec fn may_become(self, next: MatchingStatus) -> bool {
        next == self || next.rank() == self.rank() + 1
    }
}

/// What became of an attempt to join a match.
#[derive(Clone, Copy, Debug, PartialEq, Eq, Structural)]
pub enum JoinOutcome {
    /// The player took the open second slot.
    Joined,
    /// The player already holds the second slot of a match that has not
    /// started its battle; nothing was initialised again.
    Rejoined,
    /// The match is not open and the player is not its second participant.
    NotAvailable,
    /// The player is the creator of the match.
    OwnSession,
}

/// A two-slot rendezvous of players, from its creation to the end of its battle.
#[derive(Debug, PartialEq, Eq)]
pub struct MatchingSession {
    pub matching_id: u128,
    pub creator_username: Option<String>,
    pub player_a: Player,
    pub player_b: Option<Player>,
    pub status: MatchingStatus,
    pub created_at: Timestamp,
    /// When the last connected participant left; `None` while anyone is connected.
    pub last_active_at: Option<Timestamp>,
    pub is_battle_started: bool,
    pub is_battle_finished: bool,
}

impl Clone for MatchingSession {
    fn clone(&self) -> (s: MatchingSession)
        ensures
            s == *self,
    {
        let player_b = match &self.player_b {
            Some(p) => Some(p.clone()),
            None => None,
        };
        MatchingSession {
            matching_id: self.matching_id,
            creator_username: clone_opt_string(&self.creator_username),
            player_a: self.player_a.clone(),
            player_b,
            status: self.status,
            created_at: self.created_at,
            last_active_at: self.last_active_at,
            is_battle_started: self.is_battle_started,
            is_battle_finished: self.is_battle_finished,
        }
    }
}

impl MatchingSession {
    /// The invariant of a match that only the engine has touched.
    pub open spec fn wf(&self) -> bool {
        &&& self.status == MatchingStatus::Waiting <==> self.player_b is None
        &&& self.player_b is Some ==> self.player_a.id@ != self.player_b->0.id@
        &&& self.player_a.wf()
        &&& self.player_b is Some ==> self.player_b->0.wf()
        &&& self.is_battle_started <==> self.status.rank() >= 2
        &&& self.is_battle_finished <==> self.status == MatchingStatus::Finished
        &&& self.is_battle_started ==> self.spec_is_both_ready()
    }

    /// The match as it is right after its creation.
    pub open spec fn fresh(
        matching_id: u128,
        player_a_id: String,
        username: Option<String>,
        created_at: Timestamp,
    ) -> MatchingSession {
        MatchingSession {
            matching_id,
            creator_username: username,
            player_a: Player { id: player_a_id, username, character: None, ready: false },
            player_b: None,
            status: MatchingStatus::Waiting,
            created_at,
            last_active_at: None,
            is_battle_started: false,
            is_battle_finished: false,
        }
    }

    pub open spec fn spec_is_both_ready(&self) -> bool {
        &&& self.player_a.is_prepared()
        &&& self.player_b is Some
        &&& self.player_b->0.is_prepared()
    }

    /// Valid at `now`: the battle has not finished, and the participants have
    /// not all been away for more than the expiry time.
    pub open spec fn spec_is_valid_at(&self, now: Timestamp) -> bool {
        &&& !self.is_battle_finished
        &&& self.last_active_at is Some ==> now.millis_since(self.last_active_at->0)
            <= EXPIRY_MILLIS
    }

    /// Whether the player with this id holds one of the two slots.
    pub open spec fn has_participant(&self, player_id: Seq<char>) -> bool {
        self.player_a.id@ == player_id || (self.player_b is Some && self.player_b->0.id@
            == player_id)
    }

    /// The id of the other participant, as seen by `player_id`: the second
    /// participant for the creator, where there is one, and the creator for
    /// anyone else.
    pub open spec fn spec_opponent_of(&self, player_id: Seq<char>) -> Option<String> {
        if self.player_a.id@ == player_id {
            match self.player_b {
                Some(b) => Some(b.id),
                None => None,
            }
        } else {
            Some(self.player_a.id)
        }
    }

    /// Opens a match with a given id and creation time.
    pub fn create(
        matching_id: u128,
        player_a_id: String,
        username: Option<String>,
        created_at: Timestamp,
    ) -> (s: MatchingSession)
        ensures
            s == Self::fresh(matching_id, player_a_id, username, created_at),
            s.wf(),
    {
        let creator_username = clone_opt_string(&username);
        MatchingSession {
            matching_id,
            creator_username,
            player_a: Player::new_with_username(player_a_id, username),
            player_b: None,
            status: MatchingStatus::Waiting,
            created_at,
            last_active_at: None,
            is_battle_started: false,
            is_battle_finished: false,
        }
    }

    /// Opens a match under a fresh random id, created now, without a user name.
    pub fn new(player_a_id: String) -> (s: MatchingSession)
        ensures
            s == Self::fresh(s.matching_id, player_a_id, None, s.created_at),
            s.wf(),
    {
        Self::create(random_uuid(), player_a_id, None, current_time())
    }

    /// Opens a match under a fresh random id, created now.
    pub fn new_with_username(player_a_id: String, username: Option<String>) -> (s:
        MatchingSession)
        ensures
            s == Self::fresh(s.matching_id, player_a_id, username, s.created_at),
            s.wf(),
    {
        Self::create(random_uuid(), player_a_id, username, current_time())
    }

    #[verifier::when_used_as_spec(spec_is_both_ready)]
    pub fn is_both_ready(&self) -> (ready: bool)
        ensures
            ready == self.spec_is_both_ready(),
    {
        match &self.player_b {
            Some(b) => self.player_a.ready && self.player_a.character.is_some() && b.ready
                && b.character.is_some(),
            None => false,
        }
    }

    #[verifier::when_used_as_spec(spec_is_valid_at)]
    pub fn is_valid_at(&self, now: Timestamp) -> (valid: bool)
        ensures
            valid == self.spec_is_valid_at(now),
    {
        if self.is_battle_finished {
            return false;
        }
        match self.last_active_at {
            Some(last_active) => !now.is_more_than_after(last_active, EXPIRY_MILLIS),
            None => true,
        }
    }

    /// Valid at the time of the call. What the clock says is not known here,
    /// so the contract decides the two cases that do not depend on it.
    pub fn is_valid(&self) -> (valid: bool)
        ensures
            self.is_battle_finished ==> !valid,
            !self.is_battle_finished && self.last_active_at is None ==> valid,
    {
        self.is_valid_at(current_time())
    }

    pub fn opponent_of(&self, player_id: &String) -> (opponent: Option<String>)
        ensures
            opponent == self.spec_opponent_of(player_id@),
    {
        if self.player_a.id == *player_id {
            match &self.player_b {
                Some(b) => Some(b.id.clone()),
                None => None,
            }
        } else {
            Some(self.player_a.id.clone())
        }
    }

    /// What a join by `player_id` comes to, by the state of the match alone.
    pub open spec fn join_outcome(&self, player_id: Seq<char>) -> JoinOutcome {
        if self.status != MatchingStatus::Waiting {
            if self.status == MatchingStatus::Matched && self.player_b is Some
                && self.player_b->0.id@ == player_id {
                JoinOutcome::Rejoined
            } else {
                JoinOutcome::NotAvailable
            }
        } else if self.player_a.id@ == player_id {
            JoinOutcome::OwnSession
        } else {
            JoinOutcome::Joined
        }
    }

    /// The match with `player_id` in its second slot, and thereby matched.
    pub open spec fn joined_by(&self, player_id: String) -> MatchingSession {
        MatchingSession {
            player_b: Some(Player { id: player_id, username: None, character: None, ready: false }),
            status: MatchingStatus::Matched,
            ..*self
        }
    }

    /// The match with the note of when it was abandoned taken away.
    pub open spec fn reconnected(&self) -> MatchingSession {
        MatchingSession { last_active_at: None, ..*self }
    }

    /// Lets a player into the match. A new player takes the second slot of a
    /// waiting match, which thereby becomes matched; the second participant
    /// of a matched match is let back in, and finds the match as it was. Any
    /// other attempt changes nothing. Nobody is connected by this: the
    /// note of when the match was abandoned stays as it is.
    pub fn join(&mut self, player_id: String) -> (outcome: JoinOutcome)
        ensures
            outcome == old(self).join_outcome(player_id@),
            *final(self) == if outcome == JoinOutcome::Joined {
                old(self).joined_by(player_id)
            } else {
                *old(self)
            },
            final(self).last_active_at == old(self).last_active_at,
            old(self).status.may_become(final(self).status),
            old(self).wf() ==> final(self).wf(),
    {
        match self.status {
            MatchingStatus::Waiting => {
                if self.player_a.id == player_id {
                    return JoinOutcome::OwnSession;
                }
                self.player_b = Some(Player::new(player_id));
                self.status = MatchingStatus::Matched;
                JoinOutcome::Joined
            },
            MatchingStatus::Matched => {
                let is_rejoin = match &self.player_b {
                    Some(b) => b.id == player_id,
                    None => false,
                };
                if is_rejoin {
                    JoinOutcome::Rejoined
                } else {
                    JoinOutcome::NotAvailable
                }
            },
            _ => JoinOutcome::NotAvailable,
        }
    }

    /// Notes that a player of the match is connected: the match is no
    /// longer abandoned.
    pub fn reconnect(&mut self)
        ensures
            *final(self) == old(self).reconnected(),
            old(self).wf() ==> final(self).wf(),
    {
        self.last_active_at = None;
    }
}


impl MatchingSession {
    /// The match after `player_id` has chosen `character`: the participant
    /// with that id holds the character and is ready. The creator's slot is
    /// looked at first. A stranger changes nothing.
    pub open spec fn with_character(&self, player_id: Seq<char>, character: Character)
        -> MatchingSession {
        if self.player_a.id@ == player_id {
            MatchingSession {
                player_a: Player { character: Some(character), ready: true, ..self.player_a },
                ..*self
            }
        } else if self.player_b is Some && self.player_b->0.id@ == player_id {
            MatchingSession {
                player_b: Some(
                    Player { character: Some(character), ready: true, ..self.player_b->0 },
                ),
                ..*self
            }
        } else {
            *self
        }
    }

    /// Whom to tell of a choice made by `player_id`: the other participant,
    /// where `player_id` is a participant and there is another.
    pub open spec fn selection_audience(&self, player_id: Seq<char>) -> Option<String> {
        if self.has_participant(player_id) {
            self.spec_opponent_of(player_id)
        } else {
            None
        }
    }

    /// Binds a participant to a character and marks the participant ready.
    /// Returns the id of the participant to notify, if there is one.
    pub fn select_character(&mut self, player_id: &String, character: Character) -> (audience:
        Option<String>)
        ensures
            *final(self) == old(self).with_character(player_id@, character),
            audience == old(self).selection_audience(player_id@),
            final(self).status == old(self).status,
            old(self).wf() && character.wf() ==> final(self).wf(),
    {
        if self.player_a.id == *player_id {
            self.player_a.character = Some(character);
            self.player_a.ready = true;
            match &self.player_b {
                Some(b) => Some(b.id.clone()),
                None => None,
            }
        } else {
            let is_b = match &self.player_b {
                Some(b) => b.id == *player_id,
                None => false,
            };
            if is_b {
                let b = self.player_b.take().unwrap();
                self.player_b = Some(
                    Player { id: b.id, username: b.username, character: Some(character), ready: true },
                );
                Some(self.player_a.id.clone())
            } else {
                None
            }
        }
    }

    /// Whether the battle is due to start: the match is matched and both
    /// participants are ready with a character.
    pub open spec fn may_start(&self) -> bool {
        self.status == MatchingStatus::Matched && self.spec_is_both_ready()
    }

    /// Starts the battle where it is due, and says whether it did.
    pub fn start_battle(&mut self) -> (started: bool)
        ensures
            started == old(self).may_start(),
            started ==> *final(self) == (MatchingSession {
                status: MatchingStatus::InGame,
                is_battle_started: true,
                ..*old(self)
            }),
            !started ==> *final(self) == *old(self),
            old(self).status.may_become(final(self).status),
            old(self).wf() ==> final(self).wf(),
    {
        if self.status == MatchingStatus::Matched && self.is_both_ready() {
            self.status = MatchingStatus::InGame;
            self.is_battle_started = true;
            true
        } else {
            false
        }
    }

    /// The match once its battle is over: flagged as finished, and in status
    /// `Finished` where it was in game.
    pub open spec fn finished(&self) -> MatchingSession {
        MatchingSession {
            is_battle_finished: true,
            status: if self.status == MatchingStatus::InGame {
                MatchingStatus::Finished
            } else {
                self.status
            },
            ..*self
        }
    }

    /// Records the end of the battle.
    pub fn finish_battle(&mut self)
        ensures
            *final(self) == old(self).finished(),
            old(self).status.may_become(final(self).status),
            old(self).wf() && old(self).status.rank() >= 2 ==> final(self).wf(),
    {
        self.is_battle_finished = true;
        if self.status == MatchingStatus::InGame {
            self.status = MatchingStatus::Finished;
        }
    }
}


/// The kind of an attack.
#[derive(Clone, Copy, Debug, PartialEq, Eq, Structural)]
pub enum AttackType {
    Normal,
    Special,
}

impl AttackType {
    /// The name of the variant, as text.
    pub open spec fn name(self) -> Seq<char> {
        match self {
            AttackType::Normal => "Normal"@,
            AttackType::Special => "Special"@,
        }
    }

    pub fn to_string(&self) -> (s: String)
        ensures
            s@ == self.name(),
    {
        match self {
            AttackType::Normal => "Normal".to_string(),
            AttackType::Special => "Special".to_string(),
        }
    }
}

/// What a player asks the avatar to do. `speed` is a single-precision bit
/// pattern, like the coordinates.
#[derive(Clone, Copy, Debug, PartialEq, Eq, Structural)]
pub enum InputAction {
    Move { direction: Vector3, speed: u32 },
    Attack { attack_type: AttackType, position: Vector3, direction: Vector3 },
    Rotate { rotation: Vector3 },
}

/// An input of one player, stamped with the time of its arrival.
#[derive(Debug, PartialEq, Eq)]
pub struct PlayerInput {
    pub player_id: String,
    pub action: InputAction,
    pub timestamp: Timestamp,
}

/// Both characters of a battle at one moment.
#[derive(Debug, PartialEq, Eq)]
pub struct GameState {
    pub matching_id: u128,
    pub player_a: Character,
    pub player_b: Character,
    pub timestamp: Timestamp,
}

/// How a battle ended.
#[derive(Debug, PartialEq, Eq)]
pub struct GameResult {
    pub matching_id: u128,
    pub winner_id: String,
    pub loser_id: String,
    pub player_a_id: String,
    pub player_b_id: String,
    pub play_time_seconds: i64,
    pub finished_at: Timestamp,
}

impl Clone for GameResult {
    fn clone(&self) -> (r: GameResult)
        ensures
            r == *self,
    {
        GameResult {
            matching_id: self.matching_id,
            winner_id: self.winner_id.clone(),
            loser_id: self.loser_id.clone(),
            player_a_id: self.player_a_id.clone(),
            player_b_id: self.player_b_id.clone(),
            play_time_seconds: self.play_time_seconds,
            finished_at: self.finished_at,
        }
    }
}

/// One line of the list of open matches.
#[derive(Debug, PartialEq, Eq)]
pub struct MatchingInfo {
    pub matching_id: u128,
    pub creator_username: Option<String>,
    pub created_at: Timestamp,
    pub status: MatchingStatus,
}

impl MatchingInfo {
    /// The line that advertises a match.
    pub open spec fn describing(session: MatchingSession) -> MatchingInfo {
        MatchingInfo {
            matching_id: session.matching_id,
            creator_username: session.creator_username,
            created_at: session.created_at,
            status: session.status,
        }
    }

    pub fn describe(session: &MatchingSession) -> (info: MatchingInfo)
        ensures
            info == Self::describing(*session),
    {
        MatchingInfo {
            matching_id: session.matching_id,
            creator_username: clone_opt_string(&session.creator_username),
            created_at: session.created_at,
            status: session.status,
        }
    }
}

/// A message between a client and the server, in either direction.
#[derive(Debug, PartialEq, Eq)]
pub enum WsMessage {
    CreateMatching { username: Option<String> },
    JoinMatch { matching_id: u128 },
    Ready { selected_model_id: String },
    Input { action: InputAction },
    StateUpdate { position: Vector3, rotation: Vector3 },
    MatchingCreated {
        matching_id: u128,
        current_matchings: Vec<MatchingInfo>,
        timestamp: Timestamp,
    },
    UpdateMatchings { current_matchings: Vec<MatchingInfo>, timestamp: Timestamp },
    MatchingEstablished { matching_id: u128, opponent_id: String, timestamp: Timestamp },
    MatchingSuccess { matching_id: u128, opponent_id: String, timestamp: Timestamp },
    OpponentCharacterSelected { character: Character, timestamp: Timestamp },
    GameStart { opponent_character: Character, your_player_id: String, timestamp: Timestamp },
    OpponentStateUpdate { opponent: Character, timestamp: Timestamp },
    OpponentAttacked {
        attacker_id: String,
        attack_type: AttackType,
        position: Vector3,
        direction: Vector3,
        timestamp: Timestamp,
    },
    GameEnd { result: GameResult, timestamp: Timestamp },
    Error { message: String },
}

impl WsMessage {
    /// An `Error` message with exactly this text.
    pub open spec fn is_error(&self, text: Seq<char>) -> bool {
        self matches WsMessage::Error { message } && message@ == text
    }

    /// An `UpdateMatchings` message with exactly these lines and this time.
    pub open spec fn is_update(&self, lines: Seq<MatchingInfo>, at: Timestamp) -> bool {
        self matches WsMessage::UpdateMatchings { current_matchings, timestamp }
            && current_matchings@ == lines && timestamp == at
    }

    /// A `MatchingCreated` message with exactly this id, these lines and this time.
    pub open spec fn is_created(&self, id: u128, lines: Seq<MatchingInfo>, at: Timestamp)
        -> bool {
        self matches WsMessage::MatchingCreated { matching_id, current_matchings, timestamp }
            && matching_id == id && current_matchings@ == lines && timestamp == at
    }

    pub fn error(text: &str) -> (m: WsMessage)
        ensures
            m.is_error(text@),
    {
        WsMessage::Error { message: text.to_owned() }
    }
}

/// An event on its way to a client: the message and the outbound queue of
/// the connection that is to carry it.
#[derive(Debug, PartialEq, Eq)]
pub struct Outbound {
    pub queue: u64,
    pub message: WsMessage,
}


/// The life of a match has one direction. Along any run of statuses in
/// which each may become the next, a later status never stands before an
/// earlier one, and no status is skipped: so the statuses that a match
/// passes through, from `Waiting` on, are a prefix of
/// waiting, matched, in game, finished.
pub proof fn lemma_status_never_goes_back(path: Seq<MatchingStatus>, i: int, j: int)
    requires
        forall|k: int| 0 <= k < path.len() - 1 ==> (#[trigger] path[k]).may_become(path[k + 1]),
        0 <= i <= j < path.len(),
    ensures
        path[i].rank() <= path[j].rank(),
        path[j].rank() - path[i].rank() <= j - i,
    decreases j - i,
{
    if i < j {
        lemma_status_never_goes_back(path, i, j - 1);
        assert(path[j - 1].may_become(path[j - 1 + 1]));
    }
}

/// A player who has joined a match is let back in by a second join: the
/// second join finds the player in the second slot of a matched match, and
/// leaves the match as the first join left it.
pub proof fn lemma_join_then_rejoin(before: MatchingSession, player_id: String)
    requires
        before.join_outcome(player_id@) == JoinOutcome::Joined,
    ensures
        before.joined_by(player_id).join_outcome(player_id@) == JoinOutcome::Rejoined,
        before.joined_by(player_id).last_active_at == before.last_active_at,
{
}

} // verus!
