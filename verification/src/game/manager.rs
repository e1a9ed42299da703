//! The orchestrator: the battles in progress, the commands that change
//! them, and the periodic checks for victory and for expiry.

use std::collections::HashMap;
use vstd::prelude::*;
use crate::clock::Timestamp;
use crate::game::state::{GameStateManager, Side};
use crate::handlers::{find_queue, queue_of, ChannelEntry, MatchingSessions};
use crate::keyed::lemma_take_contains;
use crate::models::{AttackType, GameResult, InputAction, Outbound, PlayerInput, Vector3, WsMessage};

verus! {

broadcast use vstd::std_specs::hash::group_hash_axioms;

/// The period of the victory check, in milliseconds: about 60 checks a second.
pub const TICK_INTERVAL_MS: u64 = 16;

/// The period of the expiry check, in seconds.
pub const CLEANUP_INTERVAL_SECS: u64 = 1;

/// Command: a battle begins. `ws_senders` are the connected players of the
/// match at that moment.
#[derive(Debug)]
pub struct StartGame {
    pub game: GameStateManager,
    pub ws_senders: Vec<ChannelEntry>,
}

/// Command: a player has sent an input.
#[derive(Debug)]
pub struct ProcessInput {
    pub matching_id: u128,
    pub input: PlayerInput,
}

/// Command: a player has reported position and rotation.
#[derive(Debug)]
pub struct ProcessStateUpdate {
    pub matching_id: u128,
    pub player_id: String,
    pub position: Vector3,
    pub rotation: Vector3,
}

/// Command: a player has reported damage taken.
#[derive(Debug)]
pub struct ApplyDamage {
    pub matching_id: u128,
    pub player_id: String,
    pub damage: i32,
}

/// A battle in progress: its state, and the queues of its players as they
/// were when it began.
#[derive(Debug)]
pub struct Battle {
    pub game: GameStateManager,
    pub senders: Vec<ChannelEntry>,
}

/// No message at all.
pub open spec fn no_notice() -> Seq<Outbound> {
    Seq::empty()
}

/// One message for a player, where the player has a queue among `senders`.
pub open spec fn notice_for(senders: Seq<ChannelEntry>, player_id: Seq<char>, message: WsMessage)
    -> Seq<Outbound> {
    match queue_of(senders, player_id) {
        Some(queue) => seq![Outbound { queue, message }],
        None => no_notice(),
    }
}

/// The messages that open a battle: each participant is told the
/// character of the other and the participant's own id.
pub open spec fn start_notices(game: GameStateManager, senders: Seq<ChannelEntry>, now: Timestamp)
    -> Seq<Outbound> {
    notice_for(
        senders,
        game.player_a_id@,
        WsMessage::GameStart {
            opponent_character: game.player_b_character,
            your_player_id: game.player_a_id,
            timestamp: now,
        },
    ) + notice_for(
        senders,
        game.player_b_id@,
        WsMessage::GameStart {
            opponent_character: game.player_a_character,
            your_player_id: game.player_b_id,
            timestamp: now,
        },
    )
}

/// The id of the participant on a side.
pub open spec fn player_on(game: GameStateManager, side: Side) -> String {
    match side {
        Side::A => game.player_a_id,
        Side::B => game.player_b_id,
    }
}

/// The other side.
pub open spec fn across(side: Side) -> Side {
    match side {
        Side::A => Side::B,
        Side::B => Side::A,
    }
}

/// The message that tells the opponent of `player_id` how that player's
/// character stands. A stranger causes no message.
pub open spec fn state_notices(
    game: GameStateManager,
    senders: Seq<ChannelEntry>,
    player_id: Seq<char>,
    now: Timestamp,
) -> Seq<Outbound> {
    match game.spec_side_of(player_id) {
        Some(side) => notice_for(
            senders,
            player_on(game, across(side))@,
            WsMessage::OpponentStateUpdate { opponent: game.character(side), timestamp: now },
        ),
        None => no_notice(),
    }
}

/// The message that tells the opponent of an attacker of the attack. A
/// stranger causes no message.
pub open spec fn attack_notices(
    game: GameStateManager,
    senders: Seq<ChannelEntry>,
    attacker_id: String,
    attack_type: AttackType,
    position: Vector3,
    direction: Vector3,
    now: Timestamp,
) -> Seq<Outbound> {
    match game.spec_side_of(attacker_id@) {
        Some(side) => notice_for(
            senders,
            player_on(game, across(side))@,
            WsMessage::OpponentAttacked {
                attacker_id,
                attack_type,
                position,
                direction,
                timestamp: now,
            },
        ),
        None => no_notice(),
    }
}

/// The messages that an input causes, given the battle as the input left it.
pub open spec fn input_notices(
    game: GameStateManager,
    senders: Seq<ChannelEntry>,
    input: PlayerInput,
    now: Timestamp,
) -> Seq<Outbound> {
    match input.action {
        InputAction::Attack { attack_type, position, direction } => attack_notices(
            game,
            senders,
            input.player_id,
            attack_type,
            position,
            direction,
            now,
        ),
        _ => state_notices(game, senders, input.player_id@, now),
    }
}

/// The result of a battle that is over, as found at `now`. The loser is
/// the participant who is not the winner; the play time is not measured and
/// is reported as zero.
pub open spec fn result_of(game: GameStateManager, now: Timestamp) -> GameResult {
    let winner = game.spec_check_winner()->0;
    GameResult {
        matching_id: game.matching_id,
        winner_id: winner,
        loser_id: if winner@ == game.player_a_id@ {
            game.player_b_id
        } else {
            game.player_a_id
        },
        player_a_id: game.player_a_id,
        player_b_id: game.player_b_id,
        play_time_seconds: 0,
        finished_at: now,
    }
}

/// The messages that close a battle with a given result: the result, to
/// each participant.
pub open spec fn result_notices(battle: Battle, result: GameResult, now: Timestamp) -> Seq<
    Outbound,
> {
    let message = WsMessage::GameEnd { result, timestamp: now };
    notice_for(battle.senders@, battle.game.player_a_id@, message) + notice_for(
        battle.senders@,
        battle.game.player_b_id@,
        message,
    )
}

/// The messages that close a battle that is over: its result, to each
/// participant.
pub open spec fn end_notices(battle: Battle, now: Timestamp) -> Seq<Outbound> {
    result_notices(battle, result_of(battle.game, now), now)
}

/// The result of a battle as found at `now`, where the battle is over.
pub fn game_result(game: &GameStateManager, now: Timestamp) -> (found: Option<GameResult>)
    ensures
        found == if game.spec_is_game_over() {
            Some(result_of(*game, now))
        } else {
            None
        },
{
    match game.check_winner() {
        Some(winner_id) => {
            let loser_id = if winner_id == game.player_a_id {
                game.player_b_id.clone()
            } else {
                game.player_a_id.clone()
            };
            Some(
                GameResult {
                    matching_id: game.matching_id,
                    winner_id,
                    loser_id,
                    player_a_id: game.player_a_id.clone(),
                    player_b_id: game.player_b_id.clone(),
                    play_time_seconds: 0,
                    finished_at: now,
                },
            )
        },
        None => None,
    }
}

/// The closing messages of every battle of `battles` that is over, in the
/// order of the battles.
pub open spec fn all_end_notices(battles: Seq<Battle>, now: Timestamp) -> Seq<Outbound>
    decreases battles.len(),
{
    if battles.len() == 0 {
        no_notice()
    } else {
        let rest = all_end_notices(battles.drop_last(), now);
        if battles.last().game.spec_is_game_over() {
            rest + end_notices(battles.last(), now)
        } else {
            rest
        }
    }
}

/// Whether an event is a closing message of the battle of a match.
pub open spec fn is_end_of(event: Outbound, id: u128) -> bool {
    event.message matches WsMessage::GameEnd { result, .. } && result.matching_id == id
}

/// The closing messages of the battle of a match among `out`, in order.
pub open spec fn ends_of(out: Seq<Outbound>, id: u128) -> Seq<Outbound>
    decreases out.len(),
{
    if out.len() == 0 {
        no_notice()
    } else {
        let rest = ends_of(out.drop_last(), id);
        if is_end_of(out.last(), id) {
            rest.push(out.last())
        } else {
            rest
        }
    }
}

/// The closing messages among two runs of events, one after the other,
/// are those of the first followed by those of the second.
pub proof fn lemma_ends_of_both(first: Seq<Outbound>, second: Seq<Outbound>, id: u128)
    ensures
        ends_of(first + second, id) == ends_of(first, id) + ends_of(second, id),
    decreases second.len(),
{
    if second.len() == 0 {
        assert(first + second =~= first);
        assert(ends_of(first, id) + ends_of(second, id) =~= ends_of(first, id));
    } else {
        lemma_ends_of_both(first, second.drop_last(), id);
        assert((first + second).drop_last() =~= first + second.drop_last());
        assert((first + second).last() == second.last());
        assert(ends_of(first + second, id) =~= ends_of(first, id) + ends_of(second, id));
    }
}

/// Among events that are all closing messages of one battle, every one
/// counts for that battle and none for another; among events none of which
/// closes a battle, none counts.
pub proof fn lemma_ends_of_alike(out: Seq<Outbound>, id: u128)
    ensures
        (forall|i: int| 0 <= i < out.len() ==> is_end_of(#[trigger] out[i], id)) ==> ends_of(
            out,
            id,
        ) == out,
        (forall|i: int| 0 <= i < out.len() ==> !is_end_of(#[trigger] out[i], id)) ==> ends_of(
            out,
            id,
        ) == no_notice(),
    decreases out.len(),
{
    if out.len() > 0 {
        lemma_ends_of_alike(out.drop_last(), id);
        if forall|i: int| 0 <= i < out.len() ==> is_end_of(#[trigger] out[i], id) {
            assert forall|i: int| 0 <= i < out.drop_last().len() implies is_end_of(
                #[trigger] out.drop_last()[i],
                id,
            ) by {
                assert(out.drop_last()[i] == out[i]);
            }
            assert(is_end_of(out[out.len() - 1], id));
            assert(out.drop_last().push(out.last()) =~= out);
        }
        if forall|i: int| 0 <= i < out.len() ==> !is_end_of(#[trigger] out[i], id) {
            assert forall|i: int| 0 <= i < out.drop_last().len() implies !is_end_of(
                #[trigger] out.drop_last()[i],
                id,
            ) by {
                assert(out.drop_last()[i] == out[i]);
            }
            assert(!is_end_of(out[out.len() - 1], id));
        }
    } else {
        assert(out =~= no_notice());
    }
}

/// None of the events closes a battle.
pub open spec fn sends_no_end(out: Seq<Outbound>) -> bool {
    forall|i: int| 0 <= i < out.len() ==> !((#[trigger] out[i]).message is GameEnd)
}

/// Events none of which closes a battle hold no closing message of any match.
pub proof fn lemma_no_end_of_any(out: Seq<Outbound>, id: u128)
    requires
        sends_no_end(out),
    ensures
        ends_of(out, id) == no_notice(),
{
    lemma_ends_of_alike(out, id);
}

/// The closing messages of a battle count for its own match and for no other.
pub proof fn lemma_ends_of_end_notices(battle: Battle, id: u128, now: Timestamp)
    ensures
        ends_of(end_notices(battle, now), id) == if battle.game.matching_id == id {
            end_notices(battle, now)
        } else {
            no_notice()
        },
{
    let out = end_notices(battle, now);
    let message = WsMessage::GameEnd { result: result_of(battle.game, now), timestamp: now };
    assert forall|i: int| 0 <= i < out.len() implies (#[trigger] out[i]).message == message by {
        let first = notice_for(battle.senders@, battle.game.player_a_id@, message);
        let second = notice_for(battle.senders@, battle.game.player_b_id@, message);
        assert(out == first + second);
        if i < first.len() {
            assert(out[i] == first[i]);
        } else {
            assert(out[i] == second[i - first.len()]);
        }
    }
    lemma_ends_of_alike(out, id);
}

/// Puts one message for a player on `out`, where the player has a queue.
pub fn push_notice(
    out: &mut Vec<Outbound>,
    senders: &Vec<ChannelEntry>,
    player_id: &String,
    message: WsMessage,
)
    ensures
        final(out)@ == old(out)@ + notice_for(senders@, player_id@, message),
{
    match find_queue(senders, player_id) {
        Some(queue) => {
            out.push(Outbound { queue, message });
            proof {
                assert(out@ =~= old(out)@ + seq![Outbound { queue, message }]);
            }
        },
        None => {
            proof {
                assert(out@ =~= old(out)@ + no_notice());
            }
        },
    }
}


/// The battles of a walk through an orchestrator: the battle of each id
/// of `order`, in that order.
pub open spec fn battles_in(battles: Map<u128, Battle>, order: Seq<u128>) -> Seq<Battle> {
    Seq::new(order.len(), |i: int| battles[order[i]])
}

/// The orchestrator of all battles. Each battle is held under the id of
/// its match.
#[derive(Debug)]
pub struct GameManager {
    pub battles: HashMap<u128, Battle>,
}

impl GameManager {
    /// Every battle is held under the id of its match.
    pub open spec fn wf(&self) -> bool {
        forall|id: u128| #[trigger]
            self.battles@.contains_key(id) ==> self.battles@[id].game.matching_id == id
    }

    /// Every character of every battle has valid hit points.
    pub open spec fn all_wf(&self) -> bool {
        forall|id: u128| #[trigger] self.battles@.contains_key(id) ==> self.battles@[id].game.wf()
    }

    /// The battle of a match, if it is in progress.
    pub open spec fn spec_get(&self, id: u128) -> Option<Battle> {
        if self.battles@.contains_key(id) {
            Some(self.battles@[id])
        } else {
            None
        }
    }

    pub open spec fn contains(&self, id: u128) -> bool {
        self.battles@.contains_key(id)
    }

    /// Whether the battle of a match is in progress and over.
    pub open spec fn is_over(&self, id: u128) -> bool {
        self.contains(id) && self.spec_get(id)->0.game.spec_is_game_over()
    }

    /// Whether `order` names every battle once: a walk through the battles.
    pub open spec fn is_walked_by(&self, order: Seq<u128>) -> bool {
        &&& order.no_duplicates()
        &&& forall|id: u128| order.contains(id) <==> self.contains(id)
    }

    /// An orchestrator without battles.
    pub fn new() -> (m: GameManager)
        ensures
            m.battles@ == Map::<u128, Battle>::empty(),
            m.wf(),
            m.all_wf(),
    {
        GameManager { battles: HashMap::new() }
    }

    /// How many battles are in progress.
    pub fn len(&self) -> (n: usize)
        ensures
            n == self.battles@.len(),
    {
        self.battles.len()
    }

    /// The battle of a match, if it is in progress.
    pub fn get(&self, id: u128) -> (found: Option<&Battle>)
        ensures
            match found {
                Some(battle) => self.spec_get(id) == Some(*battle),
                None => self.spec_get(id) is None,
            },
    {
        self.battles.get(&id)
    }

    /// The match ids of the battles, each once, in no particular order.
    pub fn matching_ids(&self) -> (ids: Vec<u128>)
        ensures
            self.is_walked_by(ids@),
    {
        let mut ids: Vec<u128> = Vec::new();
        for key in it: self.battles.keys()
            invariant
                it.seq().unref().to_set() == self.battles@.dom(),
                it.seq().no_duplicates(),
                ids@ == it.seq().unref().take(it.index() as int),
                it.index() == it.seq().len() ==> (forall|id: u128|
                    ids@.contains(id) <==> self.contains(id)),
                ids@.no_duplicates(),
        {
            ids.push(*key);
            assert(ids@ =~= it.seq().unref().take(it.index() + 1));
            assert(it.index() + 1 == it.seq().len() ==> it.seq().unref().take(it.index() + 1)
                =~= it.seq().unref());
            assert(it.index() + 1 == it.seq().len() ==> (forall|id: u128|
                ids@.contains(id) <==> self.contains(id))) by {
                assert forall|id: u128|
                    it.seq().unref().contains(id) <==> #[trigger] self.battles@.contains_key(
                        id,
                    ) by {
                    assert(it.seq().unref().to_set().contains(id) <==> self.battles@.dom().contains(
                        id,
                    ));
                }
            }
            assert(ids@.no_duplicates()) by {
                assert forall|i: int, j: int| 0 <= i < j < ids@.len() implies ids@[i] != ids@[j] by {
                    assert(it.seq()[i] != it.seq()[j]);
                }
            }
        }
        ids
    }

    /// Whether every battle is held under the id of its match.
    pub fn is_wf(&self) -> (ok: bool)
        ensures
            ok == self.wf(),
    {
        let ids = self.matching_ids();
        let mut k: usize = 0;
        while k < ids.len()
            invariant
                k <= ids@.len(),
                self.is_walked_by(ids@),
                forall|j: int| 0 <= j < k ==> self.battles@[ids@[j]].game.matching_id == ids@[j],
            decreases ids@.len() - k,
        {
            assert(ids@[k as int] == ids@[k as int]);
            assert(ids@.contains(ids@[k as int]));
            assert(self.contains(ids@[k as int]));
            match self.battles.get(&ids[k]) {
                Some(battle) => {
                    if battle.game.matching_id != ids[k] {
                        return false;
                    }
                },
                None => {},
            }
            k += 1;
        }
        proof {
            assert forall|id: u128| #[trigger] self.battles@.contains_key(id) implies self.battles@[id].game.matching_id
                == id by {
                assert(self.contains(id));
                assert(ids@.contains(id));
                let j = choose|j: int| 0 <= j < ids@.len() && ids@[j] == id;
                assert(self.battles@[ids@[j]].game.matching_id == ids@[j]);
            }
        }
        true
    }

    /// Where the character of a player stands in the battle of a match.
    pub fn position_of(&self, matching_id: u128, player_id: &str) -> (position: Option<Vector3>)
        ensures
            position == match self.spec_get(matching_id) {
                Some(battle) => match battle.game.spec_side_of(player_id@) {
                    Some(side) => Some(battle.game.character(side).position),
                    None => None,
                },
                None => None,
            },
    {
        match self.battles.get(&matching_id) {
            Some(battle) => battle.game.position_of(player_id),
            None => None,
        }
    }

    /// Takes the battle of a match out, if there is one.
    pub fn remove(&mut self, id: u128)
        ensures
            final(self).battles@ == old(self).battles@.remove(id),
            final(self).spec_get(id) is None,
            forall|other: u128|
                #![trigger final(self).spec_get(other)]
                #![trigger final(self).contains(other)]
                other != id ==> final(self).spec_get(other) == old(self).spec_get(other),
            old(self).wf() ==> final(self).wf(),
            old(self).all_wf() ==> final(self).all_wf(),
    {
        let _ = self.battles.remove(&id);
    }

    /// Begins a battle: tells each participant of the other's character,
    /// and takes the battle in, in place of an earlier battle of the same
    /// match, if any.
    pub fn handle_start_game(&mut self, msg: StartGame, now: Timestamp) -> (out: Vec<Outbound>)
        requires
            old(self).wf(),
        ensures
            final(self).wf(),
            out@ == start_notices(msg.game, msg.ws_senders@, now),
            final(self).battles@ == old(self).battles@.insert(
                msg.game.matching_id,
                Battle { game: msg.game, senders: msg.ws_senders },
            ),
            final(self).spec_get(msg.game.matching_id) == Some(
                Battle { game: msg.game, senders: msg.ws_senders },
            ),
            forall|id: u128|
                id != msg.game.matching_id ==> #[trigger] final(self).spec_get(id) == old(self).spec_get(id),
            forall|id: u128|
                id != msg.game.matching_id ==> #[trigger] final(self).is_quiet_for(
                    *old(self),
                    out@,
                    id,
                ),
            old(self).all_wf() && msg.game.wf() ==> final(self).all_wf(),
    {
        let ghost before = *self;
        let ghost id = msg.game.matching_id;
        let mut out: Vec<Outbound> = Vec::new();
        push_notice(
            &mut out,
            &msg.ws_senders,
            &msg.game.player_a_id,
            WsMessage::GameStart {
                opponent_character: msg.game.player_b_character.clone(),
                your_player_id: msg.game.player_a_id.clone(),
                timestamp: now,
            },
        );
        push_notice(
            &mut out,
            &msg.ws_senders,
            &msg.game.player_b_id,
            WsMessage::GameStart {
                opponent_character: msg.game.player_a_character.clone(),
                your_player_id: msg.game.player_b_id.clone(),
                timestamp: now,
            },
        );
        proof {
            assert(out@ =~= start_notices(msg.game, msg.ws_senders@, now));
            assert(sends_no_end(out@));
            assert forall|any: u128| ends_of(out@, any) == no_notice() by {
                lemma_no_end_of_any(out@, any);
            }
        }
        let battle = Battle { game: msg.game, senders: msg.ws_senders };
        let _ = self.battles.insert(battle.game.matching_id, battle);
        proof {
            assert forall|other: u128| other != id implies #[trigger] self.is_quiet_for(
                before,
                out@,
                other,
            ) by {
                assert(self.spec_get(other) == before.spec_get(other));
                assert(ends_of(out@, other) == no_notice());
            }
        }
        out
    }
}


impl GameManager {
    /// The messages with which the battle of a match tells the opponent of
    /// `player_id` how that player's character stands; none where the match
    /// has no battle.
    pub open spec fn state_notices_for(&self, matching_id: u128, player_id: Seq<char>, now: Timestamp)
        -> Seq<Outbound> {
        match self.spec_get(matching_id) {
            Some(battle) => state_notices(battle.game, battle.senders@, player_id, now),
            None => no_notice(),
        }
    }

    /// Tells the opponent of a player how the player's character stands.
    pub fn send_opponent_state_for_player(&self, matching_id: u128, player_id: &str, now: Timestamp)
        -> (out: Vec<Outbound>)
        ensures
            out@ == self.state_notices_for(matching_id, player_id@, now),
    {
        let mut out: Vec<Outbound> = Vec::new();
        match self.battles.get(&matching_id) {
            Some(battle) => {
                match battle.game.side_of(player_id) {
                    Some(Side::A) => {
                        push_notice(
                            &mut out,
                            &battle.senders,
                            &battle.game.player_b_id,
                            WsMessage::OpponentStateUpdate {
                                opponent: battle.game.player_a_character.clone(),
                                timestamp: now,
                            },
                        );
                    },
                    Some(Side::B) => {
                        push_notice(
                            &mut out,
                            &battle.senders,
                            &battle.game.player_a_id,
                            WsMessage::OpponentStateUpdate {
                                opponent: battle.game.player_b_character.clone(),
                                timestamp: now,
                            },
                        );
                    },
                    None => {},
                }
                proof {
                    assert(out@ =~= state_notices(battle.game, battle.senders@, player_id@, now));
                }
            },
            None => {},
        }
        out
    }

    /// Tells the opponent of an attacker of an attack.
    pub fn send_opponent_attack(
        &self,
        matching_id: u128,
        attacker_id: &String,
        attack_type: AttackType,
        position: Vector3,
        direction: Vector3,
        now: Timestamp,
    ) -> (out: Vec<Outbound>)
        ensures
            out@ == match self.spec_get(matching_id) {
                Some(battle) => attack_notices(
                    battle.game,
                    battle.senders@,
                    *attacker_id,
                    attack_type,
                    position,
                    direction,
                    now,
                ),
                None => no_notice(),
            },
    {
        let mut out: Vec<Outbound> = Vec::new();
        match self.battles.get(&matching_id) {
            Some(battle) => {
                let message = WsMessage::OpponentAttacked {
                    attacker_id: attacker_id.clone(),
                    attack_type,
                    position,
                    direction,
                    timestamp: now,
                };
                match battle.game.side_of(attacker_id.as_str()) {
                    Some(Side::A) => {
                        push_notice(&mut out, &battle.senders, &battle.game.player_b_id, message);
                    },
                    Some(Side::B) => {
                        push_notice(&mut out, &battle.senders, &battle.game.player_a_id, message);
                    },
                    None => {},
                }
                proof {
                    assert(out@ =~= attack_notices(
                        battle.game,
                        battle.senders@,
                        *attacker_id,
                        attack_type,
                        position,
                        direction,
                        now,
                    ));
                }
            },
            None => {},
        }
        out
    }

    /// Applies an input to the battle of a match and tells the opponent.
    /// For a move, `destination` is the position the move leads to. A match
    /// without a battle is left alone, and so is a battle by a stranger.
    pub fn handle_process_input(&mut self, msg: ProcessInput, destination: Vector3, now: Timestamp)
        -> (out: Vec<Outbound>)
        requires
            old(self).wf(),
        ensures
            final(self).wf(),
            match old(self).spec_get(msg.matching_id) {
                Some(battle) => {
                    &&& final(self).spec_get(msg.matching_id) == Some(
                        Battle {
                            game: battle.game.after_input(msg.input, destination),
                            senders: battle.senders,
                        },
                    )
                    &&& out@ == input_notices(
                        battle.game.after_input(msg.input, destination),
                        battle.senders@,
                        msg.input,
                        now,
                    )
                },
                None => final(self).spec_get(msg.matching_id) is None && out@ == no_notice(),
            },
            msg.input.action matches InputAction::Move { direction, .. } && direction.spec_is_zero()
                ==> final(self).spec_get(msg.matching_id) == old(self).spec_get(msg.matching_id),
            forall|id: u128|
                id != msg.matching_id ==> #[trigger] final(self).spec_get(id) == old(self).spec_get(
                    id,
                ),
            forall|id: u128| #[trigger] final(self).is_quiet_for(*old(self), out@, id),
            old(self).all_wf() ==> final(self).all_wf(),
    {
        let ghost before = *self;
        let out = match self.battles.remove(&msg.matching_id) {
            Some(mut battle) => {
                let player_id = msg.input.player_id.clone();
                let action = msg.input.action;
                battle.game.process_input(msg.input, destination);
                let _ = self.battles.insert(msg.matching_id, battle);
                match action {
                    InputAction::Attack { attack_type, position, direction } => {
                        self.send_opponent_attack(
                            msg.matching_id,
                            &player_id,
                            attack_type,
                            position,
                            direction,
                            now,
                        )
                    },
                    _ => self.send_opponent_state_for_player(
                        msg.matching_id,
                        player_id.as_str(),
                        now,
                    ),
                }
            },
            None => Vec::new(),
        };
        proof {
            assert(sends_no_end(out@));
            assert forall|id: u128| #[trigger] self.is_quiet_for(before, out@, id) by {
                lemma_no_end_of_any(out@, id);
                if id != msg.matching_id {
                    assert(self.spec_get(id) == before.spec_get(id));
                }
            }
        }
        out
    }

    /// Overwrites position and rotation of a player's character in the
    /// battle of a match and tells the opponent.
    pub fn handle_process_state_update(&mut self, msg: ProcessStateUpdate, now: Timestamp) -> (out:
        Vec<Outbound>)
        requires
            old(self).wf(),
        ensures
            final(self).wf(),
            match old(self).spec_get(msg.matching_id) {
                Some(battle) => {
                    &&& final(self).spec_get(msg.matching_id) == Some(
                        Battle {
                            game: battle.game.after_state_update(
                                msg.player_id@,
                                msg.position,
                                msg.rotation,
                            ),
                            senders: battle.senders,
                        },
                    )
                    &&& out@ == state_notices(
                        battle.game.after_state_update(msg.player_id@, msg.position, msg.rotation),
                        battle.senders@,
                        msg.player_id@,
                        now,
                    )
                },
                None => final(self).spec_get(msg.matching_id) is None && out@ == no_notice(),
            },
            forall|id: u128|
                id != msg.matching_id ==> #[trigger] final(self).spec_get(id) == old(self).spec_get(
                    id,
                ),
            forall|id: u128| #[trigger] final(self).is_quiet_for(*old(self), out@, id),
            old(self).all_wf() ==> final(self).all_wf(),
    {
        let ghost before = *self;
        let out = match self.battles.remove(&msg.matching_id) {
            Some(mut battle) => {
                battle.game.update_state(msg.player_id.as_str(), msg.position, msg.rotation);
                let _ = self.battles.insert(msg.matching_id, battle);
                self.send_opponent_state_for_player(msg.matching_id, msg.player_id.as_str(), now)
            },
            None => Vec::new(),
        };
        proof {
            assert(sends_no_end(out@));
            assert forall|id: u128| #[trigger] self.is_quiet_for(before, out@, id) by {
                lemma_no_end_of_any(out@, id);
                if id != msg.matching_id {
                    assert(self.spec_get(id) == before.spec_get(id));
                }
            }
        }
        out
    }

    /// Takes reported damage off a player's hit points in the battle of a
    /// match. Nobody is told; the next victory check sees the result.
    pub fn handle_apply_damage(&mut self, msg: ApplyDamage)
        requires
            old(self).wf(),
        ensures
            final(self).wf(),
            final(self).spec_get(msg.matching_id) == match old(self).spec_get(msg.matching_id) {
                Some(battle) => Some(
                    Battle {
                        game: battle.game.after_damage(msg.player_id@, msg.damage),
                        senders: battle.senders,
                    },
                ),
                None => None,
            },
            forall|id: u128|
                id != msg.matching_id ==> #[trigger] final(self).spec_get(id) == old(self).spec_get(
                    id,
                ),
            forall|id: u128| #[trigger] final(self).is_quiet_for(*old(self), no_notice(), id),
            old(self).all_wf() ==> final(self).all_wf(),
    {
        let ghost before = *self;
        match self.battles.remove(&msg.matching_id) {
            Some(mut battle) => {
                battle.game.apply_damage(msg.player_id.as_str(), msg.damage);
                let _ = self.battles.insert(msg.matching_id, battle);
            },
            None => {},
        }
        proof {
            assert forall|id: u128| #[trigger] self.is_quiet_for(before, no_notice(), id) by {
                if id != msg.matching_id {
                    assert(self.spec_get(id) == before.spec_get(id));
                }
            }
        }
    }
}


impl GameManager {
    /// Every battle whose match is registered belongs to a match that has
    /// started its battle.
    pub open spec fn in_step_with(&self, sessions: MatchingSessions) -> bool {
        forall|id: u128|
            self.contains(id) && #[trigger] sessions.contains(id) ==> sessions.spec_get(
                id,
            )->0.is_battle_started
    }

    /// The orchestrator after the battles of the matches `ids` are dropped.
    pub open spec fn is_without(&self, before: GameManager, ids: Seq<u128>) -> bool {
        forall|id: u128| #[trigger]
            self.spec_get(id) == if ids.contains(id) {
                None
            } else {
                before.spec_get(id)
            }
    }

    /// Drops the battles of the matches `ids`.
    pub fn remove_all(&mut self, ids: &Vec<u128>)
        requires
            old(self).wf(),
        ensures
            final(self).wf(),
            final(self).is_without(*old(self), ids@),
            old(self).all_wf() ==> final(self).all_wf(),
    {
        let ghost before = *self;
        let mut k: usize = 0;
        while k < ids.len()
            invariant
                k <= ids@.len(),
                self.wf(),
                self.is_without(before, ids@.take(k as int)),
                before.all_wf() ==> self.all_wf(),
            decreases ids@.len() - k,
        {
            let ghost mid = *self;
            self.remove(ids[k]);
            proof {
                assert forall|other: u128| #[trigger]
                    self.spec_get(other) == if ids@.take(k + 1).contains(other) {
                    None
                } else {
                    before.spec_get(other)
                } by {
                    lemma_take_contains(ids@, k as int, other);
                    assert(mid.spec_get(other) == if ids@.take(k as int).contains(other) {
                        None
                    } else {
                        before.spec_get(other)
                    });
                    if other != ids@[k as int] {
                        assert(self.spec_get(other) == mid.spec_get(other));
                    }
                }
            }
            k += 1;
        }
        proof {
            assert(ids@.take(k as int) =~= ids@);
        }
    }

    /// Ends the battle of one match with a given result: each participant
    /// is sent the result, and the battle is dropped. A match without a
    /// battle is left alone, and so is every other battle.
    pub fn broadcast_game_end(&mut self, matching_id: u128, result: GameResult, now: Timestamp) -> (out:
        Vec<Outbound>)
        requires
            old(self).wf(),
        ensures
            final(self).wf(),
            out@ == match old(self).spec_get(matching_id) {
                Some(battle) => result_notices(battle, result, now),
                None => no_notice(),
            },
            final(self).spec_get(matching_id) is None,
            forall|other: u128|
                other != matching_id ==> #[trigger] final(self).spec_get(other) == old(
                    self,
                ).spec_get(other),
            old(self).all_wf() ==> final(self).all_wf(),
    {
        let mut out: Vec<Outbound> = Vec::new();
        match self.battles.get(&matching_id) {
            Some(battle) => {
                push_notice(
                    &mut out,
                    &battle.senders,
                    &battle.game.player_a_id,
                    WsMessage::GameEnd { result: result.clone(), timestamp: now },
                );
                push_notice(
                    &mut out,
                    &battle.senders,
                    &battle.game.player_b_id,
                    WsMessage::GameEnd { result, timestamp: now },
                );
                proof {
                    assert(out@ =~= result_notices(*battle, result, now));
                }
            },
            None => {},
        }
        self.remove(matching_id);
        out
    }

    /// What a step other than the victory check comes to, as far as the
    /// match `id` goes: no closing message of its battle goes out, and its
    /// battle is not begun.
    pub open spec fn is_quiet_for(&self, before: GameManager, out: Seq<Outbound>, id: u128) -> bool {
        &&& ends_of(out, id) == no_notice()
        &&& self.contains(id) ==> before.contains(id)
    }

    /// What the victory check comes to: the battles are walked through in
    /// some order, the closing messages of every battle that is over go out
    /// in that order, and exactly those battles are dropped.
    pub open spec fn is_tick_of(&self, before: GameManager, out: Seq<Outbound>, now: Timestamp)
        -> bool {
        &&& exists|order: Seq<u128>| #[trigger]
            before.is_walked_by(order) && out == all_end_notices(
                battles_in(before.battles@, order),
                now,
            )
        &&& forall|id: u128|
            #![trigger self.spec_get(id)]
            #![trigger self.contains(id)]
            #![trigger before.is_over(id)]
            self.spec_get(id) == if before.is_over(id) {
                None
            } else {
                before.spec_get(id)
            }
    }

    /// The victory check. Every battle that is over is closed: each of its
    /// participants is sent the result, the battle is dropped, and its
    /// match is marked as finished. Battles that go on are left alone. The
    /// battles are looked at in no particular order; the two messages of
    /// one battle stand together.
    pub fn tick(&mut self, sessions: &mut MatchingSessions, now: Timestamp) -> (out: Vec<Outbound>)
        requires
            old(self).wf(),
            old(sessions).wf(),
        ensures
            final(self).wf(),
            final(sessions).wf(),
            final(self).is_tick_of(*old(self), out@, now),
            forall|id: u128| !(#[trigger] final(self).is_over(id)),
            forall|id: u128| #[trigger]
                final(sessions).spec_get(id) == if old(self).is_over(id) && old(sessions).contains(
                    id,
                ) {
                    Some(old(sessions).spec_get(id)->0.finished())
                } else {
                    old(sessions).spec_get(id)
                },
            final(sessions).advanced_from(*old(sessions)),
            old(self).all_wf() ==> final(self).all_wf(),
            old(sessions).all_wf() && old(self).in_step_with(*old(sessions)) ==> final(sessions).all_wf(),
            old(self).in_step_with(*old(sessions)) ==> final(self).in_step_with(*final(sessions)),
    {
        let ghost before = *self;
        let ghost sessions_before = *sessions;
        let ids = self.matching_ids();
        let mut out: Vec<Outbound> = Vec::new();
        let mut k: usize = 0;
        while k < ids.len()
            invariant
                k <= ids@.len(),
                before.is_walked_by(ids@),
                before.wf(),
                sessions_before.wf(),
                self.wf(),
                sessions.wf(),
                out@ == all_end_notices(battles_in(before.battles@, ids@).take(k as int), now),
                forall|id: u128| #[trigger]
                    self.spec_get(id) == if ids@.take(k as int).contains(id) && before.is_over(id) {
                        None
                    } else {
                        before.spec_get(id)
                    },
                forall|id: u128| #[trigger]
                    sessions.spec_get(id) == if ids@.take(k as int).contains(id) && before.is_over(
                        id,
                    ) && sessions_before.contains(id) {
                        Some(sessions_before.spec_get(id)->0.finished())
                    } else {
                        sessions_before.spec_get(id)
                    },
                before.all_wf() ==> self.all_wf(),
                sessions_before.all_wf() && before.in_step_with(sessions_before)
                    ==> sessions.all_wf(),
            decreases ids@.len() - k,
        {
            let id = ids[k];
            let ghost mid = *self;
            let ghost sessions_mid = *sessions;
            let ghost so_far = out@;
            proof {
                assert(ids@[k as int] == id);
                assert(ids@.contains(id));
                assert(before.contains(id));
                assert(battles_in(before.battles@, ids@)[k as int] == before.battles@[id]);
                assert(!ids@.take(k as int).contains(id)) by {
                    if ids@.take(k as int).contains(id) {
                        let j = choose|j: int|
                            0 <= j < ids@.take(k as int).len() && ids@.take(k as int)[j] == id;
                        assert(ids@[j] == ids@[k as int]);
                    }
                }
                assert(mid.spec_get(id) == before.spec_get(id));
                assert(sessions_mid.spec_get(id) == sessions_before.spec_get(id));
                assert(battles_in(before.battles@, ids@).take(k + 1).drop_last() =~= battles_in(
                    before.battles@,
                    ids@,
                ).take(k as int));
            }
            let found = match self.battles.get(&id) {
                Some(battle) => game_result(&battle.game, now),
                None => None,
            };
            match found {
                Some(result) => {
                    let mut notices = self.broadcast_game_end(id, result, now);
                    out.append(&mut notices);
                    sessions.finish_battle(id);
                    proof {
                        assert(out@ =~= so_far + end_notices(before.battles@[id], now));
                    }
                },
                None => {},
            }
            proof {
                assert forall|other: u128| #[trigger]
                    self.spec_get(other) == if ids@.take(k + 1).contains(other) && before.is_over(
                    other,
                ) {
                    None
                } else {
                    before.spec_get(other)
                } by {
                    lemma_take_contains(ids@, k as int, other);
                    assert(mid.spec_get(other) == if ids@.take(k as int).contains(other)
                        && before.is_over(other) {
                        None
                    } else {
                        before.spec_get(other)
                    });
                    if other != id {
                        assert(self.spec_get(other) == mid.spec_get(other));
                    }
                }
                assert forall|other: u128| #[trigger]
                    sessions.spec_get(other) == if ids@.take(k + 1).contains(other)
                    && before.is_over(other) && sessions_before.contains(other) {
                    Some(sessions_before.spec_get(other)->0.finished())
                } else {
                    sessions_before.spec_get(other)
                } by {
                    lemma_take_contains(ids@, k as int, other);
                    assert(sessions_mid.spec_get(other) == if ids@.take(k as int).contains(other)
                        && before.is_over(other) && sessions_before.contains(other) {
                        Some(sessions_before.spec_get(other)->0.finished())
                    } else {
                        sessions_before.spec_get(other)
                    });
                    if other != id {
                        assert(sessions.spec_get(other) == sessions_mid.spec_get(other));
                    }
                }
            }
            k += 1;
        }
        proof {
            assert(ids@.take(k as int) =~= ids@);
            assert(battles_in(before.battles@, ids@).take(k as int) =~= battles_in(
                before.battles@,
                ids@,
            ));
            assert forall|id: u128| before.is_over(id) implies ids@.contains(id) by {
                assert(before.contains(id));
            }
            assert(before.is_walked_by(ids@) && out@ == all_end_notices(
                battles_in(before.battles@, ids@),
                now,
            ));
            assert forall|id: u128| #[trigger]
                self.spec_get(id) == if before.is_over(id) {
                None
            } else {
                before.spec_get(id)
            } by {
                assert(self.spec_get(id) == if ids@.contains(id) && before.is_over(id) {
                    None
                } else {
                    before.spec_get(id)
                });
            }
            assert forall|id: u128| !(#[trigger] self.is_over(id)) by {
                assert(self.spec_get(id) == if before.is_over(id) {
                    None
                } else {
                    before.spec_get(id)
                });
            }
            assert forall|id: u128| #[trigger]
                sessions.spec_get(id) == if before.is_over(id) && sessions_before.contains(id) {
                Some(sessions_before.spec_get(id)->0.finished())
            } else {
                sessions_before.spec_get(id)
            } by {
                assert(sessions.spec_get(id) == if ids@.contains(id) && before.is_over(id)
                    && sessions_before.contains(id) {
                    Some(sessions_before.spec_get(id)->0.finished())
                } else {
                    sessions_before.spec_get(id)
                });
            }
            assert forall|id: u128| #[trigger]
                sessions_before.contains(id) && sessions.contains(
                    id,
                ) implies sessions_before.spec_get(id)->0.status.may_become(
                sessions.spec_get(id)->0.status,
            ) by {
                assert(sessions.spec_get(id) == if before.is_over(id) && sessions_before.contains(
                    id,
                ) {
                    Some(sessions_before.spec_get(id)->0.finished())
                } else {
                    sessions_before.spec_get(id)
                });
            }
            if before.in_step_with(sessions_before) {
                assert forall|id: u128|
                    self.contains(id) && #[trigger] sessions.contains(id) implies sessions.spec_get(
                    id,
                )->0.is_battle_started by {
                    assert(self.spec_get(id) == if before.is_over(id) {
                        None
                    } else {
                        before.spec_get(id)
                    });
                    assert(sessions.spec_get(id) == if before.is_over(id)
                        && sessions_before.contains(id) {
                        Some(sessions_before.spec_get(id)->0.finished())
                    } else {
                        sessions_before.spec_get(id)
                    });
                    assert(sessions_before.contains(id));
                }
            }
        }
        out
    }

    /// The expiry check. Every match that is not valid at `now` is removed
    /// from the registry, and its battle, if any, is dropped.
    pub fn cleanup(&mut self, sessions: &mut MatchingSessions, now: Timestamp)
        requires
            old(self).wf(),
            old(sessions).wf(),
        ensures
            final(self).wf(),
            final(sessions).wf(),
            final(sessions).is_purge_of(*old(sessions), now),
            forall|id: u128| #[trigger]
                final(self).spec_get(id) == if old(sessions).contains(id) && !old(sessions).spec_get(id)->0.spec_is_valid_at(now) {
                    None
                } else {
                    old(self).spec_get(id)
                },
            forall|id: u128| #[trigger] final(self).is_quiet_for(*old(self), no_notice(), id),
            final(sessions).advanced_from(*old(sessions)),
            old(self).all_wf() ==> final(self).all_wf(),
            old(sessions).all_wf() ==> final(sessions).all_wf(),
    {
        let ghost before = *self;
        let ghost sessions_before = *sessions;
        let removed = sessions.remove_expired(now);
        self.remove_all(&removed);
        proof {
            assert forall|id: u128| #[trigger] self.is_quiet_for(before, no_notice(), id) by {
                assert(self.spec_get(id) == if removed@.contains(id) {
                    None
                } else {
                    before.spec_get(id)
                });
            }
            assert forall|id: u128| #[trigger]
                self.spec_get(id) == if sessions_before.contains(id) && !sessions_before.spec_get(
                id,
            )->0.spec_is_valid_at(now) {
                None
            } else {
                before.spec_get(id)
            } by {
                assert(removed@.contains(id) <==> sessions_before.contains(id)
                    && !sessions_before.spec_get(id)->0.spec_is_valid_at(now));
            }
            assert forall|id: u128| #[trigger]
                sessions_before.contains(id) && sessions.contains(
                    id,
                ) implies sessions_before.spec_get(id)->0.status.may_become(
                sessions.spec_get(id)->0.status,
            ) by {
                assert(sessions.spec_get(id) == if sessions_before.contains(id)
                    && sessions_before.spec_get(id)->0.spec_is_valid_at(now) {
                    sessions_before.spec_get(id)
                } else {
                    None
                });
            }
        }
    }
}

/// The closing messages of one match among those of the battles
/// `battles[0..n]`, where `at` says where among `battles` the battle of the
/// match stands, if anywhere: the closing messages of that battle, where
/// it is among the first `n` and over, and none otherwise.
proof fn lemma_ends_among(battles: Seq<Battle>, n: int, at: Option<int>, id: u128, now: Timestamp)
    requires
        0 <= n <= battles.len(),
        match at {
            Some(j) => 0 <= j < battles.len() && forall|i: int|
                0 <= i < battles.len() ==> ((#[trigger] battles[i]).game.matching_id == id <==> i
                    == j),
            None => forall|i: int|
                0 <= i < battles.len() ==> (#[trigger] battles[i]).game.matching_id != id,
        },
    ensures
        ends_of(all_end_notices(battles.take(n), now), id) == match at {
            Some(j) => if j < n && battles[j].game.spec_is_game_over() {
                end_notices(battles[j], now)
            } else {
                no_notice()
            },
            None => no_notice(),
        },
    decreases n,
{
    if n > 0 {
        let last = battles[n - 1];
        lemma_ends_among(battles, n - 1, at, id, now);
        assert(battles.take(n).drop_last() =~= battles.take(n - 1));
        assert(battles.take(n).last() == last);
        let rest = all_end_notices(battles.take(n - 1), now);
        if last.game.spec_is_game_over() {
            lemma_ends_of_both(rest, end_notices(last, now), id);
            lemma_ends_of_end_notices(last, id, now);
            if last.game.matching_id == id {
                assert(ends_of(rest, id) + end_notices(last, now) =~= end_notices(last, now));
            } else {
                assert(ends_of(rest, id) + no_notice() =~= ends_of(rest, id));
            }
        }
    } else {
        assert(battles.take(0) =~= Seq::<Battle>::empty());
    }
}

/// One closing per battle. Whatever the order in which a victory check
/// walks through the battles, among its messages those that close the
/// battle of a match are exactly the closing messages of that battle,
/// where it is over: its result, once to each participant who had a queue
/// when the battle began. Of a battle that goes on, and of a match without
/// a battle, the check sends none.
pub proof fn lemma_tick_closes_each_once(
    manager: GameManager,
    order: Seq<u128>,
    id: u128,
    now: Timestamp,
)
    requires
        manager.wf(),
        manager.is_walked_by(order),
    ensures
        ends_of(all_end_notices(battles_in(manager.battles@, order), now), id) == if manager.is_over(
            id,
        ) {
            end_notices(manager.spec_get(id)->0, now)
        } else {
            no_notice()
        },
{
    let battles = battles_in(manager.battles@, order);
    assert forall|i: int| 0 <= i < battles.len() implies (#[trigger] battles[i]).game.matching_id
        == order[i] by {
        assert(order.contains(order[i]));
        assert(manager.contains(order[i]));
    }
    let at = if manager.contains(id) {
        assert(order.contains(id));
        Some(choose|j: int| 0 <= j < order.len() && order[j] == id)
    } else {
        None
    };
    if at is None {
        assert forall|i: int| 0 <= i < battles.len() implies (#[trigger] battles[i]).game.matching_id
            != id by {
            assert(order.contains(order[i]));
        }
    }
    lemma_ends_among(battles, battles.len() as int, at, id, now);
    assert(battles.take(battles.len() as int) =~= battles);
}

/// What a victory check sends of one match: where the battle of the match
/// was over, its closing messages, and nothing else of that match.
pub proof fn lemma_tick_sends_each_once(
    before: GameManager,
    after: GameManager,
    out: Seq<Outbound>,
    now: Timestamp,
    id: u128,
)
    requires
        before.wf(),
        after.is_tick_of(before, out, now),
    ensures
        ends_of(out, id) == if before.is_over(id) {
            end_notices(before.spec_get(id)->0, now)
        } else {
            no_notice()
        },
{
    let order = choose|order: Seq<u128>| #[trigger]
        before.is_walked_by(order) && out == all_end_notices(
            battles_in(before.battles@, order),
            now,
        );
    lemma_tick_closes_each_once(before, order, id, now);
}

/// Where both participants of a battle had a queue when it began, its
/// closing messages are two: the result, once on the queue of the first
/// participant and once on that of the second.
pub proof fn lemma_end_reaches_both(
    battle: Battle,
    result: GameResult,
    now: Timestamp,
    first: u64,
    second: u64,
)
    requires
        queue_of(battle.senders@, battle.game.player_a_id@) == Some(first),
        queue_of(battle.senders@, battle.game.player_b_id@) == Some(second),
    ensures
        result_notices(battle, result, now) == seq![
            Outbound { queue: first, message: WsMessage::GameEnd { result, timestamp: now } },
            Outbound { queue: second, message: WsMessage::GameEnd { result, timestamp: now } },
        ],
        end_notices(battle, now) == result_notices(battle, result_of(battle.game, now), now),
{
    let message = WsMessage::GameEnd { result, timestamp: now };
    assert(result_notices(battle, result, now) =~= seq![
        Outbound { queue: first, message },
        Outbound { queue: second, message },
    ]);
}

/// A run of the orchestrator, as far as the match `id` goes: step `i`
/// leads from `states[i]` to `states[i + 1]` at `times[i]` and sends
/// `outs[i]`, and is a victory check or a step that is quiet for the match.
pub open spec fn is_run_for(
    states: Seq<GameManager>,
    outs: Seq<Seq<Outbound>>,
    times: Seq<Timestamp>,
    id: u128,
) -> bool {
    &&& states.len() == outs.len() + 1
    &&& times.len() == outs.len()
    &&& forall|i: int| 0 <= i < states.len() ==> (#[trigger] states[i]).wf()
    &&& forall|i: int|
        0 <= i < outs.len() ==> (#[trigger] states[i + 1]).is_tick_of(states[i], outs[i], times[i])
            || states[i + 1].is_quiet_for(states[i], outs[i], id)
}

/// A battle that is gone stays gone for the rest of a run.
proof fn lemma_stays_gone(
    states: Seq<GameManager>,
    outs: Seq<Seq<Outbound>>,
    times: Seq<Timestamp>,
    id: u128,
    from: int,
    to: int,
)
    requires
        is_run_for(states, outs, times, id),
        0 <= from <= to < states.len(),
        !states[from].contains(id),
    ensures
        !states[to].contains(id),
    decreases to - from,
{
    if from < to {
        lemma_stays_gone(states, outs, times, id, from, to - 1);
        let i = to - 1;
        assert(states[i + 1].is_tick_of(states[i], outs[i], times[i]) || states[i + 1].is_quiet_for(
            states[i],
            outs[i],
            id,
        ));
        if states[i + 1].is_tick_of(states[i], outs[i], times[i]) {
            assert(states[i + 1].spec_get(id) == if states[i].is_over(id) {
                None
            } else {
                states[i].spec_get(id)
            });
        }
    }
}

/// The end of a battle is told once. In a run of the orchestrator in
/// which the battle of a match is not begun anew, the closing messages of
/// that battle go out in at most one step: a victory check that found the
/// battle over, sent its result once to each participant with a queue, and
/// dropped the battle. No later step sends a closing message of the match.
pub proof fn lemma_game_end_goes_out_once(
    states: Seq<GameManager>,
    outs: Seq<Seq<Outbound>>,
    times: Seq<Timestamp>,
    id: u128,
    i: int,
    j: int,
)
    requires
        is_run_for(states, outs, times, id),
        0 <= i < j < outs.len(),
        ends_of(outs[i], id).len() > 0,
    ensures
        states[i].is_over(id),
        ends_of(outs[i], id) == end_notices(states[i].spec_get(id)->0, times[i]),
        !states[i + 1].contains(id),
        !states[j].contains(id),
        ends_of(outs[j], id) == no_notice(),
{
    assert(states[i + 1].is_tick_of(states[i], outs[i], times[i]) || states[i + 1].is_quiet_for(
        states[i],
        outs[i],
        id,
    ));
    lemma_tick_sends_each_once(states[i], states[i + 1], outs[i], times[i], id);
    assert(states[i + 1].spec_get(id) == if states[i].is_over(id) {
        None
    } else {
        states[i].spec_get(id)
    });
    lemma_stays_gone(states, outs, times, id, i + 1, j);
    assert(states[j + 1].is_tick_of(states[j], outs[j], times[j]) || states[j + 1].is_quiet_for(
        states[j],
        outs[j],
        id,
    ));
    if states[j + 1].is_tick_of(states[j], outs[j], times[j]) {
        lemma_tick_sends_each_once(states[j], states[j + 1], outs[j], times[j], id);
    }
}

/// Once no battle is over, the victory check has nothing to send: the
/// result of a battle goes out in one check and in no later one.
pub proof fn lemma_no_second_game_end(battles: Seq<Battle>, now: Timestamp)
    requires
        forall|i: int| 0 <= i < battles.len() ==> !(#[trigger] battles[i]).game.spec_is_game_over(),
    ensures
        all_end_notices(battles, now) == no_notice(),
    decreases battles.len(),
{
    if battles.len() > 0 {
        lemma_no_second_game_end(battles.drop_last(), now);
    }
}

} // verus!
