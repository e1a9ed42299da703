//! One connection: what each message of its client does to the shared
//! registries, and which events go out in answer.

use vstd::prelude::*;
use crate::clock::{current_time, Timestamp};
use crate::handlers::matching::{others_kept, others_kept_but};
use crate::handlers::{channels_with, channels_without, open_matches, waiting_without, Channel, MatchingSessions, WaitingPlayer, WaitingPlayers, WsChannels};
use crate::ident::{format_uuid, parse_uuid, random_uuid, uuid_parse, uuid_text};
use crate::db::models::Model3D;
use crate::game::manager::{ProcessInput, ProcessStateUpdate, StartGame};
use crate::game::state::GameStateManager;
use crate::models::{Character, InputAction, PlayerInput, JoinOutcome, MatchingSession, MatchingStatus, Outbound, Player, Vector3, WsMessage, INITIAL_HP};
use vstd::string::StringExecFns;
use crate::text::{contains_text, has_infix};

verus! {

/// The three registries that all connections work on.
#[derive(Debug)]
pub struct SharedState {
    pub sessions: MatchingSessions,
    pub ws_channels: WsChannels,
    pub waiting_players: WaitingPlayers,
}

impl SharedState {
    /// Every registry is in order: each match is registered under its own
    /// id, and the channels and the lobby find at most one entry under a key.
    pub open spec fn wf(&self) -> bool {
        self.sessions.wf() && self.ws_channels.wf() && self.waiting_players.wf()
    }

    /// The registries hold what those of `other` hold.
    pub open spec fn same_as(&self, other: SharedState) -> bool {
        &&& self.sessions.sessions@ == other.sessions.sessions@
        &&& self.ws_channels.channels@ == other.ws_channels.channels@
        &&& self.waiting_players.entries@ == other.waiting_players.entries@
    }

    /// A match that notes when its last connected player left has no
    /// connected player.
    pub open spec fn timers_consistent(&self) -> bool {
        forall|id: u128|
            #[trigger] self.sessions.sessions@.contains_key(id)
                && self.sessions.sessions@[id].last_active_at is Some
                ==> !self.ws_channels.has_match(id)
    }

    /// Whether every registry is in order.
    pub fn is_wf(&self) -> (ok: bool)
        ensures
            ok == self.wf(),
    {
        self.sessions.is_wf() && self.ws_channels.is_wf() && self.waiting_players.is_wf()
    }

    /// Three empty registries.
    pub fn new() -> (s: SharedState)
        ensures
            s.wf(),
            s.sessions.all_wf(),
            s.sessions.sessions@ == Map::<u128, MatchingSession>::empty(),
            s.ws_channels.channels@.len() == 0,
            s.waiting_players.entries@.len() == 0,
    {
        SharedState {
            sessions: MatchingSessions::new(),
            ws_channels: WsChannels::new(),
            waiting_players: WaitingPlayers::new(),
        }
    }
}

/// Whether `out` is the update of the list of open matches for every
/// advertising player: one message per entry, in the order of the entries,
/// to the entry's queue, listing the matches of the others.
pub open spec fn is_broadcast(
    out: Seq<Outbound>,
    entries: Seq<WaitingPlayer>,
    sessions: MatchingSessions,
    now: Timestamp,
) -> bool {
    &&& out.len() == entries.len()
    &&& forall|i: int|
        0 <= i < entries.len() ==> (#[trigger] out[i]).queue == entries[i].queue
            && out[i].message.is_update(
            open_matches(entries, sessions, entries[i].player_id@),
            now,
        )
}

/// Sends every advertising player the list of the open matches of the
/// others, as it stands.
pub fn broadcast_update_matchings(shared: &SharedState, now: Timestamp) -> (out: Vec<Outbound>)
    ensures
        is_broadcast(out@, shared.waiting_players.entries@, shared.sessions, now),
{
    let mut out: Vec<Outbound> = Vec::new();
    let mut i: usize = 0;
    while i < shared.waiting_players.entries.len()
        invariant
            i <= shared.waiting_players.entries@.len(),
            out@.len() == i,
            forall|j: int|
                0 <= j < i ==> (#[trigger] out@[j]).queue == shared.waiting_players.entries@[j].queue
                    && out@[j].message.is_update(
                    open_matches(
                        shared.waiting_players.entries@,
                        shared.sessions,
                        shared.waiting_players.entries@[j].player_id@,
                    ),
                    now,
                ),
        decreases shared.waiting_players.entries@.len() - i,
    {
        let entry = &shared.waiting_players.entries[i];
        let lines = shared.waiting_players.snapshot(&shared.sessions, &entry.player_id);
        out.push(
            Outbound {
                queue: entry.queue,
                message: WsMessage::UpdateMatchings { current_matchings: lines, timestamp: now },
            },
        );
        i += 1;
    }
    out
}


/// The period of the keep-alive probe, in milliseconds.
pub const HEARTBEAT_INTERVAL_MILLIS: u64 = 5_000;

/// How long a connection may stay silent, in milliseconds.
pub const CLIENT_TIMEOUT_MILLIS: i64 = 10_000;

/// What the keep-alive check asks for.
#[derive(Clone, Copy, Debug, PartialEq, Eq, Structural)]
pub enum Heartbeat {
    /// The client is probed once more.
    Ping,
    /// The client has been silent for too long: the connection ends.
    Stop,
}

/// One connection of a client.
#[derive(Debug)]
pub struct WsSession {
    /// When the client was last heard of.
    pub hb: Timestamp,
    pub player_id: Option<String>,
    /// The match the connection is bound to.
    pub matching_id: Option<u128>,
    /// The outbound queue of the connection.
    pub queue: u64,
}

/// The entry with which a player advertises a match.
pub open spec fn advert(player_id: String, matching_id: u128, queue: u64) -> WaitingPlayer {
    WaitingPlayer { player_id, matching_id, queue }
}

impl WsSession {
    /// A connection opened at `now`, bound to no player and no match.
    pub fn opened_at(queue: u64, now: Timestamp) -> (s: WsSession)
        ensures
            s == (WsSession { hb: now, player_id: None, matching_id: None, queue }),
    {
        WsSession { hb: now, player_id: None, matching_id: None, queue }
    }

    /// A connection opened at the time of the call.
    pub fn new(queue: u64) -> (s: WsSession)
        ensures
            s == (WsSession { hb: s.hb, player_id: None, matching_id: None, queue }),
    {
        Self::opened_at(queue, current_time())
    }

    /// Notes that the client was heard of at `now`.
    pub fn touch(&mut self, now: Timestamp)
        ensures
            *final(self) == (WsSession { hb: now, ..*old(self) }),
    {
        self.hb = now;
    }

    /// The keep-alive check: the connection ends once the client has been
    /// silent for more than the timeout.
    pub fn heartbeat(&self, now: Timestamp) -> (h: Heartbeat)
        ensures
            h == if now.millis_since(self.hb) > CLIENT_TIMEOUT_MILLIS {
                Heartbeat::Stop
            } else {
                Heartbeat::Ping
            },
    {
        if now.is_more_than_after(self.hb, CLIENT_TIMEOUT_MILLIS) {
            Heartbeat::Stop
        } else {
            Heartbeat::Ping
        }
    }

    /// What creating a match comes to, for a connection without a player:
    /// nothing; for one with a player: the match is registered and
    /// advertised, the connection is bound to it, the creator is told of it
    /// and of the open matches of the others, and every advertising player
    /// is sent the new list.
    pub open spec fn create_post(
        before: WsSession,
        shared_before: SharedState,
        username: Option<String>,
        matching_id: u128,
        now: Timestamp,
        after: WsSession,
        shared: SharedState,
        out: Seq<Outbound>,
    ) -> bool {
        match before.player_id {
            None => after == before && shared.same_as(shared_before) && out.len() == 0,
            Some(player_id) => {
                let session = MatchingSession::fresh(matching_id, player_id, username, now);
                let entry = advert(player_id, matching_id, before.queue);
                &&& after == (WsSession { matching_id: Some(matching_id), ..before })
                &&& shared.ws_channels == shared_before.ws_channels
                &&& shared.sessions.sessions@ == shared_before.sessions.sessions@.insert(
                    matching_id,
                    session,
                )
                &&& shared.waiting_players.entries@
                    == match shared_before.waiting_players.spec_position(player_id@) {
                    Some(i) => shared_before.waiting_players.entries@.update(i, entry),
                    None => shared_before.waiting_players.entries@.push(entry),
                }
                &&& shared.sessions.spec_get(matching_id) == Some(session)
                &&& shared.waiting_players.spec_get(player_id@) == Some(entry)
                &&& out.len() == 1 + shared.waiting_players.entries@.len()
                &&& out[0].queue == before.queue
                &&& out[0].message.is_created(
                    matching_id,
                    open_matches(shared.waiting_players.entries@, shared.sessions, player_id@),
                    now,
                )
                &&& is_broadcast(
                    out.skip(1),
                    shared.waiting_players.entries@,
                    shared.sessions,
                    now,
                )
            },
        }
    }

    /// Creates a match with a given id at a given time.
    pub fn handle_create_matching_at(
        &mut self,
        username: Option<String>,
        matching_id: u128,
        shared: &mut SharedState,
        now: Timestamp,
    ) -> (out: Vec<Outbound>)
        requires
            old(shared).wf(),
        ensures
            final(shared).wf(),
            Self::create_post(
                *old(self),
                *old(shared),
                username,
                matching_id,
                now,
                *final(self),
                *final(shared),
                out@,
            ),
            forall|id: u128|
                id != matching_id ==> #[trigger] final(shared).sessions.spec_get(id) == old(
                    shared,
                ).sessions.spec_get(id),
            !old(shared).sessions.contains(matching_id) ==> final(shared).sessions.advanced_from(
                old(shared).sessions,
            ),
            old(shared).sessions.all_wf() ==> final(shared).sessions.all_wf(),
            old(shared).timers_consistent() ==> final(shared).timers_consistent(),
    {
        let player_id = match &self.player_id {
            Some(p) => p.clone(),
            None => {
                return Vec::new();
            },
        };
        let session = MatchingSession::create(matching_id, player_id.clone(), username, now);
        self.matching_id = Some(matching_id);
        shared.sessions.insert(session);
        shared.waiting_players.insert(player_id.clone(), matching_id, self.queue);
        let lines = shared.waiting_players.snapshot(&shared.sessions, &player_id);
        let mut out: Vec<Outbound> = Vec::new();
        out.push(
            Outbound {
                queue: self.queue,
                message: WsMessage::MatchingCreated {
                    matching_id,
                    current_matchings: lines,
                    timestamp: now,
                },
            },
        );
        let mut updates = broadcast_update_matchings(shared, now);
        let ghost sent = updates@;
        out.append(&mut updates);
        proof {
            assert(out@.skip(1) =~= sent);
            if old(shared).timers_consistent() {
                assert forall|id: u128|
                    #[trigger] shared.sessions.contains(id) && shared.sessions.spec_get(
                        id,
                    )->0.last_active_at is Some implies !shared.ws_channels.has_match(id) by {
                    if id != matching_id {
                        assert(shared.sessions.spec_get(id) == old(shared).sessions.spec_get(id));
                        assert(old(shared).sessions.contains(id));
                    }
                }
            }
        }
        out
    }

    /// Creates a match under a fresh random id, at the time of the call.
    pub fn handle_create_matching(&mut self, username: Option<String>, shared: &mut SharedState)
        -> (out: Vec<Outbound>)
        requires
            old(shared).wf(),
        ensures
            final(shared).wf(),
            exists|matching_id: u128, now: Timestamp| #[trigger]
                Self::create_post(
                    *old(self),
                    *old(shared),
                    username,
                    matching_id,
                    now,
                    *final(self),
                    *final(shared),
                    out@,
                ),
            old(shared).sessions.all_wf() ==> final(shared).sessions.all_wf(),
            old(shared).timers_consistent() ==> final(shared).timers_consistent(),
    {
        let matching_id = random_uuid();
        let now = current_time();
        self.handle_create_matching_at(username, matching_id, shared, now)
    }
}


/// Whether `out` is one message, an error with this text, on this queue.
pub open spec fn is_error_reply(out: Seq<Outbound>, queue: u64, text: Seq<char>) -> bool {
    out.len() == 1 && out[0].queue == queue && out[0].message.is_error(text)
}

/// The messages that tell the two participants of a match that it is
/// established, each with the id of the other: first the creator, then the
/// joiner, each where connected to the match.
pub open spec fn established_notices(
    channels: WsChannels,
    matching_id: u128,
    creator: String,
    joiner: String,
    now: Timestamp,
) -> Seq<Outbound> {
    (match channels.spec_queue_for(matching_id, creator@) {
        Some(queue) => seq![
            Outbound {
                queue,
                message: WsMessage::MatchingEstablished {
                    matching_id,
                    opponent_id: joiner,
                    timestamp: now,
                },
            },
        ],
        None => Seq::empty(),
    }) + (match channels.spec_queue_for(matching_id, joiner@) {
        Some(queue) => seq![
            Outbound {
                queue,
                message: WsMessage::MatchingEstablished {
                    matching_id,
                    opponent_id: creator,
                    timestamp: now,
                },
            },
        ],
        None => Seq::empty(),
    })
}

/// The channels after a join: the creator is connected through the queue
/// that advertised the match, where one did, and the joiner through the
/// joiner's own.
pub open spec fn channels_after_join(
    channels: Seq<Channel>,
    matching_id: u128,
    creator: Option<WaitingPlayer>,
    joiner: String,
    queue: u64,
) -> Seq<Channel> {
    let with_creator = match creator {
        Some(w) => channels_with(
            channels,
            Channel { matching_id, player_id: w.player_id, queue: w.queue },
        ),
        None => channels,
    };
    channels_with(with_creator, Channel { matching_id, player_id: joiner, queue })
}

impl WsSession {
    /// What a join comes to. A connection without a player does nothing.
    /// Otherwise the connection is bound to the match, and then: an unknown
    /// match, a match that is not open, and the player's own match each
    /// give an error and change nothing else; the second participant of a
    /// matched match is connected again and told so; a new player takes the
    /// second slot, both participants leave the list of advertisers and are
    /// connected to the match and told that it is established, and every
    /// remaining advertiser is sent the new list. A player who is let in is
    /// connected, so the match is abandoned no longer.
    pub open spec fn join_post(
        before: WsSession,
        shared_before: SharedState,
        matching_id: u128,
        now: Timestamp,
        after: WsSession,
        shared: SharedState,
        out: Seq<Outbound>,
    ) -> bool {
        match before.player_id {
            None => after == before && shared.same_as(shared_before) && out.len() == 0,
            Some(player_id) => {
                &&& after == (WsSession { matching_id: Some(matching_id), ..before })
                &&& match shared_before.sessions.spec_get(matching_id) {
                    None => shared.same_as(shared_before) && is_error_reply(
                        out,
                        before.queue,
                        "Matching session not found"@,
                    ),
                    Some(session) => match session.join_outcome(player_id@) {
                        JoinOutcome::NotAvailable => shared.same_as(shared_before)
                            && is_error_reply(
                            out,
                            before.queue,
                            "This matching session is not available"@,
                        ),
                        JoinOutcome::OwnSession => shared.same_as(shared_before) && is_error_reply(
                            out,
                            before.queue,
                            "Cannot join your own matching session"@,
                        ),
                        JoinOutcome::Rejoined => {
                            &&& shared.waiting_players.entries@
                                == shared_before.waiting_players.entries@
                            &&& shared.sessions.spec_get(matching_id) == Some(
                                session.reconnected(),
                            )
                            &&& shared.ws_channels.channels@ == channels_with(
                                shared_before.ws_channels.channels@,
                                Channel { matching_id, player_id, queue: before.queue },
                            )
                            &&& out == seq![
                                Outbound {
                                    queue: before.queue,
                                    message: WsMessage::MatchingSuccess {
                                        matching_id,
                                        opponent_id: session.player_a.id,
                                        timestamp: now,
                                    },
                                },
                            ]
                        },
                        JoinOutcome::Joined => {
                            let creator = session.player_a.id;
                            let notices = established_notices(
                                shared.ws_channels,
                                matching_id,
                                creator,
                                player_id,
                                now,
                            );
                            &&& shared.sessions.spec_get(matching_id) == Some(
                                session.joined_by(player_id).reconnected(),
                            )
                            &&& shared.waiting_players.entries@ == waiting_without(
                                waiting_without(shared_before.waiting_players.entries@, creator@),
                                player_id@,
                            )
                            &&& shared.ws_channels.channels@ == channels_after_join(
                                shared_before.ws_channels.channels@,
                                matching_id,
                                shared_before.waiting_players.spec_get(creator@),
                                player_id,
                                before.queue,
                            )
                            &&& shared.ws_channels.spec_queue_for(matching_id, player_id@) == Some(
                                before.queue,
                            )
                            &&& out.len() == notices.len() + shared.waiting_players.entries@.len()
                            &&& out.take(notices.len() as int) == notices
                            &&& is_broadcast(
                                out.skip(notices.len() as int),
                                shared.waiting_players.entries@,
                                shared.sessions,
                                now,
                            )
                        },
                    },
                }
            },
        }
    }

    /// Joins a match at a given time.
    pub fn handle_join_match_at(&mut self, matching_id: u128, shared: &mut SharedState, now: Timestamp)
        -> (out: Vec<Outbound>)
        requires
            old(shared).wf(),
        ensures
            final(shared).wf(),
            Self::join_post(
                *old(self),
                *old(shared),
                matching_id,
                now,
                *final(self),
                *final(shared),
                out@,
            ),
            others_kept(old(shared).sessions, final(shared).sessions, matching_id),
            final(shared).sessions.advanced_from(old(shared).sessions),
            old(shared).sessions.all_wf() ==> final(shared).sessions.all_wf(),
            old(shared).timers_consistent() ==> final(shared).timers_consistent(),
    {
        let ghost shared_before = *shared;
        let player_id = match &self.player_id {
            Some(p) => p.clone(),
            None => {
                return Vec::new();
            },
        };
        self.matching_id = Some(matching_id);
        let mut out: Vec<Outbound> = Vec::new();
        let mut joined = match shared.sessions.remove(matching_id) {
            Some(s) => s,
            None => {
                proof {
                    assert(shared.sessions.sessions@ =~= shared_before.sessions.sessions@);
                }
                out.push(
                    Outbound {
                        queue: self.queue,
                        message: WsMessage::error("Matching session not found"),
                    },
                );
                return out;
            },
        };
        let ghost session = joined;
        let outcome = joined.join(player_id.clone());
        if outcome == JoinOutcome::Joined || outcome == JoinOutcome::Rejoined {
            joined.reconnect();
        }
        let creator = joined.player_a.id.clone();
        shared.sessions.insert(joined);
        proof {
            assert(session.matching_id == matching_id);
            assert(shared_before.sessions.spec_get(matching_id) == Some(session));
            if shared_before.sessions.all_wf() {
                assert(session.wf());
            }
        }
        match outcome {
            JoinOutcome::NotAvailable => {
                proof {
                    assert(shared.sessions.sessions@ =~= shared_before.sessions.sessions@);
                }
                out.push(
                    Outbound {
                        queue: self.queue,
                        message: WsMessage::error("This matching session is not available"),
                    },
                );
            },
            JoinOutcome::OwnSession => {
                proof {
                    assert(shared.sessions.sessions@ =~= shared_before.sessions.sessions@);
                }
                out.push(
                    Outbound {
                        queue: self.queue,
                        message: WsMessage::error("Cannot join your own matching session"),
                    },
                );
            },
            JoinOutcome::Rejoined => {
                shared.ws_channels.register(matching_id, player_id, self.queue);
                out.push(
                    Outbound {
                        queue: self.queue,
                        message: WsMessage::MatchingSuccess {
                            matching_id,
                            opponent_id: creator,
                            timestamp: now,
                        },
                    },
                );
                proof {
                    assert(out@ =~= seq![out@[0]]);
                }
            },
            JoinOutcome::Joined => {
                let advertised = shared.waiting_players.remove(&creator);
                let _ = shared.waiting_players.remove(&player_id);
                match advertised {
                    Some(w) => {
                        shared.ws_channels.register(matching_id, w.player_id, w.queue);
                    },
                    None => {},
                }
                shared.ws_channels.register(matching_id, player_id.clone(), self.queue);
                match shared.ws_channels.queue_for(matching_id, &creator) {
                    Some(queue) => {
                        out.push(
                            Outbound {
                                queue,
                                message: WsMessage::MatchingEstablished {
                                    matching_id,
                                    opponent_id: player_id.clone(),
                                    timestamp: now,
                                },
                            },
                        );
                    },
                    None => {},
                }
                match shared.ws_channels.queue_for(matching_id, &player_id) {
                    Some(queue) => {
                        out.push(
                            Outbound {
                                queue,
                                message: WsMessage::MatchingEstablished {
                                    matching_id,
                                    opponent_id: creator,
                                    timestamp: now,
                                },
                            },
                        );
                    },
                    None => {},
                }
                let ghost notices = out@;
                proof {
                    assert(notices =~= established_notices(
                        shared.ws_channels,
                        matching_id,
                        creator,
                        player_id,
                        now,
                    ));
                }
                let mut updates = broadcast_update_matchings(shared, now);
                let ghost sent = updates@;
                out.append(&mut updates);
                proof {
                    assert(out@.take(notices.len() as int) =~= notices);
                    assert(out@.skip(notices.len() as int) =~= sent);
                }
            },
        }
        proof {
            assert forall|id: u128| #[trigger]
                shared_before.sessions.contains(id) && shared.sessions.contains(
                    id,
                ) implies shared_before.sessions.spec_get(id)->0.status.may_become(
                shared.sessions.spec_get(id)->0.status,
            ) by {
                if id != matching_id {
                    assert(shared.sessions.spec_get(id) == shared_before.sessions.spec_get(id));
                }
            }
        }
        out
    }

    /// Joins a match at the time of the call.
    pub fn handle_join_match(&mut self, matching_id: u128, shared: &mut SharedState) -> (out: Vec<
        Outbound,
    >)
        requires
            old(shared).wf(),
        ensures
            final(shared).wf(),
            exists|now: Timestamp| #[trigger]
                Self::join_post(
                    *old(self),
                    *old(shared),
                    matching_id,
                    now,
                    *final(self),
                    *final(shared),
                    out@,
                ),
            others_kept(old(shared).sessions, final(shared).sessions, matching_id),
            final(shared).sessions.advanced_from(old(shared).sessions),
            old(shared).sessions.all_wf() ==> final(shared).sessions.all_wf(),
            old(shared).timers_consistent() ==> final(shared).timers_consistent(),
    {
        let now = current_time();
        self.handle_join_match_at(matching_id, shared, now)
    }
}


/// What the model store said when asked for a model.
#[derive(Debug, PartialEq, Eq)]
pub enum ModelLookup {
    /// The store holds this record under the id.
    Found(Model3D),
    /// The store holds no model under the id.
    Missing,
    /// The store could not be asked.
    Failed,
}

/// The error text for a model that the store does not hold.
pub open spec fn model_missing_text(model_id: Seq<char>) -> Seq<char> {
    "Model ID '"@ + model_id + "' not found. Please upload a 3D model first."@
}

/// The error text for a model that has been bound to a character before.
pub open spec fn model_used_text(model_id: Seq<char>) -> Seq<char> {
    "Model ID '"@ + model_id + "' has already been used."@
}

/// Whether a model may be claimed, by what the store said of it.
pub open spec fn is_claimable(lookup: ModelLookup) -> bool {
    lookup matches ModelLookup::Found(model) && !model.is_used
}

/// The error text for an answer of the store that does not allow a claim.
pub open spec fn lookup_refusal_text(model_id: Seq<char>, lookup: ModelLookup) -> Seq<char> {
    match lookup {
        ModelLookup::Found(_) => model_used_text(model_id),
        ModelLookup::Missing => model_missing_text(model_id),
        ModelLookup::Failed => "Failed to validate model ID"@,
    }
}

/// What the model store has answered in the course of a claim.
#[derive(Debug)]
pub enum ClaimEvent {
    /// The answer to the look-up of the model.
    Looked(ModelLookup),
    /// Whether the model could be marked as used.
    Marked(bool),
}

/// What is to be done next in the course of a claim.
#[derive(Debug)]
pub enum ClaimStep {
    /// The model is to be marked as used in the store.
    Mark,
    /// The claim is over, with these messages and this command.
    Done(ReadyOutcome),
}

/// Decides whether a model may be claimed for a character. A model that
/// the store holds unused may; any other answer of the store gives the
/// error to send back.
pub fn vet_model(model_id: &str, lookup: &ModelLookup) -> (verdict: Result<(), WsMessage>)
    ensures
        verdict is Ok <==> is_claimable(*lookup),
        verdict matches Err(reply) ==> reply.is_error(lookup_refusal_text(model_id@, *lookup)),
{
    match lookup {
        ModelLookup::Found(model) => {
            if model.is_used {
                let mut text = "Model ID '".to_owned();
                text.append(model_id);
                text.append("' has already been used.");
                Err(WsMessage::Error { message: text })
            } else {
                Ok(())
            }
        },
        ModelLookup::Missing => {
            let mut text = "Model ID '".to_owned();
            text.append(model_id);
            text.append("' not found. Please upload a 3D model first.");
            Err(WsMessage::Error { message: text })
        },
        ModelLookup::Failed => Err(WsMessage::error("Failed to validate model ID")),
    }
}

/// The error to send back where a model could not be marked as used.
pub fn mark_failure_reply() -> (reply: WsMessage)
    ensures
        reply.is_error("Failed to process model selection"@),
{
    WsMessage::error("Failed to process model selection")
}

/// A character as it is when a player has just chosen its model.
pub open spec fn fresh_character(model_id: String) -> Character {
    Character {
        model_id,
        position: Vector3 { x: 0, y: 0, z: 0 },
        rotation: Vector3 { x: 0, y: 0, z: 0 },
        hp: INITIAL_HP,
        max_hp: INITIAL_HP,
    }
}

/// A match after a participant has declared readiness with a character:
/// the participant holds the character, and the battle has started where
/// that made it due.
pub open spec fn session_after_ready(session: MatchingSession, player_id: Seq<char>, character: Character)
    -> MatchingSession {
    let chosen = session.with_character(player_id, character);
    if chosen.may_start() {
        MatchingSession { status: MatchingStatus::InGame, is_battle_started: true, ..chosen }
    } else {
        chosen
    }
}

/// The battle that begins with a match: its two participants and their
/// characters.
pub open spec fn opening_of(session: MatchingSession) -> GameStateManager {
    GameStateManager {
        matching_id: session.matching_id,
        player_a_id: session.player_a.id,
        player_b_id: session.player_b->0.id,
        player_a_character: session.player_a.character->0,
        player_b_character: session.player_b->0.character->0,
    }
}

/// What a declaration of readiness leads to: the messages to send, and
/// the command for the orchestrator where a battle begins.
#[derive(Debug)]
pub struct ReadyOutcome {
    pub out: Vec<Outbound>,
    pub start: Option<StartGame>,
}

/// The error text for a declaration of readiness that comes before the
/// match has both its participants.
pub open spec fn not_established_text() -> Seq<char> {
    "Matching is not established yet"@
}

/// Why a declaration of readiness of a connection with a player is
/// refused, if it is: the connection is bound to no match, its match is not
/// registered, or its match still waits for a second participant.
pub open spec fn ready_refusal(conn: WsSession, sessions: MatchingSessions) -> Option<Seq<char>> {
    match conn.matching_id {
        None => Some(not_established_text()),
        Some(matching_id) => match sessions.spec_get(matching_id) {
            None => Some("Matching session not found"@),
            Some(session) => if session.status == MatchingStatus::Waiting {
                Some(not_established_text())
            } else {
                None
            },
        },
    }
}

impl WsSession {
    /// What a declaration of readiness with a claimed model comes to. A
    /// connection without a player does nothing. Where the connection is
    /// bound to no match, or its match is not registered or still waits for
    /// a second participant, an error goes back and nothing changes.
    /// Otherwise the player's slot takes a fresh character of the model and
    /// is ready, the other participant is told of the character where
    /// connected, and where the match is matched and both are ready now,
    /// its battle starts: the match is in game, and the orchestrator is
    /// handed the two characters and the connected players of the match.
    pub open spec fn ready_post(
        conn: WsSession,
        shared_before: SharedState,
        model_id: String,
        now: Timestamp,
        shared: SharedState,
        out: Seq<Outbound>,
        start: Option<StartGame>,
    ) -> bool {
        match conn.player_id {
            None => shared.same_as(shared_before) && out.len() == 0 && start is None,
            Some(player_id) => match ready_refusal(conn, shared_before.sessions) {
                Some(text) => shared.same_as(shared_before) && start is None && is_error_reply(
                    out,
                    conn.queue,
                    text,
                ),
                None => {
                    let matching_id = conn.matching_id->0;
                    let session = shared_before.sessions.spec_get(matching_id)->0;
                    let character = fresh_character(model_id);
                    let after = session_after_ready(session, player_id@, character);
                    &&& shared.sessions.spec_get(matching_id) == Some(after)
                    &&& others_kept(shared_before.sessions, shared.sessions, matching_id)
                    &&& shared.ws_channels.channels@ == shared_before.ws_channels.channels@
                    &&& shared.waiting_players.entries@ == shared_before.waiting_players.entries@
                    &&& out == match session.selection_audience(player_id@) {
                        Some(opponent) => match shared.ws_channels.spec_queue_for(
                            matching_id,
                            opponent@,
                        ) {
                            Some(queue) => seq![
                                Outbound {
                                    queue,
                                    message: WsMessage::OpponentCharacterSelected {
                                        character,
                                        timestamp: now,
                                    },
                                },
                            ],
                            None => Seq::empty(),
                        },
                        None => Seq::empty(),
                    }
                    &&& start is Some <==> session.with_character(player_id@, character).may_start()
                    &&& start matches Some(command) ==> command.game == opening_of(after)
                        && command.ws_senders@ == shared.ws_channels.spec_senders(matching_id)
                },
            },
        }
    }

    /// The error that refuses a declaration of readiness, where the
    /// connection has a player and the declaration comes too early.
    pub fn check_ready(&self, sessions: &MatchingSessions) -> (refusal: Option<WsMessage>)
        ensures
            match ready_refusal(*self, *sessions) {
                Some(text) => refusal matches Some(reply) && reply.is_error(text),
                None => refusal is None,
            },
    {
        let matching_id = match self.matching_id {
            Some(m) => m,
            None => {
                return Some(WsMessage::error("Matching is not established yet"));
            },
        };
        match sessions.get(matching_id) {
            None => Some(WsMessage::error("Matching session not found")),
            Some(session) => {
                if session.status == MatchingStatus::Waiting {
                    Some(WsMessage::error("Matching is not established yet"))
                } else {
                    None
                }
            },
        }
    }

    /// Declares the player ready with a model that has been claimed in
    /// the model store, at a given time.
    pub fn handle_ready_at(&self, model_id: String, shared: &mut SharedState, now: Timestamp) -> (r:
        ReadyOutcome)
        requires
            old(shared).wf(),
        ensures
            final(shared).wf(),
            Self::ready_post(*self, *old(shared), model_id, now, *final(shared), r.out@, r.start),
            others_kept_but(old(shared).sessions, final(shared).sessions, self.matching_id),
            final(shared).sessions.advanced_from(old(shared).sessions),
            old(shared).sessions.all_wf() ==> final(shared).sessions.all_wf(),
            old(shared).timers_consistent() ==> final(shared).timers_consistent(),
            old(shared).sessions.all_wf() ==> (r.start matches Some(command) ==> command.game.wf()),
    {
        let ghost shared_before = *shared;
        let mut out: Vec<Outbound> = Vec::new();
        let player_id = match &self.player_id {
            Some(p) => p.clone(),
            None => {
                return ReadyOutcome { out, start: None };
            },
        };
        let matching_id = match self.matching_id {
            Some(m) => m,
            None => {
                out.push(
                    Outbound {
                        queue: self.queue,
                        message: WsMessage::error("Matching is not established yet"),
                    },
                );
                return ReadyOutcome { out, start: None };
            },
        };
        let mut current = match shared.sessions.remove(matching_id) {
            Some(s) => s,
            None => {
                proof {
                    assert(shared.sessions.sessions@ =~= shared_before.sessions.sessions@);
                }
                out.push(
                    Outbound {
                        queue: self.queue,
                        message: WsMessage::error("Matching session not found"),
                    },
                );
                return ReadyOutcome { out, start: None };
            },
        };
        let ghost session = current;
        proof {
            assert(session.matching_id == matching_id);
            if shared_before.sessions.all_wf() {
                assert(session.wf());
            }
        }
        if current.status == MatchingStatus::Waiting {
            shared.sessions.insert(current);
            proof {
                assert(shared.sessions.sessions@ =~= shared_before.sessions.sessions@);
            }
            out.push(
                Outbound {
                    queue: self.queue,
                    message: WsMessage::error("Matching is not established yet"),
                },
            );
            return ReadyOutcome { out, start: None };
        }
        let character = Character::new(model_id);
        let audience = current.select_character(&player_id, character.clone());
        match audience {
            Some(opponent) => {
                match shared.ws_channels.queue_for(matching_id, &opponent) {
                    Some(queue) => {
                        out.push(
                            Outbound {
                                queue,
                                message: WsMessage::OpponentCharacterSelected {
                                    character,
                                    timestamp: now,
                                },
                            },
                        );
                        proof {
                            assert(out@ =~= seq![out@[0]]);
                        }
                    },
                    None => {},
                }
            },
            None => {},
        }
        let started = current.start_battle();
        let start = if started {
            match (&current.player_a.character, &current.player_b) {
                (Some(a), Some(b)) => match &b.character {
                    Some(c) => Some(
                        StartGame {
                            game: GameStateManager::new(
                                matching_id,
                                current.player_a.id.clone(),
                                b.id.clone(),
                                a.clone(),
                                c.clone(),
                            ),
                            ws_senders: shared.ws_channels.senders(matching_id),
                        },
                    ),
                    None => None,
                },
                _ => None,
            }
        } else {
            None
        };
        shared.sessions.insert(current);
        proof {
            assert forall|id: u128| #[trigger]
                shared_before.sessions.contains(id) && shared.sessions.contains(
                    id,
                ) implies shared_before.sessions.spec_get(id)->0.status.may_become(
                shared.sessions.spec_get(id)->0.status,
            ) by {
                if id != matching_id {
                    assert(shared.sessions.spec_get(id) == shared_before.sessions.spec_get(id));
                }
            }
        }
        ReadyOutcome { out, start }
    }

    /// Declares the player ready with a model that has been claimed in
    /// the model store, at the time of the call.
    pub fn handle_ready(&self, model_id: String, shared: &mut SharedState) -> (r: ReadyOutcome)
        requires
            old(shared).wf(),
        ensures
            final(shared).wf(),
            exists|now: Timestamp| #[trigger]
                Self::ready_post(*self, *old(shared), model_id, now, *final(shared), r.out@, r.start),
            others_kept_but(old(shared).sessions, final(shared).sessions, self.matching_id),
            final(shared).sessions.advanced_from(old(shared).sessions),
            old(shared).sessions.all_wf() ==> final(shared).sessions.all_wf(),
            old(shared).timers_consistent() ==> final(shared).timers_consistent(),
    {
        let now = current_time();
        self.handle_ready_at(model_id, shared, now)
    }

    /// What one step of a claim comes to. The answer to the look-up either
    /// allows the claim, and then the model is to be marked as used, or
    /// ends it with the error that says why not. A mark that failed ends
    /// the claim with an error. In both cases nothing has changed. A mark
    /// that succeeded ends the claim with the declaration of readiness.
    pub open spec fn claim_post(
        conn: WsSession,
        shared_before: SharedState,
        model_id: String,
        event: ClaimEvent,
        now: Timestamp,
        shared: SharedState,
        step: ClaimStep,
    ) -> bool {
        match event {
            ClaimEvent::Looked(lookup) => {
                &&& shared.same_as(shared_before)
                &&& if is_claimable(lookup) {
                    step is Mark
                } else {
                    step matches ClaimStep::Done(r) && r.start is None && is_error_reply(
                        r.out@,
                        conn.queue,
                        lookup_refusal_text(model_id@, lookup),
                    )
                }
            },
            ClaimEvent::Marked(false) => {
                &&& shared.same_as(shared_before)
                &&& step matches ClaimStep::Done(r) && r.start is None && is_error_reply(
                    r.out@,
                    conn.queue,
                    "Failed to process model selection"@,
                )
            },
            ClaimEvent::Marked(true) => step matches ClaimStep::Done(r) && Self::ready_post(
                conn,
                shared_before,
                model_id,
                now,
                shared,
                r.out@,
                r.start,
            ),
        }
    }

    /// Takes one step of the claim of a model, at a given time: from what
    /// the model store has answered to what is to be done next.
    pub fn claim_step_at(
        &self,
        model_id: String,
        event: ClaimEvent,
        shared: &mut SharedState,
        now: Timestamp,
    ) -> (step: ClaimStep)
        requires
            old(shared).wf(),
        ensures
            final(shared).wf(),
            Self::claim_post(*self, *old(shared), model_id, event, now, *final(shared), step),
            others_kept_but(old(shared).sessions, final(shared).sessions, self.matching_id),
            final(shared).sessions.advanced_from(old(shared).sessions),
            old(shared).sessions.all_wf() ==> final(shared).sessions.all_wf(),
            old(shared).timers_consistent() ==> final(shared).timers_consistent(),
    {
        proof {
            assert forall|id: u128| #[trigger]
                shared.sessions.contains(id) && shared.sessions.contains(
                    id,
                ) implies shared.sessions.spec_get(id)->0.status.may_become(
                shared.sessions.spec_get(id)->0.status,
            ) by {}
        }
        match event {
            ClaimEvent::Looked(lookup) => match vet_model(model_id.as_str(), &lookup) {
                Ok(_) => ClaimStep::Mark,
                Err(reply) => {
                    let mut out: Vec<Outbound> = Vec::new();
                    out.push(Outbound { queue: self.queue, message: reply });
                    ClaimStep::Done(ReadyOutcome { out, start: None })
                },
            },
            ClaimEvent::Marked(marked) => {
                if marked {
                    ClaimStep::Done(self.handle_ready_at(model_id, shared, now))
                } else {
                    let mut out: Vec<Outbound> = Vec::new();
                    out.push(Outbound { queue: self.queue, message: mark_failure_reply() });
                    ClaimStep::Done(ReadyOutcome { out, start: None })
                }
            },
        }
    }

    /// Takes one step of the claim of a model, at the time of the call.
    pub fn claim_step(&self, model_id: String, event: ClaimEvent, shared: &mut SharedState) -> (step:
        ClaimStep)
        requires
            old(shared).wf(),
        ensures
            final(shared).wf(),
            exists|now: Timestamp| #[trigger]
                Self::claim_post(*self, *old(shared), model_id, event, now, *final(shared), step),
            others_kept_but(old(shared).sessions, final(shared).sessions, self.matching_id),
            final(shared).sessions.advanced_from(old(shared).sessions),
            old(shared).sessions.all_wf() ==> final(shared).sessions.all_wf(),
            old(shared).timers_consistent() ==> final(shared).timers_consistent(),
    {
        let now = current_time();
        self.claim_step_at(model_id, event, shared, now)
    }
}


impl WsSession {
    /// The command that an input of the client becomes: none for a
    /// connection without a player or without a match.
    pub open spec fn input_command(&self, action: InputAction, now: Timestamp) -> Option<
        ProcessInput,
    > {
        if self.player_id is Some && self.matching_id is Some {
            Some(
                ProcessInput {
                    matching_id: self.matching_id->0,
                    input: PlayerInput { player_id: self.player_id->0, action, timestamp: now },
                },
            )
        } else {
            None
        }
    }

    /// Turns an input that arrived at `now` into a command for the orchestrator.
    pub fn handle_input_at(&self, action: InputAction, now: Timestamp) -> (command: Option<
        ProcessInput,
    >)
        ensures
            command == self.input_command(action, now),
    {
        match (&self.player_id, self.matching_id) {
            (Some(player_id), Some(matching_id)) => Some(
                ProcessInput {
                    matching_id,
                    input: PlayerInput { player_id: player_id.clone(), action, timestamp: now },
                },
            ),
            _ => None,
        }
    }

    /// Turns an input that arrives now into a command for the orchestrator.
    pub fn handle_input(&self, action: InputAction) -> (command: Option<ProcessInput>)
        ensures
            exists|now: Timestamp| command == #[trigger] self.input_command(action, now),
    {
        let now = current_time();
        self.handle_input_at(action, now)
    }

    /// Turns a report of position and rotation into a command for the
    /// orchestrator: none for a connection without a player or without a
    /// match.
    pub fn handle_state_update(&self, position: Vector3, rotation: Vector3) -> (command: Option<
        ProcessStateUpdate,
    >)
        ensures
            command == if self.player_id is Some && self.matching_id is Some {
                Some(
                    ProcessStateUpdate {
                        matching_id: self.matching_id->0,
                        player_id: self.player_id->0,
                        position,
                        rotation,
                    },
                )
            } else {
                None
            },
    {
        match (&self.player_id, self.matching_id) {
            (Some(player_id), Some(matching_id)) => Some(
                ProcessStateUpdate { matching_id, player_id: player_id.clone(), position, rotation },
            ),
            _ => None,
        }
    }

    /// What the end of a connection comes to. A connection without a
    /// player leaves everything as it is. Otherwise the player no longer
    /// advertises a match, and every remaining advertiser is sent the new
    /// list; and where the connection is bound to a match, the player is
    /// disconnected from it, and where that leaves the match without any
    /// connected player, the match notes the time.
    pub open spec fn stopped_post(
        conn: WsSession,
        shared_before: SharedState,
        now: Timestamp,
        shared: SharedState,
        out: Seq<Outbound>,
    ) -> bool {
        match conn.player_id {
            None => shared.same_as(shared_before) && out.len() == 0,
            Some(player_id) => {
                &&& shared.waiting_players.entries@ == waiting_without(
                    shared_before.waiting_players.entries@,
                    player_id@,
                )
                &&& is_broadcast(
                    out,
                    shared.waiting_players.entries@,
                    shared_before.sessions,
                    now,
                )
                &&& match conn.matching_id {
                    None => shared.ws_channels.channels@ == shared_before.ws_channels.channels@
                        && shared.sessions.sessions@ == shared_before.sessions.sessions@,
                    Some(matching_id) => {
                        let emptied = shared_before.ws_channels.has_match(matching_id)
                            && !shared.ws_channels.has_match(matching_id);
                        &&& shared.ws_channels.channels@ == channels_without(
                            shared_before.ws_channels.channels@,
                            matching_id,
                            player_id@,
                        )
                        &&& forall|id: u128| #[trigger]
                            shared.sessions.spec_get(id) == if id == matching_id && emptied
                                && shared_before.sessions.contains(id) {
                                Some(
                                    MatchingSession {
                                        last_active_at: Some(now),
                                        ..shared_before.sessions.spec_get(id)->0
                                    },
                                )
                            } else {
                                shared_before.sessions.spec_get(id)
                            }
                    },
                }
            },
        }
    }

    /// Ends the connection at a given time.
    pub fn stopped_at(&self, shared: &mut SharedState, now: Timestamp) -> (out: Vec<Outbound>)
        requires
            old(shared).wf(),
        ensures
            final(shared).wf(),
            Self::stopped_post(*self, *old(shared), now, *final(shared), out@),
            others_kept_but(old(shared).sessions, final(shared).sessions, self.matching_id),
            final(shared).sessions.advanced_from(old(shared).sessions),
            old(shared).sessions.all_wf() ==> final(shared).sessions.all_wf(),
            old(shared).timers_consistent() ==> final(shared).timers_consistent(),
    {
        let ghost shared_before = *shared;
        let player_id = match &self.player_id {
            Some(p) => p.clone(),
            None => {
                return Vec::new();
            },
        };
        let _ = shared.waiting_players.remove(&player_id);
        let out = broadcast_update_matchings(shared, now);
        match self.matching_id {
            Some(matching_id) => {
                let emptied = shared.ws_channels.unregister(matching_id, &player_id);
                if emptied {
                    match shared.sessions.remove(matching_id) {
                        Some(mut left) => {
                            let ghost found = left;
                            left.last_active_at = Some(now);
                            shared.sessions.insert(left);
                            proof {
                                assert(found.matching_id == matching_id);
                                if shared_before.sessions.all_wf() {
                                    assert(found.wf());
                                }
                            }
                        },
                        None => {
                            proof {
                                assert(shared.sessions.sessions@
                                    =~= shared_before.sessions.sessions@);
                            }
                        },
                    }
                }
            },
            None => {},
        }
        out
    }

    /// Ends the connection at the time of the call.
    pub fn stopped(&self, shared: &mut SharedState) -> (out: Vec<Outbound>)
        requires
            old(shared).wf(),
        ensures
            final(shared).wf(),
            exists|now: Timestamp| #[trigger]
                Self::stopped_post(*self, *old(shared), now, *final(shared), out@),
            others_kept_but(old(shared).sessions, final(shared).sessions, self.matching_id),
            final(shared).sessions.advanced_from(old(shared).sessions),
            old(shared).sessions.all_wf() ==> final(shared).sessions.all_wf(),
            old(shared).timers_consistent() ==> final(shared).timers_consistent(),
    {
        let now = current_time();
        self.stopped_at(shared, now)
    }
}


/// Why a connection was refused.
#[derive(Clone, Copy, Debug, PartialEq, Eq, Structural)]
pub enum ConnectError {
    /// The match that the client asked for is no longer valid.
    Expired,
}

impl ConnectError {
    /// The text of the refusal.
    pub fn message(&self) -> (text: String)
        ensures
            text@ == "Matching session is expired"@,
    {
        "Matching session is expired".to_string()
    }
}

/// A connection that has been accepted, and the events to send over it.
#[derive(Debug)]
pub struct Accepted {
    pub session: WsSession,
    pub out: Vec<Outbound>,
}

/// What accepting a connection comes to. Without a match id that parses,
/// the connection is bound to the player alone and nothing else changes.
/// With one, a match of that id that is no longer valid refuses the
/// connection and nothing changes. Otherwise the connection is bound to the
/// match and the player is connected to it; a registered match forgets
/// that it was abandoned, and tells the player of the opponent where the
/// player is a participant and has one.
pub open spec fn connect_post(
    player_id: String,
    matching_id: Option<&str>,
    queue: u64,
    shared_before: SharedState,
    now: Timestamp,
    shared: SharedState,
    result: Result<Accepted, ConnectError>,
) -> bool {
    let bound = match matching_id {
        Some(text) => uuid_parse(text@),
        None => None,
    };
    match bound {
        None => {
            &&& shared.same_as(shared_before)
            &&& result matches Ok(accepted)
            &&& accepted.session == (WsSession {
                hb: now,
                player_id: Some(player_id),
                matching_id: None,
                queue,
            })
            &&& accepted.out@.len() == 0
        },
        Some(id) => match shared_before.sessions.spec_get(id) {
            Some(session) if !session.spec_is_valid_at(now) => {
                &&& shared.same_as(shared_before)
                &&& result == Err::<Accepted, ConnectError>(ConnectError::Expired)
            },
            found => {
                &&& result matches Ok(accepted)
                &&& accepted.session == (WsSession {
                    hb: now,
                    player_id: Some(player_id),
                    matching_id: Some(id),
                    queue,
                })
                &&& shared.waiting_players.entries@ == shared_before.waiting_players.entries@
                &&& shared.ws_channels.channels@ == channels_with(
                    shared_before.ws_channels.channels@,
                    Channel { matching_id: id, player_id, queue },
                )
                &&& shared.sessions.spec_get(id) == match found {
                    Some(session) => Some(session.reconnected()),
                    None => None,
                }
                &&& accepted.out@ == match found {
                    Some(session) => match session.selection_audience(player_id@) {
                        Some(opponent) => seq![
                            Outbound {
                                queue,
                                message: WsMessage::MatchingSuccess {
                                    matching_id: id,
                                    opponent_id: opponent,
                                    timestamp: now,
                                },
                            },
                        ],
                        None => Seq::empty(),
                    },
                    None => Seq::empty(),
                }
            },
        },
    }
}

/// Every match but the one that the client asked for is what it was.
pub open spec fn others_kept_at_connect(
    before: MatchingSessions,
    after: MatchingSessions,
    matching_id: Option<&str>,
) -> bool {
    forall|id: u128|
        (match matching_id {
            Some(text) => uuid_parse(text@),
            None => None,
        }) != Some(id) ==> #[trigger] after.spec_get(id) == before.spec_get(id)
}

/// Accepts or refuses the connection of a player at a given time.
/// `matching_id` is the text of the match id that the client asked for, if any.
pub fn connect_at(
    player_id: String,
    matching_id: Option<&str>,
    queue: u64,
    shared: &mut SharedState,
    now: Timestamp,
) -> (result: Result<Accepted, ConnectError>)
    requires
        old(shared).wf(),
    ensures
        final(shared).wf(),
        connect_post(player_id, matching_id, queue, *old(shared), now, *final(shared), result),
        others_kept_at_connect(old(shared).sessions, final(shared).sessions, matching_id),
        final(shared).sessions.advanced_from(old(shared).sessions),
        old(shared).sessions.all_wf() ==> final(shared).sessions.all_wf(),
        old(shared).timers_consistent() ==> final(shared).timers_consistent(),
{
    let ghost shared_before = *shared;
    let mut session = WsSession { hb: now, player_id: Some(player_id.clone()), matching_id: None, queue };
    let mut out: Vec<Outbound> = Vec::new();
    let bound = match matching_id {
        Some(text) => parse_uuid(text),
        None => None,
    };
    let id = match bound {
        Some(id) => id,
        None => {
            return Ok(Accepted { session, out });
        },
    };
    session.matching_id = Some(id);
    match shared.sessions.remove(id) {
        Some(mut current) => {
            let ghost found = current;
            proof {
                assert(found.matching_id == id);
                if shared_before.sessions.all_wf() {
                    assert(found.wf());
                }
            }
            if !current.is_valid_at(now) {
                shared.sessions.insert(current);
                proof {
                    assert(shared.sessions.sessions@ =~= shared_before.sessions.sessions@);
                }
                return Err(ConnectError::Expired);
            }
            current.reconnect();
            let is_participant = current.player_a.id == player_id || match &current.player_b {
                Some(b) => b.id == player_id,
                None => false,
            };
            if is_participant {
                match current.opponent_of(&player_id) {
                    Some(opponent) => {
                        out.push(
                            Outbound {
                                queue,
                                message: WsMessage::MatchingSuccess {
                                    matching_id: id,
                                    opponent_id: opponent,
                                    timestamp: now,
                                },
                            },
                        );
                        proof {
                            assert(out@ =~= seq![out@[0]]);
                        }
                    },
                    None => {},
                }
            }
            shared.sessions.insert(current);
            proof {
                assert forall|other: u128| #[trigger]
                    shared_before.sessions.contains(other) && shared.sessions.contains(
                        other,
                    ) implies shared_before.sessions.spec_get(other)->0.status.may_become(
                    shared.sessions.spec_get(other)->0.status,
                ) by {
                    if other != id {
                        assert(shared.sessions.spec_get(other) == shared_before.sessions.spec_get(
                            other,
                        ));
                    }
                }
            }
            shared.ws_channels.register(id, player_id, queue);
        },
        None => {
            proof {
                assert(shared.sessions.sessions@ =~= shared_before.sessions.sessions@);
            }
            shared.ws_channels.register(id, player_id, queue);
        },
    }
    Ok(Accepted { session, out })
}

/// Accepts or refuses a connection at the time of the call. A client that
/// names no player is given a fresh random player id.
pub fn ws_handler(
    player_id: Option<String>,
    matching_id: Option<&str>,
    queue: u64,
    shared: &mut SharedState,
) -> (result: Result<Accepted, ConnectError>)
    requires
        old(shared).wf(),
    ensures
        final(shared).wf(),
        exists|chosen: String, now: Timestamp|
            (match player_id {
                Some(named) => chosen == named,
                None => exists|number: u128| chosen@ == #[trigger] uuid_text(number),
            }) && #[trigger] connect_post(
                chosen,
                matching_id,
                queue,
                *old(shared),
                now,
                *final(shared),
                result,
            ),
        others_kept_at_connect(old(shared).sessions, final(shared).sessions, matching_id),
        final(shared).sessions.advanced_from(old(shared).sessions),
        old(shared).sessions.all_wf() ==> final(shared).sessions.all_wf(),
        old(shared).timers_consistent() ==> final(shared).timers_consistent(),
{
    let chosen = match player_id {
        Some(p) => p,
        None => {
            let number = random_uuid();
            let text = format_uuid(number);
            assert(text@ == uuid_text(number));
            text
        },
    };
    let now = current_time();
    let result = connect_at(chosen.clone(), matching_id, queue, shared, now);
    assert(connect_post(chosen, matching_id, queue, *old(shared), now, *shared, result));
    result
}


/// What the connection does about a message of its client.
#[derive(Debug)]
pub enum Reaction {
    /// These events are to be sent.
    Deliver(Vec<Outbound>),
    /// The model of this id is to be looked up in the model store; the
    /// claim goes on from the answer, step by step.
    ClaimModel(String),
    /// This input goes to the orchestrator.
    Input(ProcessInput),
    /// This report goes to the orchestrator.
    StateUpdate(ProcessStateUpdate),
    /// Nothing is to be done.
    Ignore,
}

impl Reaction {
    /// The events that the reaction asks to send.
    pub open spec fn delivered(&self) -> Seq<Outbound> {
        match self {
            Reaction::Deliver(out) => out@,
            _ => Seq::empty(),
        }
    }
}

/// The mark of a message in the retired form of a character choice.
pub open spec fn legacy_mark() -> Seq<char> {
    "\"type\":\"SelectCharacter\""@
}

/// The error text for a message in the retired form.
pub open spec fn legacy_text() -> Seq<char> {
    "SelectCharacter is deprecated. Use Ready with selected_model_id instead. Example: {\"type\":\"Ready\",\"data\":{\"selected_model_id\":\"your_model_id\"}}"@
}

/// The error that answers a frame that could not be decoded: guidance
/// for a message in the retired form of a character choice, and for
/// anything else the frame itself, marked as invalid.
pub fn decode_failure_reply(frame: &str) -> (reply: WsMessage)
    ensures
        reply.is_error(
            if has_infix(frame@, legacy_mark()) {
                legacy_text()
            } else {
                "Invalid message format: "@ + frame@
            },
        ),
{
    if contains_text(frame, "\"type\":\"SelectCharacter\"") {
        WsMessage::error(
            "SelectCharacter is deprecated. Use Ready with selected_model_id instead. Example: {\"type\":\"Ready\",\"data\":{\"selected_model_id\":\"your_model_id\"}}",
        )
    } else {
        let mut text = "Invalid message format: ".to_owned();
        text.append(frame);
        WsMessage::Error { message: text }
    }
}

impl WsSession {
    /// What a decoded message of the client comes to: a request to create
    /// or join a match is carried out; a declaration of readiness asks for
    /// the model to be claimed, or is refused with an error where the match
    /// of the connection is not established, and is ignored where the
    /// connection has no player; an input or a report becomes a command
    /// for the orchestrator; a message that only the server sends is ignored.
    pub open spec fn handle_post(
        before: WsSession,
        shared_before: SharedState,
        msg: WsMessage,
        after: WsSession,
        shared: SharedState,
        reaction: Reaction,
    ) -> bool {
        match msg {
            WsMessage::CreateMatching { username } => {
                &&& reaction is Deliver
                &&& exists|matching_id: u128, now: Timestamp| #[trigger]
                    Self::create_post(
                        before,
                        shared_before,
                        username,
                        matching_id,
                        now,
                        after,
                        shared,
                        reaction.delivered(),
                    )
            },
            WsMessage::JoinMatch { matching_id } => {
                &&& reaction is Deliver
                &&& exists|now: Timestamp| #[trigger]
                    Self::join_post(
                        before,
                        shared_before,
                        matching_id,
                        now,
                        after,
                        shared,
                        reaction.delivered(),
                    )
                &&& others_kept(shared_before.sessions, shared.sessions, matching_id)
            },
            WsMessage::Ready { selected_model_id } => {
                &&& after == before
                &&& shared.same_as(shared_before)
                &&& if before.player_id is None {
                    reaction is Ignore
                } else {
                    match ready_refusal(before, shared_before.sessions) {
                        Some(text) => reaction is Deliver && is_error_reply(
                            reaction.delivered(),
                            before.queue,
                            text,
                        ),
                        None => reaction == Reaction::ClaimModel(selected_model_id),
                    }
                }
            },
            WsMessage::Input { action } => {
                &&& after == before
                &&& shared.same_as(shared_before)
                &&& exists|now: Timestamp|
                    reaction == Self::input_reaction(#[trigger] before.input_command(action, now))
            },
            WsMessage::StateUpdate { position, rotation } => {
                &&& after == before
                &&& shared.same_as(shared_before)
                &&& if before.player_id is Some && before.matching_id is Some {
                    reaction == Reaction::StateUpdate(
                        ProcessStateUpdate {
                            matching_id: before.matching_id->0,
                            player_id: before.player_id->0,
                            position,
                            rotation,
                        },
                    )
                } else {
                    reaction is Ignore
                }
            },
            _ => after == before && shared.same_as(shared_before) && reaction is Ignore,
        }
    }

    /// The reaction to an input: the command, where there is one.
    pub open spec fn input_reaction(command: Option<ProcessInput>) -> Reaction {
        match command {
            Some(c) => Reaction::Input(c),
            None => Reaction::Ignore,
        }
    }

    /// Acts on a decoded message of the client.
    pub fn handle(&mut self, msg: WsMessage, shared: &mut SharedState) -> (reaction: Reaction)
        requires
            old(shared).wf(),
        ensures
            final(shared).wf(),
            Self::handle_post(*old(self), *old(shared), msg, *final(self), *final(shared), reaction),
            old(shared).sessions.all_wf() ==> final(shared).sessions.all_wf(),
            old(shared).timers_consistent() ==> final(shared).timers_consistent(),
    {
        let ghost before = *self;
        let ghost shared_before = *shared;
        match msg {
            WsMessage::CreateMatching { username } => {
                let out = self.handle_create_matching(username, shared);
                let ghost sent = out@;
                let reaction = Reaction::Deliver(out);
                proof {
                    let (id, now) = choose|id: u128, now: Timestamp| #[trigger]
                        Self::create_post(
                            before,
                            shared_before,
                            username,
                            id,
                            now,
                            *self,
                            *shared,
                            sent,
                        );
                    assert(Self::create_post(
                        before,
                        shared_before,
                        username,
                        id,
                        now,
                        *self,
                        *shared,
                        reaction.delivered(),
                    ));
                }
                reaction
            },
            WsMessage::JoinMatch { matching_id } => {
                let out = self.handle_join_match(matching_id, shared);
                let ghost sent = out@;
                let reaction = Reaction::Deliver(out);
                proof {
                    let now = choose|now: Timestamp| #[trigger]
                        Self::join_post(
                            before,
                            shared_before,
                            matching_id,
                            now,
                            *self,
                            *shared,
                            sent,
                        );
                    assert(Self::join_post(
                        before,
                        shared_before,
                        matching_id,
                        now,
                        *self,
                        *shared,
                        reaction.delivered(),
                    ));
                }
                reaction
            },
            WsMessage::Ready { selected_model_id } => {
                if self.player_id.is_none() {
                    return Reaction::Ignore;
                }
                match self.check_ready(&shared.sessions) {
                    Some(reply) => {
                        let mut out: Vec<Outbound> = Vec::new();
                        out.push(Outbound { queue: self.queue, message: reply });
                        Reaction::Deliver(out)
                    },
                    None => Reaction::ClaimModel(selected_model_id),
                }
            },
            WsMessage::Input { action } => {
                let command = self.handle_input(action);
                proof {
                    let now = choose|now: Timestamp|
                        command == #[trigger] self.input_command(action, now);
                    assert(command == self.input_command(action, now));
                }
                match command {
                    Some(c) => Reaction::Input(c),
                    None => Reaction::Ignore,
                }
            },
            WsMessage::StateUpdate { position, rotation } => match self.handle_state_update(
                position,
                rotation,
            ) {
                Some(command) => Reaction::StateUpdate(command),
                None => Reaction::Ignore,
            },
            _ => Reaction::Ignore,
        }
    }
}

/// The model of the character in one slot of a match: `first` names the
/// creator's slot. `None` where the match is not registered, the slot is
/// empty, or its player has no character.
pub open spec fn slot_model(sessions: MatchingSessions, id: u128, first: bool) -> Option<Seq<char>> {
    match sessions.spec_get(id) {
        Some(session) => if first {
            match session.player_a.character {
                Some(c) => Some(c.model_id@),
                None => None,
            }
        } else {
            match session.player_b {
                Some(Player { character: Some(c), .. }) => Some(c.model_id@),
                _ => None,
            }
        },
        None => None,
    }
}

/// No two slots, of one match or of two, hold characters of the same model.
pub open spec fn models_claimed_once(sessions: MatchingSessions) -> bool {
    forall|id1: u128, first1: bool, id2: u128, first2: bool|
        (id1 != id2 || first1 != first2) && (#[trigger] slot_model(sessions, id1, first1)) is Some
            && (#[trigger] slot_model(sessions, id2, first2)) is Some ==> slot_model(
            sessions,
            id1,
            first1,
        ) != slot_model(sessions, id2, first2)
}

/// Every model that a character holds is among `used`.
pub open spec fn models_within(sessions: MatchingSessions, used: Set<Seq<char>>) -> bool {
    forall|id: u128, first: bool|
        (#[trigger] slot_model(sessions, id, first)) matches Some(model) ==> used.contains(model)
}

/// One-time use of models. Let `used` be the models that the model store
/// has marked as used, and let every character hold a model among them, no
/// two the same. When a player declares readiness with a model that the
/// store reported as unused, and the store's report was true, then
/// afterwards, with that model marked, still no two characters hold the
/// same model.
pub proof fn lemma_ready_claims_once(
    conn: WsSession,
    shared_before: SharedState,
    model_id: String,
    now: Timestamp,
    shared: SharedState,
    out: Seq<Outbound>,
    start: Option<StartGame>,
    lookup: ModelLookup,
    used: Set<Seq<char>>,
)
    requires
        WsSession::ready_post(conn, shared_before, model_id, now, shared, out, start),
        is_claimable(lookup),
        lookup matches ModelLookup::Found(model) && model.id@ == model_id@ && model.is_used
            == used.contains(model_id@),
        models_claimed_once(shared_before.sessions),
        models_within(shared_before.sessions, used),
    ensures
        models_claimed_once(shared.sessions),
        models_within(shared.sessions, used.insert(model_id@)),
{
    let before = shared_before.sessions;
    let after = shared.sessions;
    assert(!used.contains(model_id@));
    // Each slot holds what it held, or the model just claimed.
    assert forall|id: u128, first: bool|
        (#[trigger] slot_model(after, id, first)) == slot_model(before, id, first) || (slot_model(
            after,
            id,
            first,
        ) == Some(model_id@) && conn.matching_id == Some(id)) by {
        if conn.player_id is Some && conn.matching_id is Some {
            let matching_id = conn.matching_id->0;
            if before.spec_get(matching_id) is Some {
                if id != matching_id {
                    assert(after.spec_get(id) == before.spec_get(id));
                }
            } else {
                assert(after.sessions@ == before.sessions@);
            }
        } else {
            assert(after.sessions@ == before.sessions@);
        }
    }
    // At most one slot holds the model just claimed.
    assert forall|id1: u128, first1: bool, id2: u128, first2: bool|
        (id1 != id2 || first1 != first2) && (#[trigger] slot_model(after, id1, first1)) is Some
            && (#[trigger] slot_model(after, id2, first2)) is Some implies slot_model(
        after,
        id1,
        first1,
    ) != slot_model(after, id2, first2) by {
        let m1 = slot_model(after, id1, first1);
        let m2 = slot_model(after, id2, first2);
        let old1 = slot_model(before, id1, first1);
        let old2 = slot_model(before, id2, first2);
        if m1 == old1 && m2 == old2 {
        } else if m1 == old1 {
            assert(used.contains(old1->0));
        } else if m2 == old2 {
            assert(used.contains(old2->0));
        } else {
            // Both slots are of the one match and hold the new model: then
            // one of them is not the slot of the player, and has kept what
            // it held.
            let matching_id = conn.matching_id->0;
            assert(id1 == matching_id && id2 == matching_id);
            assert(first1 != first2);
            if old1 is Some {
                assert(used.contains(old1->0));
            }
            if old2 is Some {
                assert(used.contains(old2->0));
            }
        }
    }
    assert forall|id: u128, first: bool|
        (#[trigger] slot_model(after, id, first)) is Some implies used.insert(model_id@).contains(
        slot_model(after, id, first)->0,
    ) by {
        let held = slot_model(after, id, first);
        if held == slot_model(before, id, first) {
            assert(used.contains(held->0));
        }
    }
}


/// Idempotent rejoin. When the second participant of a matched match
/// asks to join it again, the answer is a single `MatchingSuccess` on the
/// player's own queue that names the creator as the opponent, and the
/// match keeps its participants and its status.
pub proof fn lemma_rejoin_is_success(
    before: WsSession,
    shared_before: SharedState,
    matching_id: u128,
    now: Timestamp,
    after: WsSession,
    shared: SharedState,
    out: Seq<Outbound>,
)
    requires
        WsSession::join_post(before, shared_before, matching_id, now, after, shared, out),
        before.player_id is Some,
        shared_before.sessions.contains(matching_id),
        shared_before.sessions.spec_get(matching_id)->0.status == MatchingStatus::Matched,
        shared_before.sessions.spec_get(matching_id)->0.player_b is Some,
        shared_before.sessions.spec_get(matching_id)->0.player_b->0.id@ == before.player_id->0@,
    ensures
        out.len() == 1,
        out[0].queue == before.queue,
        out[0].message == (WsMessage::MatchingSuccess {
            matching_id,
            opponent_id: shared_before.sessions.spec_get(matching_id)->0.player_a.id,
            timestamp: now,
        }),
        shared.sessions.spec_get(matching_id) == Some(
            shared_before.sessions.spec_get(matching_id)->0.reconnected(),
        ),
        shared.sessions.spec_get(matching_id)->0.status == MatchingStatus::Matched,
        shared.sessions.spec_get(matching_id)->0.player_a == shared_before.sessions.spec_get(
            matching_id,
        )->0.player_a,
        shared.sessions.spec_get(matching_id)->0.player_b == shared_before.sessions.spec_get(
            matching_id,
        )->0.player_b,
{
}


/// A battle starts once. A declaration of readiness hands a battle to
/// the orchestrator only for a match that was matched and is in game
/// afterwards; for a match that is in game or finished already, it never does.
pub proof fn lemma_battle_starts_once(
    conn: WsSession,
    shared_before: SharedState,
    model_id: String,
    now: Timestamp,
    shared: SharedState,
    out: Seq<Outbound>,
    start: Option<StartGame>,
)
    requires
        WsSession::ready_post(conn, shared_before, model_id, now, shared, out, start),
        start is Some,
    ensures
        conn.matching_id is Some,
        shared_before.sessions.contains(conn.matching_id->0),
        shared_before.sessions.spec_get(conn.matching_id->0)->0.status == MatchingStatus::Matched,
        shared.sessions.spec_get(conn.matching_id->0)->0.status == MatchingStatus::InGame,
        start->0.game.matching_id == shared_before.sessions.spec_get(
            conn.matching_id->0,
        )->0.matching_id,
{
}

} // verus!
