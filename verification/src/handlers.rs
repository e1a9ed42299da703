//! The registries that the connections share: the matches, the players who
//! advertise an open match, and the outbound queues of the connected players.

pub mod matching;
pub mod model_upload;
pub mod websocket;

pub use crate::handlers::matching::{create_matching, join_matching};
pub use crate::handlers::websocket::ws_handler;

use std::collections::HashMap;
use vstd::prelude::*;
use crate::clock::{Timestamp, EXPIRY_MILLIS};
use crate::keyed::{as_position, lemma_all_first_distinct, lemma_first_after_push, lemma_first_after_remove, lemma_first_at, lemma_first_in_push, lemma_first_none, lemma_first_unique, lemma_not_first_duplicate, lemma_take_contains};
use crate::models::{MatchingInfo, MatchingSession};

verus! {

broadcast use vstd::std_specs::hash::group_hash_axioms;

/// Every match, found by its id. Each match is registered under its own id.
#[derive(Debug)]
pub struct MatchingSessions {
    pub sessions: HashMap<u128, MatchingSession>,
}

impl MatchingSessions {
    /// Every match is registered under its own id.
    pub open spec fn wf(&self) -> bool {
        forall|id: u128| #[trigger]
            self.sessions@.contains_key(id) ==> self.sessions@[id].matching_id == id
    }

    /// Every match satisfies its own invariant.
    pub open spec fn all_wf(&self) -> bool {
        forall|id: u128| #[trigger] self.sessions@.contains_key(id) ==> self.sessions@[id].wf()
    }

    /// The match with this id, if there is one.
    pub open spec fn spec_get(&self, id: u128) -> Option<MatchingSession> {
        if self.sessions@.contains_key(id) {
            Some(self.sessions@[id])
        } else {
            None
        }
    }

    pub open spec fn contains(&self, id: u128) -> bool {
        self.sessions@.contains_key(id)
    }

    /// Every match of `before` that is still here has kept its status or
    /// moved on to the next one.
    pub open spec fn advanced_from(&self, before: MatchingSessions) -> bool {
        forall|id: u128| #[trigger]
            before.contains(id) && self.contains(id) ==> before.spec_get(id)->0.status.may_become(
                self.spec_get(id)->0.status,
            )
    }

    pub fn new() -> (r: MatchingSessions)
        ensures
            r.sessions@ == Map::<u128, MatchingSession>::empty(),
            r.wf(),
            r.all_wf(),
            forall|id: u128| !r.contains(id),
    {
        MatchingSessions { sessions: HashMap::new() }
    }

    /// How many matches are registered.
    pub fn len(&self) -> (n: usize)
        ensures
            n == self.sessions@.len(),
    {
        self.sessions.len()
    }

    /// The ids of the matches, each once, in no particular order.
    pub fn ids(&self) -> (ids: Vec<u128>)
        ensures
            ids@.no_duplicates(),
            forall|id: u128| ids@.contains(id) <==> self.contains(id),
    {
        let mut ids: Vec<u128> = Vec::new();
        for key in it: self.sessions.keys()
            invariant
                it.seq().unref().to_set() == self.sessions@.dom(),
                it.seq().no_duplicates(),
                ids@ == it.seq().unref().take(it.index() as int),
                it.index() == it.seq().len() ==> (forall|id: u128|
                    ids@.contains(id) <==> self.contains(id)),
                ids@.no_duplicates(),
        {
            ids.push(*key);
            assert(ids@ =~= it.seq().unref().take(it.index() + 1));
            assert(it.index() + 1 == it.seq().len() ==> it.seq().unref().take(it.index() + 1)
                =~= it.seq().unref());
            assert(it.index() + 1 == it.seq().len() ==> (forall|id: u128|
                ids@.contains(id) <==> self.contains(id))) by {
                assert forall|id: u128|
                    it.seq().unref().contains(id) <==> #[trigger] self.sessions@.contains_key(
                        id,
                    ) by {
                    assert(it.seq().unref().to_set().contains(id) <==> self.sessions@.dom().contains(
                        id,
                    ));
                }
            }
            assert(ids@.no_duplicates()) by {
                assert forall|i: int, j: int| 0 <= i < j < ids@.len() implies ids@[i] != ids@[j] by {
                    assert(it.seq()[i] != it.seq()[j]);
                }
            }
        }
        ids
    }

    /// Whether every match is registered under its own id.
    pub fn is_wf(&self) -> (ok: bool)
        ensures
            ok == self.wf(),
    {
        let ids = self.ids();
        let mut k: usize = 0;
        while k < ids.len()
            invariant
                k <= ids@.len(),
                forall|id: u128| ids@.contains(id) <==> self.contains(id),
                forall|j: int| 0 <= j < k ==> self.sessions@[ids@[j]].matching_id == ids@[j],
            decreases ids@.len() - k,
        {
            assert(ids@[k as int] == ids@[k as int]);
            assert(ids@.contains(ids@[k as int]));
            assert(self.contains(ids@[k as int]));
            match self.sessions.get(&ids[k]) {
                Some(session) => {
                    if session.matching_id != ids[k] {
                        return false;
                    }
                },
                None => {},
            }
            k += 1;
        }
        proof {
            assert forall|id: u128| #[trigger] self.sessions@.contains_key(id) implies self.sessions@[id].matching_id
                == id by {
                assert(self.contains(id));
                assert(ids@.contains(id));
                let j = choose|j: int| 0 <= j < ids@.len() && ids@[j] == id;
                assert(self.sessions@[ids@[j]].matching_id == ids@[j]);
            }
        }
        true
    }

    pub fn get(&self, id: u128) -> (found: Option<&MatchingSession>)
        ensures
            match found {
                Some(s) => self.spec_get(id) == Some(*s),
                None => self.spec_get(id) is None,
            },
    {
        self.sessions.get(&id)
    }

    /// Puts a match under its id, in place of the one that was there, if any.
    pub fn insert(&mut self, session: MatchingSession)
        ensures
            final(self).sessions@ == old(self).sessions@.insert(session.matching_id, session),
            final(self).spec_get(session.matching_id) == Some(session),
            forall|id: u128|
                #![trigger final(self).spec_get(id)]
                #![trigger final(self).contains(id)]
                id != session.matching_id ==> final(self).spec_get(id) == old(self).spec_get(id),
            old(self).wf() ==> final(self).wf(),
            old(self).all_wf() && session.wf() ==> final(self).all_wf(),
    {
        let _ = self.sessions.insert(session.matching_id, session);
    }

    /// Takes the match with this id out, if there is one.
    pub fn remove(&mut self, id: u128) -> (removed: Option<MatchingSession>)
        ensures
            removed == old(self).spec_get(id),
            final(self).sessions@ == old(self).sessions@.remove(id),
            final(self).spec_get(id) is None,
            forall|other: u128|
                #![trigger final(self).spec_get(other)]
                #![trigger final(self).contains(other)]
                other != id ==> final(self).spec_get(other) == old(self).spec_get(other),
            old(self).wf() ==> final(self).wf(),
            old(self).all_wf() ==> final(self).all_wf(),
    {
        self.sessions.remove(&id)
    }
}


impl MatchingSessions {
    /// What is left of the registry once the matches that are not valid at
    /// `now` are gone: a match is found afterwards exactly where it was
    /// found before and is valid.
    pub open spec fn is_purge_of(&self, before: MatchingSessions, now: Timestamp) -> bool {
        forall|id: u128| #[trigger]
            self.spec_get(id) == if before.contains(id) && before.spec_get(id)->0.spec_is_valid_at(
                now,
            ) {
                before.spec_get(id)
            } else {
                None
            }
    }

    /// Removes every match that is not valid at `now`, and returns the ids
    /// of the matches removed, each once, in no particular order.
    pub fn remove_expired(&mut self, now: Timestamp) -> (removed: Vec<u128>)
        ensures
            final(self).is_purge_of(*old(self), now),
            forall|id: u128|
                removed@.contains(id) <==> old(self).contains(id) && !old(self).spec_get(
                    id,
                )->0.spec_is_valid_at(now),
            removed@.no_duplicates(),
            old(self).wf() ==> final(self).wf(),
            old(self).all_wf() ==> final(self).all_wf(),
    {
        let ghost before = *self;
        let ids = self.ids();
        let mut removed: Vec<u128> = Vec::new();
        let mut k: usize = 0;
        while k < ids.len()
            invariant
                k <= ids@.len(),
                ids@.no_duplicates(),
                forall|id: u128| ids@.contains(id) <==> before.contains(id),
                forall|id: u128| #[trigger]
                    self.spec_get(id) == if ids@.take(k as int).contains(id) && !before.spec_get(
                        id,
                    )->0.spec_is_valid_at(now) {
                        None
                    } else {
                        before.spec_get(id)
                    },
                forall|id: u128|
                    removed@.contains(id) <==> ids@.take(k as int).contains(id) && !before.spec_get(
                        id,
                    )->0.spec_is_valid_at(now),
                removed@.no_duplicates(),
                before.wf() ==> self.wf(),
                before.all_wf() ==> self.all_wf(),
            decreases ids@.len() - k,
        {
            let id = ids[k];
            let ghost mid = *self;
            let ghost shorter = removed@;
            proof {
                assert(ids@[k as int] == id);
                assert(ids@.contains(id));
                assert(before.contains(id));
                assert(!ids@.take(k as int).contains(id)) by {
                    if ids@.take(k as int).contains(id) {
                        let j = choose|j: int|
                            0 <= j < ids@.take(k as int).len() && ids@.take(k as int)[j] == id;
                        assert(ids@[j] == ids@[k as int]);
                    }
                }
                assert(mid.spec_get(id) == before.spec_get(id));
            }
            let expired = match self.sessions.get(&id) {
                Some(session) => !session.is_valid_at(now),
                None => false,
            };
            if expired {
                let _ = self.sessions.remove(&id);
                removed.push(id);
                proof {
                    assert(!shorter.contains(id));
                    assert forall|i: int, j: int|
                        0 <= i < j < removed@.len() implies removed@[i] != removed@[j] by {
                        if j == shorter.len() {
                            assert(shorter[i] == removed@[i]);
                            assert(shorter.contains(removed@[i]));
                        } else {
                            assert(shorter[i] == removed@[i] && shorter[j] == removed@[j]);
                        }
                    }
                }
            }
            proof {
                assert forall|other: u128| #[trigger]
                    self.spec_get(other) == if ids@.take(k + 1).contains(other) && !before.spec_get(
                    other,
                )->0.spec_is_valid_at(now) {
                    None
                } else {
                    before.spec_get(other)
                } by {
                    lemma_take_contains(ids@, k as int, other);
                    assert(mid.spec_get(other) == if ids@.take(k as int).contains(other)
                        && !before.spec_get(other)->0.spec_is_valid_at(now) {
                        None
                    } else {
                        before.spec_get(other)
                    });
                }
                assert forall|other: u128|
                    removed@.contains(other) <==> ids@.take(k + 1).contains(other)
                        && !before.spec_get(other)->0.spec_is_valid_at(now) by {
                    lemma_take_contains(ids@, k as int, other);
                    assert(shorter.contains(other) <==> ids@.take(k as int).contains(other)
                        && !before.spec_get(other)->0.spec_is_valid_at(now));
                    if expired {
                        assert(removed@ == shorter.push(id));
                        if shorter.contains(other) {
                            let j = choose|j: int| 0 <= j < shorter.len() && shorter[j] == other;
                            assert(removed@[j] == other);
                        }
                        if other == id {
                            assert(removed@[shorter.len() as int] == id);
                        }
                        if removed@.contains(other) {
                            let j = choose|j: int| 0 <= j < removed@.len() && removed@[j] == other;
                            if j < shorter.len() {
                                assert(shorter[j] == other);
                            }
                        }
                    }
                }
            }
            k += 1;
        }
        proof {
            assert(ids@.take(k as int) =~= ids@);
            assert forall|id: u128| #[trigger]
                self.spec_get(id) == if before.contains(id) && before.spec_get(
                id,
            )->0.spec_is_valid_at(now) {
                before.spec_get(id)
            } else {
                None
            } by {
                assert(self.spec_get(id) == if ids@.contains(id) && !before.spec_get(
                    id,
                )->0.spec_is_valid_at(now) {
                    None
                } else {
                    before.spec_get(id)
                });
            }
        }
        removed
    }

    /// Records the end of the battle of one match, where the match is
    /// registered. Every other match is left alone.
    pub fn finish_battle(&mut self, id: u128)
        requires
            old(self).wf(),
        ensures
            final(self).wf(),
            final(self).spec_get(id) == match old(self).spec_get(id) {
                Some(session) => Some(session.finished()),
                None => None,
            },
            forall|other: u128|
                other != id ==> #[trigger] final(self).spec_get(other) == old(self).spec_get(other),
            forall|other: u128| #[trigger] final(self).contains(other) == old(self).contains(other),
            old(self).all_wf() && (old(self).contains(id) ==> old(self).spec_get(
                id,
            )->0.is_battle_started) ==> final(self).all_wf(),
    {
        match self.sessions.remove(&id) {
            Some(mut session) => {
                session.finish_battle();
                let _ = self.sessions.insert(id, session);
            },
            None => {},
        }
    }
}

/// Expiry. A match whose participants have all been away for more than
/// the expiry time is in the registry no longer once the expired matches
/// have been removed; a match that is valid is still there, unchanged.
pub proof fn lemma_expired_is_purged(
    before: MatchingSessions,
    after: MatchingSessions,
    now: Timestamp,
    id: u128,
)
    requires
        after.is_purge_of(before, now),
        before.contains(id),
    ensures
        before.spec_get(id)->0.last_active_at is Some && now.millis_since(
            before.spec_get(id)->0.last_active_at->0,
        ) > EXPIRY_MILLIS ==> !after.contains(id),
        before.spec_get(id)->0.spec_is_valid_at(now) ==> after.spec_get(id) == before.spec_get(id),
{
    assert(after.spec_get(id) == if before.contains(id) && before.spec_get(id)->0.spec_is_valid_at(
        now,
    ) {
        before.spec_get(id)
    } else {
        None
    });
}

/// A player who advertises an open match, with the outbound queue of the
/// connection that advertised it.
#[derive(Debug, PartialEq, Eq)]
pub struct WaitingPlayer {
    pub player_id: String,
    pub matching_id: u128,
    pub queue: u64,
}

/// The lines that advertise the matches of `entries` to the player
/// `exclude`: one line for each entry of another player whose match exists,
/// in the order of the entries.
pub open spec fn open_matches(
    entries: Seq<WaitingPlayer>,
    sessions: MatchingSessions,
    exclude: Seq<char>,
) -> Seq<MatchingInfo>
    decreases entries.len(),
{
    if entries.len() == 0 {
        Seq::empty()
    } else {
        let rest = open_matches(entries.drop_last(), sessions, exclude);
        let e = entries.last();
        if e.player_id@ != exclude && sessions.contains(e.matching_id) {
            rest.push(MatchingInfo::describing(sessions.spec_get(e.matching_id)->0))
        } else {
            rest
        }
    }
}

/// The player ids of a list of advertising players, in order.
pub open spec fn waiting_ids(entries: Seq<WaitingPlayer>) -> Seq<Seq<char>> {
    Seq::new(entries.len(), |i: int| entries[i].player_id@)
}

/// A list of advertising players with the entry of one player put in: in
/// place of the player's earlier entry, or else at the end.
pub open spec fn waiting_with(entries: Seq<WaitingPlayer>, entry: WaitingPlayer) -> Seq<
    WaitingPlayer,
> {
    match waiting_ids(entries).index_of_first(entry.player_id@) {
        Some(i) => entries.update(i, entry),
        None => entries.push(entry),
    }
}

/// A list of advertising players with the entry of one player taken out.
pub open spec fn waiting_without(entries: Seq<WaitingPlayer>, player_id: Seq<char>) -> Seq<
    WaitingPlayer,
> {
    match waiting_ids(entries).index_of_first(player_id) {
        Some(i) => entries.remove(i),
        None => entries,
    }
}

/// The players who advertise an open match, found by player id. No two
/// entries share a player id.
#[derive(Debug)]
pub struct WaitingPlayers {
    pub entries: Vec<WaitingPlayer>,
}

impl WaitingPlayers {
    pub open spec fn ids(&self) -> Seq<Seq<char>> {
        waiting_ids(self.entries@)
    }

    /// No two entries share a player id.
    pub open spec fn wf(&self) -> bool {
        self.ids().no_duplicates()
    }

    pub open spec fn spec_position(&self, player_id: Seq<char>) -> Option<int> {
        self.ids().index_of_first(player_id)
    }

    /// The entry of a player, if the player advertises a match.
    pub open spec fn spec_get(&self, player_id: Seq<char>) -> Option<WaitingPlayer> {
        match self.spec_position(player_id) {
            Some(i) => Some(self.entries@[i]),
            None => None,
        }
    }

    pub open spec fn contains(&self, player_id: Seq<char>) -> bool {
        self.spec_position(player_id) is Some
    }

    /// What a position says of the entry it names.
    pub proof fn lemma_position(&self, player_id: Seq<char>)
        ensures
            match self.spec_position(player_id) {
                Some(i) => 0 <= i < self.entries@.len() && self.entries@[i].player_id@ == player_id,
                None => forall|j: int|
                    0 <= j < self.entries@.len() ==> self.entries@[j].player_id@ != player_id,
            },
    {
        self.ids().index_of_first_ensures(player_id);
        if self.spec_position(player_id) is None {
            assert forall|j: int| 0 <= j < self.entries@.len() implies self.entries@[j].player_id@
                != player_id by {
                assert(self.ids()[j] == self.entries@[j].player_id@);
                if self.ids()[j] == player_id {
                    assert(self.ids().contains(player_id));
                }
            }
        }
    }

    pub fn new() -> (r: WaitingPlayers)
        ensures
            r.entries@.len() == 0,
            r.wf(),
    {
        WaitingPlayers { entries: Vec::new() }
    }

    /// Where the entry of a player stands.
    pub fn position(&self, player_id: &String) -> (at: Option<usize>)
        ensures
            as_position(at) == self.spec_position(player_id@),
            at matches Some(i) ==> i < self.entries@.len() && self.entries@[i as int].player_id@
                == player_id@,
    {
        let mut i: usize = 0;
        while i < self.entries.len()
            invariant
                i <= self.entries@.len(),
                forall|j: int| 0 <= j < i ==> self.ids()[j] != player_id@,
            decreases self.entries@.len() - i,
        {
            if self.entries[i].player_id == *player_id {
                proof {
                    lemma_first_at(self.ids(), player_id@, i as int);
                }
                return Some(i);
            }
            i += 1;
        }
        proof {
            lemma_first_none(self.ids(), player_id@);
        }
        None
    }

    /// Whether no two entries share a player id.
    pub fn is_wf(&self) -> (ok: bool)
        ensures
            ok == self.wf(),
    {
        let mut i: usize = 0;
        while i < self.entries.len()
            invariant
                i <= self.entries@.len(),
                forall|k: int| 0 <= k < i ==> self.ids().index_of_first(#[trigger] self.ids()[k]) == Some(k),
            decreases self.entries@.len() - i,
        {
            match self.position(&self.entries[i].player_id) {
                Some(at) if at == i => {},
                _ => {
                    proof {
                        lemma_not_first_duplicate(self.ids(), i as int);
                    }
                    return false;
                },
            }
            i += 1;
        }
        proof {
            lemma_all_first_distinct(self.ids());
        }
        true
    }

    /// Records that a player advertises a match, in place of what the
    /// player advertised before, if anything.
    pub fn insert(&mut self, player_id: String, matching_id: u128, queue: u64)
        requires
            old(self).wf(),
        ensures
            final(self).wf(),
            final(self).entries@ == waiting_with(
                old(self).entries@,
                WaitingPlayer { player_id, matching_id, queue },
            ),
            final(self).spec_get(player_id@) == Some(
                WaitingPlayer { player_id, matching_id, queue },
            ),
            forall|other: Seq<char>|
                other != player_id@ ==> #[trigger] final(self).spec_get(other) == old(self).spec_get(other),
    {
        let ghost before = *self;
        let ghost key = player_id@;
        let ghost entry = WaitingPlayer { player_id, matching_id, queue };
        match self.position(&player_id) {
            Some(i) => {
                self.entries[i] = WaitingPlayer { player_id, matching_id, queue };
                proof {
                    assert(self.ids() =~= before.ids());
                    lemma_first_unique(before.ids(), i as int);
                    assert forall|other: Seq<char>| other != key implies #[trigger] self.spec_get(
                        other,
                    ) == before.spec_get(other) by {
                        before.lemma_position(other);
                    }
                }
            },
            None => {
                self.entries.push(WaitingPlayer { player_id, matching_id, queue });
                proof {
                    assert(self.ids() =~= before.ids().push(key));
                    assert forall|other: Seq<char>| #[trigger] self.spec_get(other)
                        == (if other == key {
                        Some(entry)
                    } else {
                        before.spec_get(other)
                    }) by {
                        lemma_first_after_push(before.ids(), key, other);
                        before.lemma_position(other);
                    }
                    lemma_first_after_push(before.ids(), key, key);
                }
            },
        }
    }

    /// Takes the entry of a player out, if there is one.
    pub fn remove(&mut self, player_id: &String) -> (removed: Option<WaitingPlayer>)
        requires
            old(self).wf(),
        ensures
            final(self).wf(),
            removed == old(self).spec_get(player_id@),
            final(self).entries@ == waiting_without(old(self).entries@, player_id@),
            final(self).spec_get(player_id@) is None,
            forall|other: Seq<char>|
                other != player_id@ ==> #[trigger] final(self).spec_get(other) == old(self).spec_get(other),
    {
        let ghost before = *self;
        let ghost key = player_id@;
        match self.position(player_id) {
            Some(i) => {
                let e = self.entries.remove(i);
                proof {
                    assert(self.ids() =~= before.ids().remove(i as int));
                    assert forall|other: Seq<char>| #[trigger] self.spec_get(other)
                        == (if other == key {
                        None
                    } else {
                        before.spec_get(other)
                    }) by {
                        lemma_first_after_remove(before.ids(), i as int, other);
                        before.lemma_position(other);
                    }
                    lemma_first_after_remove(before.ids(), i as int, key);
                }
                Some(e)
            },
            None => None,
        }
    }

    /// The list of open matches as the player `exclude` is to see it.
    pub fn snapshot(&self, sessions: &MatchingSessions, exclude: &String) -> (lines: Vec<
        MatchingInfo,
    >)
        ensures
            lines@ == open_matches(self.entries@, *sessions, exclude@),
    {
        let mut lines: Vec<MatchingInfo> = Vec::new();
        let mut i: usize = 0;
        while i < self.entries.len()
            invariant
                i <= self.entries@.len(),
                lines@ == open_matches(self.entries@.take(i as int), *sessions, exclude@),
            decreases self.entries@.len() - i,
        {
            proof {
                assert(self.entries@.take(i + 1).drop_last() =~= self.entries@.take(i as int));
            }
            let e = &self.entries[i];
            if e.player_id != *exclude {
                match sessions.get(e.matching_id) {
                    Some(session) => {
                        lines.push(MatchingInfo::describe(session));
                    },
                    None => {},
                }
            }
            i += 1;
        }
        proof {
            assert(self.entries@.take(i as int) =~= self.entries@);
        }
        lines
    }
}


/// A player and the outbound queue that reaches the player.
#[derive(Debug, PartialEq, Eq)]
pub struct ChannelEntry {
    pub player_id: String,
    pub queue: u64,
}

impl Clone for ChannelEntry {
    fn clone(&self) -> (c: ChannelEntry)
        ensures
            c == *self,
    {
        ChannelEntry { player_id: self.player_id.clone(), queue: self.queue }
    }
}

/// The player ids of a list of entries, in order.
pub open spec fn player_ids(entries: Seq<ChannelEntry>) -> Seq<Seq<char>> {
    Seq::new(entries.len(), |i: int| entries[i].player_id@)
}

/// The queue of a player in a list of entries: that of the first entry
/// with the player's id.
pub open spec fn queue_of(entries: Seq<ChannelEntry>, player_id: Seq<char>) -> Option<u64> {
    match player_ids(entries).index_of_first(player_id) {
        Some(i) => Some(entries[i].queue),
        None => None,
    }
}

pub fn find_queue(entries: &Vec<ChannelEntry>, player_id: &String) -> (queue: Option<u64>)
    ensures
        queue == queue_of(entries@, player_id@),
{
    let mut i: usize = 0;
    while i < entries.len()
        invariant
            i <= entries@.len(),
            forall|j: int| 0 <= j < i ==> player_ids(entries@)[j] != player_id@,
        decreases entries@.len() - i,
    {
        if entries[i].player_id == *player_id {
            proof {
                lemma_first_at(player_ids(entries@), player_id@, i as int);
            }
            return Some(entries[i].queue);
        }
        i += 1;
    }
    proof {
        lemma_first_none(player_ids(entries@), player_id@);
    }
    None
}

/// The outbound queue of a connected player in a match.
#[derive(Debug, PartialEq, Eq)]
pub struct Channel {
    pub matching_id: u128,
    pub player_id: String,
    pub queue: u64,
}

/// The players of `channels` that are connected to `matching_id`, with
/// their queues, in the order of the channels.
pub open spec fn senders_among(channels: Seq<Channel>, matching_id: u128) -> Seq<ChannelEntry>
    decreases channels.len(),
{
    if channels.len() == 0 {
        Seq::empty()
    } else {
        let rest = senders_among(channels.drop_last(), matching_id);
        let c = channels.last();
        if c.matching_id == matching_id {
            rest.push(ChannelEntry { player_id: c.player_id, queue: c.queue })
        } else {
            rest
        }
    }
}

/// The keys of a list of channels, in order: match and player.
pub open spec fn channel_keys(channels: Seq<Channel>) -> Seq<(u128, Seq<char>)> {
    Seq::new(channels.len(), |i: int| (channels[i].matching_id, channels[i].player_id@))
}

/// A list of channels with one channel put in: in place of the earlier
/// channel of the same player in the same match, or else at the end.
pub open spec fn channels_with(channels: Seq<Channel>, channel: Channel) -> Seq<Channel> {
    match channel_keys(channels).index_of_first((channel.matching_id, channel.player_id@)) {
        Some(i) => channels.update(i, channel),
        None => channels.push(channel),
    }
}

/// A list of channels with the channel of one player in one match taken out.
pub open spec fn channels_without(channels: Seq<Channel>, matching_id: u128, player_id: Seq<char>)
    -> Seq<Channel> {
    match channel_keys(channels).index_of_first((matching_id, player_id)) {
        Some(i) => channels.remove(i),
        None => channels,
    }
}

/// The queue of a player among the connected players of a match is the
/// queue that the channels hold for the player in that match.
pub proof fn lemma_senders_agree(channels: Seq<Channel>, matching_id: u128, player_id: Seq<char>)
    ensures
        queue_of(senders_among(channels, matching_id), player_id) == match channel_keys(
            channels,
        ).index_of_first((matching_id, player_id)) {
            Some(i) => Some(channels[i].queue),
            None => None,
        },
    decreases channels.len(),
{
    let key = (matching_id, player_id);
    if channels.len() == 0 {
        lemma_first_none(channel_keys(channels), key);
        lemma_first_none(player_ids(senders_among(channels, matching_id)), player_id);
    } else {
        let rest = channels.drop_last();
        let c = channels.last();
        lemma_senders_agree(rest, matching_id, player_id);
        assert(channel_keys(channels) =~= channel_keys(rest).push((c.matching_id, c.player_id@)));
        lemma_first_in_push(channel_keys(rest), (c.matching_id, c.player_id@), key);
        channel_keys(rest).index_of_first_ensures(key);
        let before = senders_among(rest, matching_id);
        if c.matching_id == matching_id {
            let entry = ChannelEntry { player_id: c.player_id, queue: c.queue };
            assert(player_ids(before.push(entry)) =~= player_ids(before).push(c.player_id@));
            lemma_first_in_push(player_ids(before), c.player_id@, player_id);
            player_ids(before).index_of_first_ensures(player_id);
        }
    }
}

/// The outbound queues of the connected players, found by match and
/// player. No two entries share both; a match without connected players has
/// no entry at all.
#[derive(Debug)]
pub struct WsChannels {
    pub channels: Vec<Channel>,
}

impl WsChannels {
    pub open spec fn keys(&self) -> Seq<(u128, Seq<char>)> {
        channel_keys(self.channels@)
    }

    /// No two entries share match and player.
    pub open spec fn wf(&self) -> bool {
        self.keys().no_duplicates()
    }

    pub open spec fn spec_position(&self, matching_id: u128, player_id: Seq<char>) -> Option<int> {
        self.keys().index_of_first((matching_id, player_id))
    }

    /// The queue of a player in a match, if the player is connected to it.
    pub open spec fn spec_queue_for(&self, matching_id: u128, player_id: Seq<char>) -> Option<
        u64,
    > {
        match self.spec_position(matching_id, player_id) {
            Some(i) => Some(self.channels@[i].queue),
            None => None,
        }
    }

    /// Whether anyone is connected to the match.
    pub open spec fn has_match(&self, matching_id: u128) -> bool {
        exists|player_id: Seq<char>| #[trigger]
            self.spec_queue_for(matching_id, player_id) is Some
    }

    /// The connected players of a match, with their queues.
    pub open spec fn spec_senders(&self, matching_id: u128) -> Seq<ChannelEntry> {
        senders_among(self.channels@, matching_id)
    }

    /// What a position says of the entry it names.
    pub proof fn lemma_position(&self, matching_id: u128, player_id: Seq<char>)
        ensures
            match self.spec_position(matching_id, player_id) {
                Some(i) => 0 <= i < self.channels@.len() && self.channels@[i].matching_id
                    == matching_id && self.channels@[i].player_id@ == player_id,
                None => forall|j: int|
                    0 <= j < self.channels@.len() ==> !(self.channels@[j].matching_id
                        == matching_id && self.channels@[j].player_id@ == player_id),
            },
    {
        let key = (matching_id, player_id);
        self.keys().index_of_first_ensures(key);
        if self.spec_position(matching_id, player_id) is None {
            assert forall|j: int| 0 <= j < self.channels@.len() implies !(
            self.channels@[j].matching_id == matching_id && self.channels@[j].player_id@
                == player_id) by {
                assert(self.keys()[j] == (
                    self.channels@[j].matching_id,
                    self.channels@[j].player_id@,
                ));
                if self.keys()[j] == key {
                    assert(self.keys().contains(key));
                }
            }
        } else {
            let i = self.spec_position(matching_id, player_id)->0;
            assert(self.keys()[i] == key);
        }
    }

    pub fn new() -> (r: WsChannels)
        ensures
            r.channels@.len() == 0,
            r.wf(),
    {
        WsChannels { channels: Vec::new() }
    }

    /// Where the entry of a player in a match stands.
    pub fn position(&self, matching_id: u128, player_id: &String) -> (at: Option<usize>)
        ensures
            as_position(at) == self.spec_position(matching_id, player_id@),
            at matches Some(i) ==> i < self.channels@.len(),
    {
        let mut i: usize = 0;
        while i < self.channels.len()
            invariant
                i <= self.channels@.len(),
                forall|j: int| 0 <= j < i ==> self.keys()[j] != (matching_id, player_id@),
            decreases self.channels@.len() - i,
        {
            if self.channels[i].matching_id == matching_id && self.channels[i].player_id
                == *player_id {
                proof {
                    lemma_first_at(self.keys(), (matching_id, player_id@), i as int);
                }
                return Some(i);
            }
            i += 1;
        }
        proof {
            lemma_first_none(self.keys(), (matching_id, player_id@));
        }
        None
    }

    /// Whether no two entries share match and player.
    pub fn is_wf(&self) -> (ok: bool)
        ensures
            ok == self.wf(),
    {
        let mut i: usize = 0;
        while i < self.channels.len()
            invariant
                i <= self.channels@.len(),
                forall|k: int|
                    0 <= k < i ==> self.keys().index_of_first(#[trigger] self.keys()[k]) == Some(k),
            decreases self.channels@.len() - i,
        {
            match self.position(self.channels[i].matching_id, &self.channels[i].player_id) {
                Some(at) if at == i => {},
                _ => {
                    proof {
                        lemma_not_first_duplicate(self.keys(), i as int);
                    }
                    return false;
                },
            }
            i += 1;
        }
        proof {
            lemma_all_first_distinct(self.keys());
        }
        true
    }

    pub fn queue_for(&self, matching_id: u128, player_id: &String) -> (queue: Option<u64>)
        ensures
            queue == self.spec_queue_for(matching_id, player_id@),
    {
        match self.position(matching_id, player_id) {
            Some(i) => Some(self.channels[i].queue),
            None => None,
        }
    }

    /// Whether anyone is connected to the match.
    pub fn is_connected(&self, matching_id: u128) -> (connected: bool)
        ensures
            connected == self.has_match(matching_id),
    {
        let mut i: usize = 0;
        while i < self.channels.len()
            invariant
                i <= self.channels@.len(),
                forall|j: int| 0 <= j < i ==> self.channels@[j].matching_id != matching_id,
            decreases self.channels@.len() - i,
        {
            if self.channels[i].matching_id == matching_id {
                proof {
                    let p = self.channels@[i as int].player_id@;
                    self.lemma_position(matching_id, p);
                    assert(self.spec_queue_for(matching_id, p) is Some);
                }
                return true;
            }
            i += 1;
        }
        proof {
            assert forall|p: Seq<char>| #[trigger]
                self.spec_queue_for(matching_id, p) is None by {
                self.lemma_position(matching_id, p);
            }
        }
        false
    }

    /// Connects a player to a match through a queue, in place of the queue
    /// that connected the player to it before, if any.
    pub fn register(&mut self, matching_id: u128, player_id: String, queue: u64)
        requires
            old(self).wf(),
        ensures
            final(self).wf(),
            final(self).channels@ == channels_with(
                old(self).channels@,
                Channel { matching_id, player_id, queue },
            ),
            forall|m: u128, p: Seq<char>| #[trigger]
                final(self).spec_queue_for(m, p) == if m == matching_id && p == player_id@ {
                    Some(queue)
                } else {
                    old(self).spec_queue_for(m, p)
                },
            final(self).has_match(matching_id),
            forall|m: u128| m != matching_id ==> final(self).has_match(m) == old(self).has_match(m),
    {
        let ghost before = *self;
        let ghost key = (matching_id, player_id@);
        match self.position(matching_id, &player_id) {
            Some(i) => {
                self.channels[i] = Channel { matching_id, player_id, queue };
                proof {
                    before.lemma_position(matching_id, key.1);
                    assert(self.keys() =~= before.keys());
                    lemma_first_unique(before.keys(), i as int);
                    assert forall|m: u128, p: Seq<char>| #[trigger]
                        self.spec_queue_for(m, p) == if m == matching_id && p == key.1 {
                        Some(queue)
                    } else {
                        before.spec_queue_for(m, p)
                    } by {
                        before.lemma_position(m, p);
                    }
                }
            },
            None => {
                self.channels.push(Channel { matching_id, player_id, queue });
                proof {
                    assert(self.keys() =~= before.keys().push(key));
                    assert forall|m: u128, p: Seq<char>| #[trigger]
                        self.spec_queue_for(m, p) == if m == matching_id && p == key.1 {
                        Some(queue)
                    } else {
                        before.spec_queue_for(m, p)
                    } by {
                        lemma_first_after_push(before.keys(), key, (m, p));
                        before.lemma_position(m, p);
                    }
                    lemma_first_after_push(before.keys(), key, key);
                }
            },
        }
        proof {
            assert(self.spec_queue_for(matching_id, key.1) is Some);
            assert forall|m: u128| m != matching_id implies self.has_match(m) == before.has_match(
                m,
            ) by {
                if before.has_match(m) {
                    let p = choose|p: Seq<char>| #[trigger]
                        before.spec_queue_for(m, p) is Some;
                    assert(self.spec_queue_for(m, p) is Some);
                }
                if self.has_match(m) {
                    let p = choose|p: Seq<char>| #[trigger] self.spec_queue_for(m, p) is Some;
                    assert(before.spec_queue_for(m, p) is Some);
                }
            }
        }
    }

    /// Disconnects a player from a match. Says whether this took the last
    /// connected player of the match away.
    pub fn unregister(&mut self, matching_id: u128, player_id: &String) -> (emptied: bool)
        requires
            old(self).wf(),
        ensures
            final(self).wf(),
            final(self).channels@ == channels_without(old(self).channels@, matching_id, player_id@),
            forall|m: u128, p: Seq<char>| #[trigger]
                final(self).spec_queue_for(m, p) == if m == matching_id && p == player_id@ {
                    None
                } else {
                    old(self).spec_queue_for(m, p)
                },
            emptied == (old(self).has_match(matching_id) && !final(self).has_match(matching_id)),
            forall|m: u128| m != matching_id ==> final(self).has_match(m) == old(self).has_match(m),
    {
        let ghost before = *self;
        let ghost key = (matching_id, player_id@);
        let was_connected = self.is_connected(matching_id);
        match self.position(matching_id, player_id) {
            Some(i) => {
                let _ = self.channels.remove(i);
                proof {
                    assert(self.keys() =~= before.keys().remove(i as int));
                    before.lemma_position(matching_id, key.1);
                    assert forall|m: u128, p: Seq<char>| #[trigger]
                        self.spec_queue_for(m, p) == if m == matching_id && p == key.1 {
                        None
                    } else {
                        before.spec_queue_for(m, p)
                    } by {
                        lemma_first_after_remove(before.keys(), i as int, (m, p));
                        before.lemma_position(m, p);
                    }
                    lemma_first_after_remove(before.keys(), i as int, key);
                }
            },
            None => {},
        }
        proof {
            assert forall|m: u128| m != matching_id implies self.has_match(m) == before.has_match(
                m,
            ) by {
                if before.has_match(m) {
                    let p = choose|p: Seq<char>| #[trigger]
                        before.spec_queue_for(m, p) is Some;
                    assert(self.spec_queue_for(m, p) is Some);
                }
                if self.has_match(m) {
                    let p = choose|p: Seq<char>| #[trigger] self.spec_queue_for(m, p) is Some;
                    assert(before.spec_queue_for(m, p) is Some);
                }
            }
        }
        let still_connected = self.is_connected(matching_id);
        was_connected && !still_connected
    }

    /// The connected players of a match, with their queues.
    pub fn senders(&self, matching_id: u128) -> (entries: Vec<ChannelEntry>)
        ensures
            entries@ == self.spec_senders(matching_id),
            forall|player_id: Seq<char>| #[trigger]
                queue_of(entries@, player_id) == self.spec_queue_for(matching_id, player_id),
    {
        let mut entries: Vec<ChannelEntry> = Vec::new();
        let mut i: usize = 0;
        while i < self.channels.len()
            invariant
                i <= self.channels@.len(),
                entries@ == senders_among(self.channels@.take(i as int), matching_id),
            decreases self.channels@.len() - i,
        {
            proof {
                assert(self.channels@.take(i + 1).drop_last() =~= self.channels@.take(i as int));
            }
            let c = &self.channels[i];
            if c.matching_id == matching_id {
                entries.push(ChannelEntry { player_id: c.player_id.clone(), queue: c.queue });
            }
            i += 1;
        }
        proof {
            assert(self.channels@.take(i as int) =~= self.channels@);
            assert forall|player_id: Seq<char>| #[trigger]
                queue_of(entries@, player_id) == self.spec_queue_for(matching_id, player_id) by {
                lemma_senders_agree(self.channels@, matching_id, player_id);
            }
        }
        entries
    }
}

} // verus!
