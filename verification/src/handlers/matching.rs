//! Creating and joining matches by request and reply, without a standing
//! connection.

use vstd::prelude::*;
use crate::clock::{current_time, Timestamp};
use crate::handlers::MatchingSessions;
use crate::ident::random_uuid;
use crate::models::{JoinOutcome, MatchingSession, MatchingStatus};

verus! {

/// The class of a reply.
#[derive(Clone, Copy, Debug, PartialEq, Eq, Structural)]
pub enum ReplyStatus {
    Success,
    BadRequest,
    NotFound,
}

/// The reply to a request to join a match.
#[derive(Debug, PartialEq, Eq)]
pub struct JoinMatchingResponse {
    pub status: ReplyStatus,
    pub success: bool,
    pub message: Option<String>,
}

impl JoinMatchingResponse {
    /// A reply of this status with exactly this text; it reports success
    /// where the status is `Ok`.
    pub open spec fn says(&self, status: ReplyStatus, text: Seq<char>) -> bool {
        &&& self.status == status
        &&& self.success == (status == ReplyStatus::Success)
        &&& self.message matches Some(m) && m@ == text
    }

    pub fn with(status: ReplyStatus, text: &str) -> (r: JoinMatchingResponse)
        ensures
            r.says(status, text@),
    {
        JoinMatchingResponse {
            status,
            success: status == ReplyStatus::Success,
            message: Some(text.to_owned()),
        }
    }
}

/// Registers a new match of a player under a given id, and returns the id.
pub fn create_matching_at(
    sessions: &mut MatchingSessions,
    player_id: String,
    matching_id: u128,
    now: Timestamp,
) -> (id: u128)
    requires
        old(sessions).wf(),
    ensures
        id == matching_id,
        final(sessions).wf(),
        final(sessions).spec_get(id) == Some(MatchingSession::fresh(id, player_id, None, now)),
        forall|other: u128|
            other != id ==> #[trigger] final(sessions).spec_get(other) == old(sessions).spec_get(
                other,
            ),
        old(sessions).all_wf() ==> final(sessions).all_wf(),
{
    sessions.insert(MatchingSession::create(matching_id, player_id, None, now));
    matching_id
}

/// Registers a new match of a player under a fresh random id, and returns the id.
pub fn create_matching(sessions: &mut MatchingSessions, player_id: String) -> (id: u128)
    requires
        old(sessions).wf(),
    ensures
        final(sessions).wf(),
        exists|now: Timestamp| #[trigger]
            final(sessions).spec_get(id) == Some(MatchingSession::fresh(id, player_id, None, now)),
        forall|other: u128|
            other != id ==> #[trigger] final(sessions).spec_get(other) == old(sessions).spec_get(
                other,
            ),
        old(sessions).all_wf() ==> final(sessions).all_wf(),
{
    let matching_id = random_uuid();
    let now = current_time();
    let id = create_matching_at(sessions, player_id, matching_id, now);
    assert(sessions.spec_get(id) == Some(MatchingSession::fresh(id, player_id, None, now)));
    id
}

/// What a request to join comes to: an unknown match is not found; a new
/// player takes the open slot; the second participant of a matched match
/// that is still valid is let back in, and nothing changes; anything else
/// is refused and changes nothing. A request connects nobody, so a match
/// that was abandoned stays so.
pub open spec fn join_reply_post(
    before: MatchingSessions,
    matching_id: u128,
    player_id: String,
    now: Timestamp,
    after: MatchingSessions,
    reply: JoinMatchingResponse,
) -> bool {
    match before.spec_get(matching_id) {
        None => after.sessions@ == before.sessions@ && reply.says(
            ReplyStatus::NotFound,
            "Matching session not found"@,
        ),
        Some(session) => match session.join_outcome(player_id@) {
            JoinOutcome::Joined => {
                &&& after.spec_get(matching_id) == Some(session.joined_by(player_id))
                &&& reply.says(ReplyStatus::Success, "Matching successful"@)
            },
            JoinOutcome::Rejoined if session.spec_is_valid_at(now) => after.sessions@
                == before.sessions@ && reply.says(
                ReplyStatus::Success,
                "Rejoined matching session"@,
            ),
            JoinOutcome::OwnSession => after.sessions@ == before.sessions@ && reply.says(
                ReplyStatus::BadRequest,
                "Cannot join your own matching session"@,
            ),
            _ => after.sessions@ == before.sessions@ && reply.says(
                ReplyStatus::BadRequest,
                "This matching session is not available"@,
            ),
        },
    }
}

/// The matches other than `matching_id` are what they were.
pub open spec fn others_kept(before: MatchingSessions, after: MatchingSessions, matching_id: u128)
    -> bool {
    forall|other: u128|
        other != matching_id ==> #[trigger] after.spec_get(other) == before.spec_get(other)
}

/// Every match is what it was, but for the match `only`, if there is one.
pub open spec fn others_kept_but(
    before: MatchingSessions,
    after: MatchingSessions,
    only: Option<u128>,
) -> bool {
    forall|other: u128|
        only != Some(other) ==> #[trigger] after.spec_get(other) == before.spec_get(other)
}

/// No match has changed its note of when it was abandoned.
pub open spec fn timers_kept(before: MatchingSessions, after: MatchingSessions) -> bool {
    forall|id: u128|
        #[trigger] after.contains(id) && before.contains(id) ==> after.spec_get(
            id,
        )->0.last_active_at == before.spec_get(id)->0.last_active_at
}

/// Answers a request to join a match, at a given time.
pub fn join_matching_at(
    sessions: &mut MatchingSessions,
    matching_id: u128,
    player_id: String,
    now: Timestamp,
) -> (reply: JoinMatchingResponse)
    requires
        old(sessions).wf(),
    ensures
        final(sessions).wf(),
        join_reply_post(*old(sessions), matching_id, player_id, now, *final(sessions), reply),
        others_kept(*old(sessions), *final(sessions), matching_id),
        timers_kept(*old(sessions), *final(sessions)),
        final(sessions).advanced_from(*old(sessions)),
        old(sessions).all_wf() ==> final(sessions).all_wf(),
{
    let ghost before = *sessions;
    let mut session = match sessions.remove(matching_id) {
        Some(s) => s,
        None => {
            proof {
                assert(sessions.sessions@ =~= before.sessions@);
            }
            return JoinMatchingResponse::with(ReplyStatus::NotFound, "Matching session not found");
        },
    };
    let ghost found = session;
    let is_second = match &session.player_b {
        Some(b) => b.id == player_id,
        None => false,
    };
    let outcome = if session.status == MatchingStatus::Matched && is_second && !session.is_valid_at(
        now,
    ) {
        JoinOutcome::NotAvailable
    } else {
        session.join(player_id)
    };
    sessions.insert(session);
    proof {
        assert(found.matching_id == matching_id);
        if before.all_wf() {
            assert(found.wf());
        }
        if outcome != JoinOutcome::Joined {
            assert(sessions.sessions@ =~= before.sessions@);
        }
        assert forall|id: u128| #[trigger]
            before.contains(id) && sessions.contains(id) implies before.spec_get(
            id,
        )->0.status.may_become(sessions.spec_get(id)->0.status) by {
            if id != matching_id {
                assert(sessions.spec_get(id) == before.spec_get(id));
            }
        }
        assert forall|id: u128|
            #[trigger] sessions.contains(id) && before.contains(id) implies sessions.spec_get(
            id,
        )->0.last_active_at == before.spec_get(id)->0.last_active_at by {
            if id != matching_id {
                assert(sessions.spec_get(id) == before.spec_get(id));
            }
        }
    }
    match outcome {
        JoinOutcome::Joined => JoinMatchingResponse::with(ReplyStatus::Success, "Matching successful"),
        JoinOutcome::Rejoined => JoinMatchingResponse::with(
            ReplyStatus::Success,
            "Rejoined matching session",
        ),
        JoinOutcome::OwnSession => JoinMatchingResponse::with(
            ReplyStatus::BadRequest,
            "Cannot join your own matching session",
        ),
        JoinOutcome::NotAvailable => JoinMatchingResponse::with(
            ReplyStatus::BadRequest,
            "This matching session is not available",
        ),
    }
}

/// Answers a request to join a match, at the time of the call.
pub fn join_matching(sessions: &mut MatchingSessions, matching_id: u128, player_id: String) -> (reply:
    JoinMatchingResponse)
    requires
        old(sessions).wf(),
    ensures
        final(sessions).wf(),
        exists|now: Timestamp| #[trigger]
            join_reply_post(*old(sessions), matching_id, player_id, now, *final(sessions), reply),
        others_kept(*old(sessions), *final(sessions), matching_id),
        timers_kept(*old(sessions), *final(sessions)),
        final(sessions).advanced_from(*old(sessions)),
        old(sessions).all_wf() ==> final(sessions).all_wf(),
{
    let now = current_time();
    join_matching_at(sessions, matching_id, player_id, now)
}

} // verus!
