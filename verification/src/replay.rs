//! Short memory of answers, so that a repeated request is answered as before.

use crate::ids::SessionId;
use crate::time::{moved, Duration, Timestamp, MAX_NANOS};
use vstd::prelude::*;

verus! {

/// How long an answer is remembered.
pub const REPLAY_SECONDS: u64 = 3600;

/// An answer that a repeated request gets again.
#[derive(Clone, Debug, PartialEq, Eq)]
pub struct ApiReplay {
    pub result: String,
    pub expires_at: Timestamp,
}

/// View of a remembered answer.
pub ghost struct ReplayView {
    pub result: Seq<char>,
    pub expires_at: Timestamp,
}

impl View for ApiReplay {
    type V = ReplayView;

    open spec fn view(&self) -> ReplayView {
        ReplayView { result: self.result@, expires_at: self.expires_at }
    }
}

/// View of an answer that may be absent.
pub open spec fn replay_view(replay: Option<ApiReplay>) -> Option<ReplayView> {
    match replay {
        Some(replay) => Some(replay@),
        None => None,
    }
}

/// When an answer given now is forgotten.
pub open spec fn forgotten_at(now: Timestamp) -> Timestamp {
    match moved(now.nanos as int, 3_600_000_000_000) {
        Some(at) => at,
        None => Timestamp { nanos: MAX_NANOS },
    }
}

/// When an answer given now is forgotten: after an hour, or at the latest moment there is.
pub fn replay_until(now: Timestamp) -> (at: Timestamp)
    ensures
        at == forgotten_at(now),
{
    match now.checked_add(Duration::from_secs(REPLAY_SECONDS)) {
        Some(at) => at,
        None => Timestamp::latest(),
    }
}

/// The answer that a repeated request gets, while it is remembered.
pub open spec fn remembered(replay: Option<ReplayView>, now: Timestamp) -> Option<Seq<char>> {
    match replay {
        Some(entry) if entry.expires_at.nanos > now.nanos => Some(entry.result),
        _ => None,
    }
}

/// The answer that a repeated request gets, while it is remembered.
pub fn api_replay(replay: Option<ApiReplay>, now: Timestamp) -> (result: Option<String>)
    ensures
        match result {
            Some(answer) => remembered(replay_view(replay), now) == Some(answer@),
            None => remembered(replay_view(replay), now) is None,
        },
{
    match replay {
        Some(entry) => if entry.expires_at.nanos > now.nanos {
            Some(entry.result)
        } else {
            None
        },
        None => None,
    }
}

/// Remembers an answer.
pub fn put_api_replay(result: String, now: Timestamp) -> (replay: ApiReplay)
    ensures
        replay@ == (ReplayView { result: result@, expires_at: forgotten_at(now) }),
{
    ApiReplay { result, expires_at: replay_until(now) }
}

/// The session id reserved under a key: the stored one, or the fresh one that is to be stored.
pub fn api_session_id(stored: Option<SessionId>, fresh: SessionId) -> (reserved: (SessionId, bool))
    ensures
        reserved == match stored {
            Some(id) => (id, false),
            None => (fresh, true),
        },
{
    match stored {
        Some(id) => (id, false),
        None => (fresh, true),
    }
}

/// A remembered answer comes back unchanged until it is forgotten, and not after.
pub proof fn answers_come_back(result: Seq<char>, now: Timestamp, later: Timestamp)
    ensures
        later.nanos < forgotten_at(now).nanos ==> remembered(
            Some(ReplayView { result, expires_at: forgotten_at(now) }),
            later,
        ) == Some(result),
        later.nanos >= forgotten_at(now).nanos ==> remembered(
            Some(ReplayView { result, expires_at: forgotten_at(now) }),
            later,
        ) is None,
{
}

/// An answer is remembered for one hour, or until the end of time where that comes first, and comes
/// back word for word until then.
pub proof fn answers_are_remembered_for_an_hour(
    result: String,
    now: Timestamp,
    replay: ApiReplay,
    later: Timestamp,
    answer: Option<String>,
)
    requires
        now.valid(),
        call_ensures(put_api_replay, (result, now), replay),
        call_ensures(api_replay, (Some(replay), later), answer),
    ensures
        replay.expires_at.nanos == now.nanos + 3_600_000_000_000 || replay.expires_at.nanos == MAX_NANOS
            && now.nanos + 3_600_000_000_000 > MAX_NANOS,
        answer is Some <==> later.nanos < replay.expires_at.nanos,
        answer matches Some(text) ==> text@ == result@,
{
}

/// Nothing is answered for what was never asked.
pub proof fn unasked_answers_are_absent(now: Timestamp, answer: Option<String>)
    requires
        call_ensures(api_replay, (None::<ApiReplay>, now), answer),
    ensures
        answer is None,
{
}

/// A reserved id is the stored one, once there is one; the fresh one is taken only before that.
pub proof fn reserved_ids_stay(stored: Option<SessionId>, fresh: SessionId, first: (SessionId, bool), other: SessionId, second: (SessionId, bool))
    requires
        call_ensures(api_session_id, (stored, fresh), first),
        call_ensures(api_session_id, (Some(first.0), other), second),
    ensures
        second.0 == first.0,
        !second.1,
        first.1 <==> stored is None,
        stored matches Some(id) ==> first.0 == id,
        stored is None ==> first.0 == fresh,
{
}

} // verus!
