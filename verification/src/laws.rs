use crate::clock::Timestamp;
use crate::error::{ApiError, ApiResult};
use crate::model::{Experience, Publish, ServerPlayer};
use crate::registry::{sweep_outcome, Registry};
use crate::state::AppState;
use vstd::prelude::*;

verus! {

/// A token is verified at most once: when a verification of `token`
/// succeeded, the next verification of the same token is refused as
/// `GenericInvalidRequest` and changes nothing, whatever it presents.
pub proof fn lemma_verified_at_most_once(
    first: AppState,
    second: AppState,
    third: AppState,
    token: Seq<char>,
    place_id: u64,
    place_version: u64,
    private_server_id: String,
    country: Option<String>,
    now: Timestamp,
    outcome: ApiResult<()>,
    next_place_id: u64,
    next_place_version: u64,
    next_private_server_id: String,
    next_country: Option<String>,
    later: Timestamp,
    next_outcome: ApiResult<()>,
)
    requires
        first.wf(),
        first.verify_step(
            second,
            token,
            place_id,
            place_version,
            private_server_id,
            country,
            now,
            outcome,
        ),
        outcome.is_ok(),
        second.verify_step(
            third,
            token,
            next_place_id,
            next_place_version,
            next_private_server_id,
            next_country,
            later,
            next_outcome,
        ),
    ensures
        next_outcome == Err::<(), ApiError>(ApiError::GenericInvalidRequest),
        third.servers == second.servers,
        third.pending_connections@ == second.pending_connections@,
{
}

/// A token that is not pending is never verified: the attempt is refused as
/// `GenericInvalidRequest`, and a state in which nothing was ever begun
/// holds no pending token at all.
pub proof fn lemma_unknown_token_is_refused(
    before: AppState,
    after: AppState,
    token: Seq<char>,
    place_id: u64,
    place_version: u64,
    private_server_id: String,
    country: Option<String>,
    now: Timestamp,
    outcome: ApiResult<()>,
)
    requires
        before.wf(),
        !before.pending_connections@.dom().contains(token),
        before.verify_step(
            after,
            token,
            place_id,
            place_version,
            private_server_id,
            country,
            now,
            outcome,
        ),
    ensures
        outcome == Err::<(), ApiError>(ApiError::GenericInvalidRequest),
        after.servers == before.servers,
        after.pending_connections@ == before.pending_connections@,
{
}

/// A token that is in use, pending or live, is never issued again: a begin
/// that draws it is refused, and nothing changes.
pub proof fn lemma_token_in_use_is_not_issued(
    before: AppState,
    after: AppState,
    experience: Option<Experience>,
    place_id: Option<u64>,
    server_id: u128,
    secret_topic: String,
    connection_token: String,
    outcome: ApiResult<Publish>,
)
    requires
        before.wf(),
        before.knows(connection_token@),
        before.begin_step(
            after,
            experience,
            place_id,
            server_id,
            secret_topic,
            connection_token,
            outcome,
        ),
    ensures
        outcome.is_err(),
        after.servers == before.servers,
        after.pending_connections@ == before.pending_connections@,
{
}

/// Only a begin makes a token pending, and only the token it drew: a token
/// that was not pending before a begin with another token, or before any
/// verification, is not pending after it.
pub proof fn lemma_pending_only_by_begin(
    before: AppState,
    after: AppState,
    token: Seq<char>,
    experience: Option<Experience>,
    place_id: Option<u64>,
    server_id: u128,
    secret_topic: String,
    connection_token: String,
    begun: ApiResult<Publish>,
    verified_token: Seq<char>,
    verified_place_id: u64,
    place_version: u64,
    private_server_id: String,
    country: Option<String>,
    now: Timestamp,
    verified: ApiResult<()>,
)
    requires
        before.wf(),
        !before.pending_connections@.dom().contains(token),
        ({
            ||| connection_token@ != token && before.begin_step(
                after,
                experience,
                place_id,
                server_id,
                secret_topic,
                connection_token,
                begun,
            )
            ||| before.verify_step(
                after,
                verified_token,
                verified_place_id,
                place_version,
                private_server_id,
                country,
                now,
                verified,
            )
        }),
    ensures
        !after.pending_connections@.dom().contains(token),
{
}

/// The handshake end to end: a token that a begin made pending is verified
/// by the next verification that presents it, and the record carries the
/// begin's server id, experience and topic, and the verification's place
/// id and version.
pub proof fn lemma_begun_token_is_verified(
    first: AppState,
    second: AppState,
    third: AppState,
    experience: Experience,
    begin_place_id: u64,
    server_id: u128,
    secret_topic: String,
    connection_token: String,
    begun: ApiResult<Publish>,
    place_id: u64,
    place_version: u64,
    private_server_id: String,
    country: Option<String>,
    now: Timestamp,
    verified: ApiResult<()>,
)
    requires
        first.wf(),
        first.begin_step(
            second,
            Some(experience),
            Some(begin_place_id),
            server_id,
            secret_topic,
            connection_token,
            begun,
        ),
        begun.is_ok(),
        second.verify_step(
            third,
            connection_token@,
            place_id,
            place_version,
            private_server_id,
            country,
            now,
            verified,
        ),
    ensures
        begun.unwrap().message == connection_token,
        begun.unwrap().topic@ == secret_topic@ + seq!['0'],
        verified == Ok::<(), ApiError>(()),
        third.servers@.dom().contains(connection_token@),
        third.servers@[connection_token@].id == server_id,
        third.servers@[connection_token@].experience == experience,
        third.servers@[connection_token@].secret_topic == secret_topic,
        third.servers@[connection_token@].place_id == place_id,
        third.servers@[connection_token@].place_version == place_version,
        third.servers@[connection_token@].private_server_id.is_none() <==> private_server_id@.len()
            == 0,
        !third.pending_connections@.dom().contains(connection_token@),
{
}

/// After a successful verification the record is in the registry under its
/// token, with an empty roster, no action list requested and no ping
/// outstanding.
pub proof fn lemma_verified_record_is_fresh(
    before: AppState,
    after: AppState,
    token: Seq<char>,
    place_id: u64,
    place_version: u64,
    private_server_id: String,
    country: Option<String>,
    now: Timestamp,
    outcome: ApiResult<()>,
)
    requires
        before.wf(),
        before.verify_step(
            after,
            token,
            place_id,
            place_version,
            private_server_id,
            country,
            now,
            outcome,
        ),
        outcome.is_ok(),
    ensures
        after.servers@.dom().contains(token),
        after.servers@[token].players@ == Map::<u64, ServerPlayer>::empty(),
        !after.servers@[token].has_requested_actions,
        after.servers@[token].ack_token.is_none(),
        after.servers@[token].place_version == place_version,
        !after.pending_connections@.dom().contains(token),
{
}

/// The action list is granted once: of two requests in a row for a live
/// record that has not had its list, the first succeeds and the second is
/// refused as `TooManyRequests`.
pub proof fn lemma_actions_granted_once(
    first: Registry,
    second: Registry,
    third: Registry,
    token: Seq<char>,
    outcome: Result<u64, ApiError>,
    next_outcome: Result<u64, ApiError>,
)
    requires
        first.wf(),
        first@.dom().contains(token),
        !first@[token].has_requested_actions,
        first.actions_step(second, token, outcome),
        second.actions_step(third, token, next_outcome),
    ensures
        outcome == Ok::<u64, ApiError>(first@[token].experience.id),
        next_outcome == Err::<u64, ApiError>(ApiError::TooManyRequests),
        third.servers@ == second.servers@,
{
}

/// A sweep pings a record that has been idle for a full period: afterwards
/// the record waits on a ping sent at the time of the sweep, and that ping
/// is among the messages of the sweep.
pub proof fn lemma_idle_record_is_pinged(
    before: Registry,
    after: Registry,
    now: Timestamp,
    pings: Seq<Publish>,
    token: Seq<char>,
)
    requires
        before.wf(),
        before.sweep_step(after, now, pings),
        before@.dom().contains(token),
        before@[token].ack_token.is_none(),
        now.spec_period_elapsed_since(before@[token].last_ack_at),
    ensures
        after@.dom().contains(token),
        after@[token].ack_token.is_some(),
        after@[token].last_ack_sent_at == now,
        after@[token].last_ack_at == before@[token].last_ack_at,
        exists|j: int| 0 <= j < pings.len() && after@[token].is_ping(#[trigger] pings[j]),
{
    assert(sweep_outcome(before@[token], token, now, after@));
}

/// A ping that is not answered within a full period costs the record its
/// place: when a sweep left a record waiting on a ping, and the next sweep
/// a full period or more after that ping finds it still waiting, the record is
/// gone.
pub proof fn lemma_unanswered_ping_evicts(
    before: Registry,
    after: Registry,
    now: Timestamp,
    pings: Seq<Publish>,
    token: Seq<char>,
)
    requires
        before.wf(),
        before.sweep_step(after, now, pings),
        before@.dom().contains(token),
        before@[token].ack_token.is_some(),
        now.spec_period_elapsed_since(before@[token].last_ack_sent_at),
    ensures
        !after@.dom().contains(token),
{
    assert(sweep_outcome(before@[token], token, now, after@));
}

/// The whole course of an unanswered ping: a sweep at `now` pings a record
/// that was idle for a full period, and a sweep at `later`, a full period
/// or more after `now`, with nothing in between, evicts it.
pub proof fn lemma_silent_record_is_evicted(
    first: Registry,
    second: Registry,
    third: Registry,
    now: Timestamp,
    later: Timestamp,
    pings: Seq<Publish>,
    later_pings: Seq<Publish>,
    token: Seq<char>,
)
    requires
        first.wf(),
        first@.dom().contains(token),
        first@[token].ack_token.is_none(),
        now.spec_period_elapsed_since(first@[token].last_ack_at),
        first.sweep_step(second, now, pings),
        later.spec_period_elapsed_since(now),
        second.sweep_step(third, later, later_pings),
    ensures
        !third@.dom().contains(token),
{
    lemma_idle_record_is_pinged(first, second, now, pings, token);
    lemma_unanswered_ping_evicts(second, third, later, later_pings, token);
}

/// An answered ping returns the record to idle: when the record under
/// `token` waits on a ping and is acknowledged with that ping's token at
/// `now`, it stays in the registry with no ping outstanding and `now` as its
/// last acknowledgement, and a sweep at `later` keeps it in the registry.
pub proof fn lemma_answered_ping_restores_idle(
    first: Registry,
    second: Registry,
    third: Registry,
    token: Seq<char>,
    body: Seq<char>,
    now: Timestamp,
    outcome: Result<(), ApiError>,
    later: Timestamp,
    later_pings: Seq<Publish>,
)
    requires
        first.wf(),
        first@.dom().contains(token),
        first@[token].answers_ping(body),
        first.ack_step(second, token, body, now, outcome),
        second.sweep_step(third, later, later_pings),
    ensures
        outcome == Ok::<(), ApiError>(()),
        second@.dom().contains(token),
        second@[token].ack_token.is_none(),
        second@[token].last_ack_at == now,
        second@[token] == first@[token].acknowledged(now),
        third@.dom().contains(token),
        !later.spec_period_elapsed_since(now) ==> third@[token] == second@[token],
{
    assert(second@.dom().contains(token));
    assert(sweep_outcome(second@[token], token, later, third@));
}

/// A sweep never evicts a record that has no ping outstanding.
pub proof fn lemma_idle_record_survives_sweep(
    before: Registry,
    after: Registry,
    now: Timestamp,
    pings: Seq<Publish>,
    token: Seq<char>,
)
    requires
        before.wf(),
        before.sweep_step(after, now, pings),
        before@.dom().contains(token),
        before@[token].ack_token.is_none(),
    ensures
        after@.dom().contains(token),
{
    assert(sweep_outcome(before@[token], token, now, after@));
}

/// An acknowledgement that does not carry the token of the outstanding ping
/// is refused as `GenericInvalidRequest` and leaves every record, and so its
/// heartbeat state, as it was.
pub proof fn lemma_wrong_ack_changes_nothing(
    before: Registry,
    after: Registry,
    token: Seq<char>,
    body: Seq<char>,
    now: Timestamp,
    outcome: Result<(), ApiError>,
)
    requires
        before.wf(),
        before.ack_step(after, token, body, now, outcome),
        !(before@.dom().contains(token) && before@[token].ack_token.is_some()
            && before@[token].ack_token.unwrap()@ == body),
    ensures
        outcome == Err::<(), ApiError>(ApiError::GenericInvalidRequest),
        after.servers@ == before.servers@,
        after@ == before@,
{
}

} // verus!
