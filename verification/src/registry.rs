use crate::clock::{current_time, Timestamp};
use crate::error::ApiError;
use crate::keyed::{
    keyed, lemma_keyed_entries, lemma_keyed_push, lemma_keyed_remove, lemma_keyed_update,
};
use crate::model::{Due, Publish, Server, ServerPlayer};
use crate::token::{is_token, random_token};
use std::collections::HashMap;
use vstd::prelude::*;

verus! {

/// The live servers, each under its connection token.
pub struct Registry {
    pub servers: Vec<Server>,
}

impl View for Registry {
    type V = Map<Seq<char>, Server>;

    /// The registry as a map from connection token to record.
    open spec fn view(&self) -> Map<Seq<char>, Server> {
        keyed(self.tokens(), self.servers@)
    }
}

/// The tokens of a sequence of records, in order.
pub open spec fn tokens_of(servers: Seq<Server>) -> Seq<Seq<char>> {
    Seq::new(servers.len(), |i: int| servers[i].connection_token@)
}

impl Registry {
    pub open spec fn tokens(&self) -> Seq<Seq<char>> {
        tokens_of(self.servers@)
    }

    /// No token stands for two records.
    pub open spec fn wf(&self) -> bool {
        self.tokens().no_duplicates()
    }

    pub fn new() -> (registry: Registry)
        ensures
            registry.wf(),
            registry@ == Map::<Seq<char>, Server>::empty(),
    {
        let registry = Registry { servers: Vec::new() };
        assert(registry@ =~= Map::<Seq<char>, Server>::empty());
        registry
    }

    pub fn len(&self) -> (n: usize)
        ensures
            n == self.servers@.len(),
    {
        self.servers.len()
    }

    /// Where the record under `token` stands, if there is one.
    pub fn position(&self, token: &String) -> (found: Option<usize>)
        requires
            self.wf(),
        ensures
            match found {
                Some(i) => i < self.servers@.len() && self.servers@[i as int].connection_token@
                    == token@ && self@.dom().contains(token@) && self@[token@]
                    == self.servers@[i as int],
                None => !self@.dom().contains(token@),
            },
    {
        let mut i: usize = 0;
        while i < self.servers.len()
            invariant
                self.wf(),
                i <= self.servers@.len(),
                forall|j: int| 0 <= j < i ==> self.tokens()[j] != token@,
            decreases self.servers@.len() - i,
        {
            if self.servers[i].connection_token == *token {
                proof {
                    lemma_keyed_entries(self.tokens(), self.servers@);
                    assert(self.tokens()[i as int] == token@);
                }
                return Some(i);
            }
            i += 1;
        }
        proof {
            lemma_keyed_entries(self.tokens(), self.servers@);
        }
        None
    }

    pub fn contains(&self, token: &String) -> (present: bool)
        requires
            self.wf(),
        ensures
            present == self@.dom().contains(token@),
    {
        self.position(token).is_some()
    }

    pub fn get(&self, token: &String) -> (found: Option<&Server>)
        requires
            self.wf(),
        ensures
            found == (if self@.dom().contains(token@) {
                Some(&self@[token@])
            } else {
                None
            }),
    {
        match self.position(token) {
            Some(i) => Some(&self.servers[i]),
            None => None,
        }
    }

    /// Puts `server` under its own token, in place of the record that was
    /// there, if any.
    pub fn insert(&mut self, server: Server)
        requires
            old(self).wf(),
        ensures
            final(self).wf(),
            final(self)@ == old(self)@.insert(server.connection_token@, server),
            final(self).servers@ == (if old(self)@.dom().contains(server.connection_token@) {
                old(self).servers@.update(
                    old(self).tokens().index_of(server.connection_token@),
                    server,
                )
            } else {
                old(self).servers@.push(server)
            }),
    {
        match self.position(&server.connection_token) {
            Some(i) => {
                proof {
                    assert(self.tokens()[i as int] == server.connection_token@);
                    assert(self.tokens().index_of(server.connection_token@) == i);
                    lemma_keyed_update(self.tokens(), self.servers@, i as int, server);
                    assert(tokens_of(self.servers@.update(i as int, server)) =~= self.tokens());
                }
                self.servers[i] = server;
            },
            None => {
                proof {
                    lemma_keyed_entries(self.tokens(), self.servers@);
                    lemma_keyed_push(
                        self.tokens(),
                        self.servers@,
                        server.connection_token@,
                        server,
                    );
                    assert(tokens_of(self.servers@.push(server)) =~= self.tokens().push(
                        server.connection_token@,
                    ));
                }
                self.servers.push(server);
            },
        }
    }

    /// Takes the record under `token` out of the registry.
    pub fn remove(&mut self, token: &String) -> (removed: Option<Server>)
        requires
            old(self).wf(),
        ensures
            final(self).wf(),
            final(self)@ == old(self)@.remove(token@),
            removed == (if old(self)@.dom().contains(token@) {
                Some(old(self)@[token@])
            } else {
                None
            }),
            final(self).servers@ == (if old(self)@.dom().contains(token@) {
                old(self).servers@.remove(old(self).tokens().index_of(token@))
            } else {
                old(self).servers@
            }),
    {
        match self.position(token) {
            Some(i) => {
                proof {
                    assert(self.tokens()[i as int] == token@);
                    assert(self.tokens().index_of(token@) == i);
                    lemma_keyed_remove(self.tokens(), self.servers@, i as int);
                    assert(tokens_of(self.servers@.remove(i as int)) =~= self.tokens().remove(
                        i as int,
                    ));
                }
                Some(self.servers.remove(i))
            },
            None => {
                assert(self@.remove(token@) =~= self@);
                None
            },
        }
    }

    /// Grants the record under `token` its action list, once: the first
    /// call returns the id of the experience whose actions are to be
    /// fetched, every later one is refused.
    pub fn get_server_actions(&mut self, token: &String) -> (result: Result<u64, ApiError>)
        requires
            old(self).wf(),
        ensures
            old(self).actions_step(*final(self), token@, result),
    {
        match self.position(token) {
            None => Err(ApiError::GenericInvalidRequest),
            Some(i) => {
                let result = self.servers[i].request_actions();
                proof {
                    lemma_record_replaced(old(self).servers@, self.servers@, i as int);
                    if result.is_err() {
                        assert(self.servers@ =~= old(self).servers@);
                    }
                }
                result
            },
        }
    }

    /// Replaces the whole roster of the record under `token`.
    pub fn set_server_players(&mut self, token: &String, players: HashMap<u64, ServerPlayer>) -> (result:
        Result<(), ApiError>)
        requires
            old(self).wf(),
        ensures
            final(self).wf(),
            !old(self)@.dom().contains(token@) ==> result == Err::<(), ApiError>(
                ApiError::GenericInvalidRequest,
            ) && final(self).servers@ == old(self).servers@,
            old(self)@.dom().contains(token@) ==> result == Ok::<(), ApiError>(()) && final(self)@
                == old(self)@.insert(token@, (Server { players, ..old(self)@[token@] })),
    {
        match self.position(token) {
            None => Err(ApiError::GenericInvalidRequest),
            Some(i) => {
                let server = &mut self.servers[i];
                server.players = players;
                proof {
                    lemma_record_replaced(old(self).servers@, self.servers@, i as int);
                }
                Ok(())
            },
        }
    }

    /// Seats `player` under `user_id` in the record under `token`, in place
    /// of whoever sat there.
    pub fn set_server_player(&mut self, token: &String, user_id: u64, player: ServerPlayer) -> (result:
        Result<(), ApiError>)
        requires
            old(self).wf(),
        ensures
            final(self).wf(),
            !old(self)@.dom().contains(token@) ==> result == Err::<(), ApiError>(
                ApiError::GenericInvalidRequest,
            ) && final(self).servers@ == old(self).servers@,
            old(self)@.dom().contains(token@) ==> result == Ok::<(), ApiError>(())
                && final(self)@.dom().contains(token@) && final(self)@[token@].players@ == old(
                self,
            )@[token@].players@.insert(user_id, player) && final(self)@ == old(self)@.insert(
                token@,
                (Server { players: final(self)@[token@].players, ..old(self)@[token@] }),
            ),
    {
        match self.position(token) {
            None => Err(ApiError::GenericInvalidRequest),
            Some(i) => {
                let server = &mut self.servers[i];
                server.players.insert(user_id, player);
                proof {
                    lemma_record_replaced(old(self).servers@, self.servers@, i as int);
                }
                Ok(())
            },
        }
    }

    /// Unseats the player under `user_id` in the record under `token`.
    pub fn remove_server_player(&mut self, token: &String, user_id: u64) -> (result: Result<
        (),
        ApiError,
    >)
        requires
            old(self).wf(),
        ensures
            final(self).wf(),
            !old(self)@.dom().contains(token@) ==> result == Err::<(), ApiError>(
                ApiError::GenericInvalidRequest,
            ) && final(self).servers@ == old(self).servers@,
            old(self)@.dom().contains(token@) ==> result == Ok::<(), ApiError>(())
                && final(self)@.dom().contains(token@) && final(self)@[token@].players@ == old(
                self,
            )@[token@].players@.remove(user_id) && final(self)@ == old(self)@.insert(
                token@,
                (Server { players: final(self)@[token@].players, ..old(self)@[token@] }),
            ),
    {
        match self.position(token) {
            None => Err(ApiError::GenericInvalidRequest),
            Some(i) => {
                let server = &mut self.servers[i];
                server.players.remove(&user_id);
                proof {
                    lemma_record_replaced(old(self).servers@, self.servers@, i as int);
                }
                Ok(())
            },
        }
    }

    /// Acknowledges a ping at the present instant: reads the clock and
    /// proceeds as [`Registry::server_ack_at`] does.
    pub fn server_ack(&mut self, token: &String, body: &String) -> (result: Result<(), ApiError>)
        requires
            old(self).wf(),
        ensures
            exists|now: Timestamp| old(self).ack_step(*final(self), token@, body@, now, result),
    {
        let now = current_time();
        self.server_ack_at(token, body, now)
    }

    /// Accepts `body` as the answer to the ping that the record under
    /// `token` waits on, with `now` as the time of the acknowledgement.
    /// Anything but that ping's token is refused and changes nothing.
    pub fn server_ack_at(&mut self, token: &String, body: &String, now: Timestamp) -> (result:
        Result<(), ApiError>)
        requires
            old(self).wf(),
        ensures
            old(self).ack_step(*final(self), token@, body@, now, result),
    {
        match self.position(token) {
            None => Err(ApiError::GenericInvalidRequest),
            Some(i) => {
                let result = self.servers[i].acknowledge(body, now);
                proof {
                    lemma_record_replaced(old(self).servers@, self.servers@, i as int);
                    if result.is_err() {
                        assert(self.servers@ =~= old(self).servers@);
                    }
                }
                result
            },
        }
    }

    /// Ends the connection under `token`.
    pub fn remove_server(&mut self, token: &String) -> (result: Result<(), ApiError>)
        requires
            old(self).wf(),
        ensures
            final(self).wf(),
            final(self)@ == old(self)@.remove(token@),
            result == (if old(self)@.dom().contains(token@) {
                Ok::<(), ApiError>(())
            } else {
                Err::<(), ApiError>(ApiError::GenericInvalidRequest)
            }),
    {
        match self.remove(token) {
            Some(_) => Ok(()),
            None => Err(ApiError::GenericInvalidRequest),
        }
    }

    /// The records of experience `experience_id`, for a caller that
    /// presents the privileged key; any other caller is refused as
    /// `InvalidApiKey`.
    pub fn get_experience_servers(
        &self,
        presented: Option<&String>,
        privileged_key: &String,
        experience_id: u64,
    ) -> (result: Result<Vec<&Server>, ApiError>)
        ensures
            match result {
                Ok(found) => is_privileged(presented, privileged_key) && found@.map_values(
                    |s: &Server| *s,
                ) == self.servers@.filter(|s: Server| s.experience.id == experience_id),
                Err(error) => !is_privileged(presented, privileged_key) && error
                    == ApiError::InvalidApiKey,
            },
    {
        match check_privileged(presented, privileged_key) {
            Ok(()) => Ok(self.of_experience(experience_id)),
            Err(error) => Err(error),
        }
    }

    /// The records of experience `experience_id`, in registry order.
    pub fn of_experience(&self, experience_id: u64) -> (found: Vec<&Server>)
        ensures
            found@.map_values(|s: &Server| *s) == self.servers@.filter(
                |s: Server| s.experience.id == experience_id,
            ),
    {
        let mut found: Vec<&Server> = Vec::new();
        let ghost of_experience = |s: Server| s.experience.id == experience_id;
        let mut i: usize = 0;
        proof {
            reveal(Seq::filter);
            assert(self.servers@.take(0).filter(of_experience) =~= Seq::<Server>::empty());
        }
        while i < self.servers.len()
            invariant
                i <= self.servers@.len(),
                of_experience == |s: Server| s.experience.id == experience_id,
                found@.map_values(|s: &Server| *s) =~= self.servers@.take(i as int).filter(
                    of_experience,
                ),
            decreases self.servers@.len() - i,
        {
            proof {
                reveal(Seq::filter);
                assert(self.servers@.take(i + 1).drop_last() =~= self.servers@.take(i as int));
                assert(self.servers@.take(i + 1).last() == self.servers@[i as int]);
            }
            if self.servers[i].experience.id == experience_id {
                found.push(&self.servers[i]);
            }
            i += 1;
        }
        assert(self.servers@.take(i as int) =~= self.servers@);
        found
    }
}

/// Replacing one record by another with the same token keeps the tokens and
/// overwrites that token's entry.
proof fn lemma_record_replaced(before: Seq<Server>, after: Seq<Server>, i: int)
    requires
        tokens_of(before).no_duplicates(),
        0 <= i < before.len(),
        after == before.update(i, after[i]),
        after[i].connection_token@ == before[i].connection_token@,
    ensures
        tokens_of(after) == tokens_of(before),
        keyed(tokens_of(after), after) == keyed(tokens_of(before), before).insert(
            before[i].connection_token@,
            after[i],
        ),
{
    assert(tokens_of(after) =~= tokens_of(before));
    lemma_keyed_update(tokens_of(before), before, i, after[i]);
}

/// What one sweep at `now` owes the record `before`, which stood under
/// `token`, read off the registry `after` the sweep: a record whose ping
/// went unanswered for a full period is gone; one that was idle for a full
/// period now waits on a fresh ping sent at `now`, and is otherwise as it
/// was; any other record is untouched.
pub open spec fn sweep_outcome(
    before: Server,
    token: Seq<char>,
    now: Timestamp,
    after: Map<Seq<char>, Server>,
) -> bool {
    match before.spec_due(now) {
        Due::Evict => !after.dom().contains(token),
        Due::Wait => after.dom().contains(token) && after[token] == before,
        Due::Ping => after.dom().contains(token) && after[token].ack_token.is_some() && is_token(
            after[token].ack_token.unwrap()@,
        ) && after[token] == before.pinged(after[token].ack_token.unwrap(), now),
    }
}

/// Whether the key that a caller presented is the privileged key.
pub open spec fn is_privileged(presented: Option<&String>, privileged_key: &String) -> bool {
    presented.is_some() && presented.unwrap()@ == privileged_key@
}

/// Admits a caller that presented the privileged key, and nobody else.
pub fn check_privileged(presented: Option<&String>, privileged_key: &String) -> (result: Result<
    (),
    ApiError,
>)
    ensures
        result == (if is_privileged(presented, privileged_key) {
            Ok::<(), ApiError>(())
        } else {
            Err::<(), ApiError>(ApiError::InvalidApiKey)
        }),
{
    match presented {
        Some(key) => {
            if *key == *privileged_key {
                Ok(())
            } else {
                Err(ApiError::InvalidApiKey)
            }
        },
        None => Err(ApiError::InvalidApiKey),
    }
}

/// `publish` is the ping that the record `before` waits on in the registry
/// `after`.
pub open spec fn carries_ping_of(
    publish: Publish,
    before: Server,
    after: Map<Seq<char>, Server>,
) -> bool {
    after.dom().contains(before.connection_token@) && after[before.connection_token@].is_ping(
        publish,
    )
}

/// The test for a record that a sweep at `now` pings.
pub open spec fn is_due_a_ping(now: Timestamp) -> spec_fn(Server) -> bool {
    |s: Server| s.spec_due(now) == Due::Ping
}

/// The record at `a` is one that a sweep at `now` evicts, and `token` is
/// its token.
spec fn evicts_at(before: Seq<Server>, now: Timestamp, a: int, token: Seq<char>) -> bool {
    &&& 0 <= a < before.len()
    &&& before[a].spec_due(now) == Due::Evict
    &&& before[a].connection_token@ == token
}

/// The record at `a` is one that a sweep at `now` pings, and `publish` is
/// its ping.
spec fn pings_at(
    before: Seq<Server>,
    after: Seq<Server>,
    now: Timestamp,
    a: int,
    publish: Publish,
) -> bool {
    &&& 0 <= a < before.len()
    &&& before[a].spec_due(now) == Due::Ping
    &&& after[a].is_ping(publish)
}

/// The record `after` is what the first pass of a sweep at `now` makes of
/// `before`.
spec fn ticked(before: Server, after: Server, now: Timestamp) -> bool {
    if before.spec_due(now) == Due::Ping {
        after.ack_token.is_some() && is_token(after.ack_token.unwrap()@) && after == before.pinged(
            after.ack_token.unwrap(),
            now,
        )
    } else {
        after == before
    }
}

impl Registry {
    /// `after` and `result` are what a request for the action list under
    /// `token` makes of this registry: an unknown token is refused as
    /// `GenericInvalidRequest`, a record that had its list already as
    /// `TooManyRequests`, both without effect; otherwise the record is
    /// marked and the id of its experience is returned.
    pub open spec fn actions_step(
        &self,
        after: Registry,
        token: Seq<char>,
        result: Result<u64, ApiError>,
    ) -> bool {
        &&& after.wf()
        &&& !self@.dom().contains(token) ==> result == Err::<u64, ApiError>(
            ApiError::GenericInvalidRequest,
        ) && after.servers@ == self.servers@
        &&& self@.dom().contains(token) && self@[token].has_requested_actions ==> result == Err::<
            u64,
            ApiError,
        >(ApiError::TooManyRequests) && after.servers@ == self.servers@
        &&& self@.dom().contains(token) && !self@[token].has_requested_actions ==> result == Ok::<
            u64,
            ApiError,
        >(self@[token].experience.id) && after@ == self@.insert(
            token,
            (Server { has_requested_actions: true, ..self@[token] }),
        )
    }

    /// `after` and `result` are what an acknowledgement `body` under
    /// `token` at `now` makes of this registry: if `body` is the token of
    /// the record's outstanding ping, the ping is cleared and the record's
    /// last acknowledgement is `now`; anything else is refused as
    /// `GenericInvalidRequest` and changes nothing.
    pub open spec fn ack_step(
        &self,
        after: Registry,
        token: Seq<char>,
        body: Seq<char>,
        now: Timestamp,
        result: Result<(), ApiError>,
    ) -> bool {
        &&& after.wf()
        &&& self@.dom().contains(token) && self@[token].answers_ping(body) ==> result == Ok::<
            (),
            ApiError,
        >(()) && after@ == self@.insert(token, self@[token].acknowledged(now))
        &&& !(self@.dom().contains(token) && self@[token].answers_ping(body)) ==> result == Err::<
            (),
            ApiError,
        >(ApiError::GenericInvalidRequest) && after.servers@ == self.servers@
    }

    /// The records that a sweep at `now` pings, in registry order.
    pub open spec fn due_a_ping(&self, now: Timestamp) -> Seq<Server> {
        self.servers@.filter(is_due_a_ping(now))
    }

    /// `after` and `pings` are what one sweep at `now` makes of this
    /// registry: no record is added; each record fares as `sweep_outcome`
    /// says; `pings` holds one message for each record that was due a ping,
    /// in registry order, and each is the ping that its record now waits
    /// on.
    pub open spec fn sweep_step(&self, after: Registry, now: Timestamp, pings: Seq<Publish>) -> bool {
        &&& after.wf()
        &&& forall|t: Seq<char>| #[trigger] after@.dom().contains(t) ==> self@.dom().contains(t)
        &&& forall|t: Seq<char>| #[trigger]
            self@.dom().contains(t) ==> sweep_outcome(self@[t], t, now, after@)
        &&& pings.len() == self.due_a_ping(now).len()
        &&& forall|j: int|
            0 <= j < pings.len() ==> carries_ping_of(
                #[trigger] pings[j],
                self.due_a_ping(now)[j],
                after@,
            )
        &&& forall|t: Seq<char>|
            #![trigger self@.dom().contains(t)]
            self@.dom().contains(t) && self@[t].spec_due(now) == Due::Ping ==> exists|j: int|
                #![trigger pings[j]]
                0 <= j < pings.len() && after@[t].is_ping(pings[j])
    }

    /// One pass of the failure detector at the present instant: reads the
    /// clock and sweeps as [`Registry::sweep_at`] does.
    pub fn sweep(&mut self) -> (pings: Vec<Publish>)
        requires
            old(self).wf(),
        ensures
            exists|now: Timestamp| old(self).sweep_step(*final(self), now, pings@),
    {
        let now = current_time();
        self.sweep_at(now)
    }

    /// One pass of the failure detector at `now`. Every record that has been
    /// idle for a full period gets a fresh ping token, and the message that
    /// carries it is handed back for publishing; every record whose ping has
    /// been unanswered for a full period is evicted. The returned messages
    /// are the pings of this pass, in registry order.
    pub fn sweep_at(&mut self, now: Timestamp) -> (pings: Vec<Publish>)
        requires
            old(self).wf(),
        ensures
            old(self).sweep_step(*final(self), now, pings@),
    {
        let ghost before = self.servers@;
        let mut pings: Vec<Publish> = Vec::new();
        let mut evicted: Vec<String> = Vec::new();
        // Witnesses: where each eviction and each ping came from, and where
        // each record's eviction or ping went.
        let ghost mut evicted_from: Seq<int> = Seq::empty();
        let ghost mut evicted_as: Seq<int> = Seq::empty();
        let ghost mut pinged_from: Seq<int> = Seq::empty();
        let ghost mut pinged_as: Seq<int> = Seq::empty();
        let ghost due = is_due_a_ping(now);
        let mut i: usize = 0;
        proof {
            reveal(Seq::filter);
            assert(before.take(0).filter(due) =~= Seq::<Server>::empty());
        }
        while i < self.servers.len()
            invariant
                i <= self.servers@.len(),
                self.servers@.len() == before.len(),
                tokens_of(self.servers@) == tokens_of(before),
                forall|a: int| i <= a < before.len() ==> self.servers@[a] == before[a],
                forall|a: int| 0 <= a < i ==> ticked(#[trigger] before[a], self.servers@[a], now),
                evicted_from.len() == evicted@.len(),
                evicted_as.len() == i,
                pinged_from.len() == pings@.len(),
                pinged_as.len() == i,
                due == is_due_a_ping(now),
                before.take(i as int).filter(due).len() == pings@.len(),
                forall|j: int|
                    0 <= j < pings@.len() ==> before.take(i as int).filter(due)[j] == before[(
                    #[trigger] pinged_from[j])],
                forall|b: int|
                    0 <= b < evicted@.len() ==> evicts_at(
                        before,
                        now,
                        #[trigger] evicted_from[b],
                        evicted@[b]@,
                    ) && evicted_from[b] < i,
                forall|a: int|
                    0 <= a < i && before[a].spec_due(now) == Due::Evict ==> 0 <= (
                    #[trigger] evicted_as[a]) < evicted@.len() && evicted@[evicted_as[a]]@
                        == before[a].connection_token@,
                forall|j: int|
                    0 <= j < pings@.len() ==> pings_at(
                        before,
                        self.servers@,
                        now,
                        #[trigger] pinged_from[j],
                        pings@[j],
                    ) && pinged_from[j] < i,
                forall|a: int|
                    0 <= a < i && before[a].spec_due(now) == Due::Ping ==> 0 <= (
                    #[trigger] pinged_as[a]) < pings@.len() && self.servers@[a].is_ping(
                        pings@[pinged_as[a]],
                    ),
            decreases self.servers@.len() - i,
        {
            proof {
                reveal(Seq::filter);
                assert(before.take(i + 1).drop_last() =~= before.take(i as int));
                assert(before.take(i + 1).last() == before[i as int]);
            }
            match self.servers[i].due(now) {
                Due::Wait => {
                    proof {
                        evicted_as = evicted_as.push(0);
                        pinged_as = pinged_as.push(0);
                    }
                },
                Due::Evict => {
                    evicted.push(self.servers[i].connection_token.clone());
                    proof {
                        evicted_from = evicted_from.push(i as int);
                        evicted_as = evicted_as.push(evicted@.len() - 1);
                        pinged_as = pinged_as.push(0);
                    }
                },
                Due::Ping => {
                    let token = random_token();
                    let publish = self.servers[i].mark_pinged(token, now);
                    pings.push(publish);
                    proof {
                        assert(tokens_of(self.servers@) =~= tokens_of(before));
                        evicted_as = evicted_as.push(0);
                        pinged_from = pinged_from.push(i as int);
                        pinged_as = pinged_as.push(pings@.len() - 1);
                    }
                },
            }
            i += 1;
        }
        let ghost middle = *self;
        proof {
            lemma_keyed_entries(tokens_of(before), before);
            lemma_keyed_entries(self.tokens(), self.servers@);
        }
        let mut k: usize = 0;
        while k < evicted.len()
            invariant
                k <= evicted@.len(),
                self.wf(),
                forall|t: Seq<char>|
                    #![trigger self@.dom().contains(t)]
                    self@.dom().contains(t) <==> middle@.dom().contains(t) && forall|b: int|
                        #![trigger evicted@[b]]
                        0 <= b < k ==> evicted@[b]@ != t,
                forall|t: Seq<char>| #[trigger] self@.dom().contains(t) ==> self@[t] == middle@[t],
            decreases evicted@.len() - k,
        {
            self.remove(&evicted[k]);
            k += 1;
        }
        proof {
            assert forall|t: Seq<char>| #[trigger]
                old(self)@.dom().contains(t) implies sweep_outcome(
                old(self)@[t],
                t,
                now,
                self@,
            ) && (old(self)@[t].spec_due(now) == Due::Ping ==> exists|j: int|
                #![trigger pings@[j]]
                0 <= j < pings@.len() && self@[t].is_ping(pings@[j])) by {
                let a = tokens_of(before).index_of(t);
                assert(0 <= a < before.len() && tokens_of(before)[a] == t);
                assert(middle.tokens()[a] == t);
                assert(ticked(before[a], middle.servers@[a], now));
                if before[a].spec_due(now) == Due::Evict {
                    assert(evicted@[evicted_as[a]]@ == t);
                } else {
                    assert forall|b: int| 0 <= b < evicted@.len() implies (
                    #[trigger] evicted@[b])@ != t by {
                        let a2 = evicted_from[b];
                        if evicted@[b]@ == t {
                            assert(tokens_of(before)[a2] == tokens_of(before)[a]);
                        }
                    }
                    assert(self@.dom().contains(t));
                    if before[a].spec_due(now) == Due::Ping {
                        assert(self@[t].is_ping(pings@[pinged_as[a]]));
                    }
                }
            }
            assert(before.take(i as int) =~= before);
            assert forall|j: int| 0 <= j < pings@.len() implies carries_ping_of(
                #[trigger] pings@[j],
                old(self).due_a_ping(now)[j],
                self@,
            ) by {
                let a = pinged_from[j];
                let t = before[a].connection_token@;
                assert(pings_at(before, middle.servers@, now, a, pings@[j]));
                assert(tokens_of(before)[a] == t);
                assert(middle.tokens()[a] == t);
                assert(old(self)@.dom().contains(t));
                assert(old(self)@[t] == before[a]);
                assert(old(self).due_a_ping(now)[j] == before[a]);
                assert(sweep_outcome(old(self)@[t], t, now, self@));
                assert(self@.dom().contains(t));
            }
        }
        pings
    }
}

} // verus!
