use crate::clock::{current_time, Timestamp};
use crate::error::{ApiError, ApiResult};
use crate::model::{Experience, PendingConnection, Publish, Server};
use crate::pending::PendingStore;
use crate::registry::Registry;
use crate::token::{is_token, random_token};
use vstd::prelude::*;

verus! {

/// Everything the broker knows: the live servers and the registrations that
/// wait for verification.
pub struct AppState {
    pub servers: Registry,
    pub pending_connections: PendingStore,
}

/// The connection token that a request presented, or the refusal that its
/// absence earns.
pub fn get_token_from_request(header: Option<String>) -> (result: ApiResult<String>)
    ensures
        result == (match header {
            Some(token) => Ok::<String, ApiError>(token),
            None => Err::<String, ApiError>(ApiError::InvalidApiKey),
        }),
{
    match header {
        Some(token) => Ok(token),
        None => Err(ApiError::InvalidApiKey),
    }
}

/// The place id that a request presented, or the refusal that its absence
/// earns.
pub fn get_place_id_from_request(header: Option<u64>) -> (result: ApiResult<u64>)
    ensures
        result == (match header {
            Some(place_id) => Ok::<u64, ApiError>(place_id),
            None => Err::<u64, ApiError>(ApiError::MissingHeaders),
        }),
{
    match header {
        Some(place_id) => Ok(place_id),
        None => Err(ApiError::MissingHeaders),
    }
}

impl AppState {
    /// Both stores are well formed, and no token is pending and live at
    /// once.
    pub open spec fn wf(&self) -> bool {
        &&& self.servers.wf()
        &&& self.pending_connections.wf()
        &&& forall|t: Seq<char>|
            !(#[trigger] self.servers@.dom().contains(t) && self.pending_connections@.dom().contains(
                t,
            ))
    }

    /// Whether `token` is in use, pending or live.
    pub open spec fn knows(&self, token: Seq<char>) -> bool {
        self.servers@.dom().contains(token) || self.pending_connections@.dom().contains(token)
    }

    pub fn new() -> (state: AppState)
        ensures
            state.wf(),
            state.servers@ == Map::<Seq<char>, Server>::empty(),
            state.pending_connections@ == Map::<Seq<char>, PendingConnection>::empty(),
    {
        AppState { servers: Registry::new(), pending_connections: PendingStore::new() }
    }

    /// `after` and `result` are what the first phase of the handshake, with
    /// `connection_token` as the token drawn, makes of this state. Without a
    /// resolved experience the request is refused as `InvalidApiKey`,
    /// without a place id as `MissingHeaders`, and with a token that is
    /// already pending or live as `InternalError`; a refusal changes
    /// nothing. Otherwise the registration is pending under the token, and
    /// the result is the message that carries the token on the topic
    /// `secret_topic` followed by `0`. The registry is never touched.
    pub open spec fn begin_step(
        &self,
        after: AppState,
        experience: Option<Experience>,
        place_id: Option<u64>,
        server_id: u128,
        secret_topic: String,
        connection_token: String,
        result: ApiResult<Publish>,
    ) -> bool {
        &&& after.wf()
        &&& after.servers == self.servers
        &&& experience.is_none() ==> result == Err::<Publish, ApiError>(ApiError::InvalidApiKey)
        &&& experience.is_some() && place_id.is_none() ==> result == Err::<Publish, ApiError>(
            ApiError::MissingHeaders,
        )
        &&& experience.is_some() && place_id.is_some() && self.knows(connection_token@)
            ==> result == Err::<Publish, ApiError>(ApiError::InternalError)
        &&& result.is_err() ==> after.pending_connections.entries@
            == self.pending_connections.entries@
        &&& experience.is_some() && place_id.is_some() && !self.knows(connection_token@) ==> {
            let entry = PendingConnection {
                place_id: place_id.unwrap(),
                server_id,
                experience: experience.unwrap(),
                secret_topic,
                connection_token,
            };
            &&& result.is_ok()
            &&& entry.is_invitation(result.unwrap())
            &&& after.pending_connections@ == self.pending_connections@.insert(
                connection_token@,
                entry,
            )
        }
    }

    /// The first phase of the handshake, with the connection token given.
    ///
    /// Without a resolved experience the request is refused as
    /// `InvalidApiKey`, without a place id as `MissingHeaders`, and with a
    /// token that is already in use as `InternalError`; a refusal changes
    /// nothing. Otherwise the registration is stored under the token, and
    /// the message that carries the token to the server is handed back.
    pub fn create_server_with_token(
        &mut self,
        experience: Option<Experience>,
        place_id: Option<u64>,
        server_id: u128,
        secret_topic: String,
        connection_token: String,
    ) -> (result: ApiResult<Publish>)
        requires
            old(self).wf(),
        ensures
            old(self).begin_step(
                *final(self),
                experience,
                place_id,
                server_id,
                secret_topic,
                connection_token,
                result,
            ),
    {
        let experience = match experience {
            Some(experience) => experience,
            None => {
                return Err(ApiError::InvalidApiKey);
            },
        };
        let place_id = match get_place_id_from_request(place_id) {
            Ok(place_id) => place_id,
            Err(error) => {
                return Err(error);
            },
        };
        if self.servers.contains(&connection_token) {
            return Err(ApiError::InternalError);
        }
        let entry = PendingConnection {
            place_id,
            server_id,
            experience,
            secret_topic,
            connection_token,
        };
        let publish = entry.invitation();
        match self.pending_connections.put(entry) {
            Ok(()) => Ok(publish),
            Err(error) => Err(error),
        }
    }

    /// The first phase of the handshake: draws a fresh connection token and
    /// registers the request under it.
    ///
    /// Whatever token is drawn, it has 64 alphanumeric characters, and the
    /// outcome is that of [`AppState::create_server_with_token`] with that
    /// token.
    pub fn create_server(
        &mut self,
        experience: Option<Experience>,
        place_id: Option<u64>,
        server_id: u128,
        secret_topic: String,
    ) -> (result: ApiResult<Publish>)
        requires
            old(self).wf(),
        ensures
            exists|connection_token: String|
                is_token(connection_token@) && old(self).begin_step(
                    *final(self),
                    experience,
                    place_id,
                    server_id,
                    secret_topic,
                    connection_token,
                    result,
                ),
    {
        let connection_token = random_token();
        self.create_server_with_token(experience, place_id, server_id, secret_topic, connection_token)
    }

    /// `after` and `result` are what a verification of `token` makes of
    /// this state: a token that is not pending is refused as
    /// `GenericInvalidRequest` and changes nothing; otherwise the
    /// registration leaves the pending store and its record, with no
    /// players and no action list requested, enters the registry under the
    /// same token.
    pub open spec fn verify_step(
        &self,
        after: AppState,
        token: Seq<char>,
        place_id: u64,
        place_version: u64,
        private_server_id: String,
        country: Option<String>,
        now: Timestamp,
        result: ApiResult<()>,
    ) -> bool {
        &&& after.wf()
        &&& !self.pending_connections@.dom().contains(token) ==> result == Err::<(), ApiError>(
            ApiError::GenericInvalidRequest,
        ) && after.servers == self.servers && after.pending_connections@
            == self.pending_connections@
        &&& self.pending_connections@.dom().contains(token) ==> result == Ok::<(), ApiError>(())
            && after.pending_connections@ == self.pending_connections@.remove(token)
            && after.servers@.dom().contains(token) && after.servers@[token].is_promotion_of(
            self.pending_connections@[token],
            place_id,
            place_version,
            private_server_id,
            country,
            now,
        ) && after.servers@ == self.servers@.insert(token, after.servers@[token])
    }

    /// The second phase of the handshake, at the present instant: reads the
    /// clock and verifies as [`AppState::verify_server_at`] does.
    pub fn verify_server(
        &mut self,
        token: &String,
        place_id: u64,
        place_version: u64,
        private_server_id: String,
        country: Option<String>,
    ) -> (result: ApiResult<()>)
        requires
            old(self).wf(),
        ensures
            exists|now: Timestamp|
                old(self).verify_step(
                    *final(self),
                    token@,
                    place_id,
                    place_version,
                    private_server_id,
                    country,
                    now,
                    result,
                ),
    {
        let now = current_time();
        self.verify_server_at(token, place_id, place_version, private_server_id, country, now)
    }

    /// The second phase of the handshake: promotes the registration under
    /// `token` to a live server, with `now` as the time of verification.
    ///
    /// A token that is not pending (never issued, or verified before) is
    /// refused as `GenericInvalidRequest` and changes nothing. Otherwise the
    /// registration leaves the pending store and its record enters the
    /// registry under the same token, with the place id that the caller
    /// presented.
    pub fn verify_server_at(
        &mut self,
        token: &String,
        place_id: u64,
        place_version: u64,
        private_server_id: String,
        country: Option<String>,
        now: Timestamp,
    ) -> (result: ApiResult<()>)
        requires
            old(self).wf(),
        ensures
            old(self).verify_step(
                *final(self),
                token@,
                place_id,
                place_version,
                private_server_id,
                country,
                now,
                result,
            ),
    {
        match self.pending_connections.take(token) {
            Some(pending) => {
                let server = Server::promote(
                    pending,
                    place_id,
                    place_version,
                    private_server_id,
                    country,
                    now,
                );
                self.servers.insert(server);
                Ok(())
            },
            None => {
                assert(self.pending_connections@ =~= old(self).pending_connections@);
                Err(ApiError::GenericInvalidRequest)
            },
        }
    }
}

} // verus!
