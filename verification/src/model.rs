use crate::clock::Timestamp;
use crate::error::ApiError;
use std::collections::HashMap;
use vstd::prelude::*;
use vstd::string::StringExecFns;

verus! {

/// The owner of a connection: a numeric id and the credential with which
/// messages are published to its servers.
#[derive(Debug)]
pub struct Experience {
    pub id: u64,
    pub open_cloud_api_key: String,
}

/// An action that an experience has configured for its servers.
#[derive(Debug)]
pub struct ExperienceServerAction {
    pub id: String,
}

/// One seated player.
#[derive(Debug)]
pub struct ServerPlayer {
    pub id: u64,
    pub name: String,
    pub username: String,
    pub has_verified_badge: bool,
    pub joined_at: Timestamp,
    pub joined_via_user: u64,
}

/// A registration that has begun and is not verified yet.
#[derive(Debug)]
pub struct PendingConnection {
    pub place_id: u64,
    pub server_id: u128,
    pub experience: Experience,
    pub secret_topic: String,
    pub connection_token: String,
}

/// A verified, live server.
#[derive(Debug)]
pub struct Server {
    pub id: u128,
    pub country: Option<String>,
    pub place_id: u64,
    pub place_version: u64,
    pub private_server_id: Option<String>,
    pub has_requested_actions: bool,
    pub created_at: Timestamp,
    pub players: HashMap<u64, ServerPlayer>,
    pub experience: Experience,
    pub connection_token: String,
    /// The ping that waits for its acknowledgement, if any.
    pub ack_token: Option<String>,
    pub last_ack_at: Timestamp,
    pub last_ack_sent_at: Timestamp,
    pub secret_topic: String,
}

/// A message to deliver over the out-of-band channel.
#[derive(Debug)]
pub struct Publish {
    pub experience_id: u64,
    pub api_key: String,
    pub topic: String,
    pub message: String,
}

/// What the failure detector owes a record at some instant.
#[derive(Clone, Copy, Debug, PartialEq, Eq, Structural)]
pub enum Due {
    /// Nothing: the record is fresh, or its ping is still young.
    Wait,
    /// The record has been idle for a full period: ping it.
    Ping,
    /// Its ping went unanswered for a full period: evict it.
    Evict,
}

/// Topic on which actions are broadcast to every server of an experience.
pub open spec fn global_topic() -> Seq<char> {
    "koko_global_0"@
}

impl Experience {
    pub fn duplicate(&self) -> (copy: Experience)
        ensures
            copy == *self,
    {
        Experience { id: self.id, open_cloud_api_key: self.open_cloud_api_key.clone() }
    }

    /// The message that broadcasts `action_id` to every server of this
    /// experience.
    pub fn trigger_action(&self, action_id: String) -> (publish: Publish)
        ensures
            publish.experience_id == self.id,
            publish.api_key == self.open_cloud_api_key,
            publish.topic@ == global_topic(),
            publish.message == action_id,
    {
        Publish {
            experience_id: self.id,
            api_key: self.open_cloud_api_key.clone(),
            topic: "koko_global_0".to_string(),
            message: action_id,
        }
    }
}

impl ServerPlayer {
    /// The player who introduced this one; 0 stands for nobody.
    pub fn joined_via_user(&self) -> (referrer: Option<u64>)
        ensures
            referrer == (if self.joined_via_user == 0 {
                None
            } else {
                Some(self.joined_via_user)
            }),
    {
        if self.joined_via_user == 0 {
            None
        } else {
            Some(self.joined_via_user)
        }
    }
}

/// `topic` followed by the channel digit `digit`.
pub fn channel_topic(topic: &String, digit: &str) -> (full: String)
    ensures
        full@ == topic@ + digit@,
{
    let mut full = topic.clone();
    full.append(digit);
    full
}

impl PendingConnection {
    /// The message that carries the connection token to the server: topic
    /// `secret_topic` followed by `0`.
    pub open spec fn is_invitation(&self, publish: Publish) -> bool {
        &&& publish.experience_id == self.experience.id
        &&& publish.api_key == self.experience.open_cloud_api_key
        &&& publish.topic@ == self.secret_topic@ + seq!['0']
        &&& publish.message == self.connection_token
    }

    pub fn invitation(&self) -> (publish: Publish)
        ensures
            self.is_invitation(publish),
    {
        proof {
            reveal_strlit("0");
            assert("0"@ =~= seq!['0']);
        }
        Publish {
            experience_id: self.experience.id,
            api_key: self.experience.open_cloud_api_key.clone(),
            topic: channel_topic(&self.secret_topic, "0"),
            message: self.connection_token.clone(),
        }
    }
}

impl Server {
    /// `self` is the record that verification makes of `pending`: no
    /// players, no action list requested, no ping outstanding, both
    /// heartbeat times at `now`, and an empty private-server id read as
    /// none.
    pub open spec fn is_promotion_of(
        &self,
        pending: PendingConnection,
        place_id: u64,
        place_version: u64,
        private_server_id: String,
        country: Option<String>,
        now: Timestamp,
    ) -> bool {
        &&& self.id == pending.server_id
        &&& self.country == country
        &&& self.place_id == place_id
        &&& self.place_version == place_version
        &&& self.private_server_id == (if private_server_id@.len() == 0 {
            None
        } else {
            Some(private_server_id)
        })
        &&& !self.has_requested_actions
        &&& self.created_at == now
        &&& self.players@ == Map::<u64, ServerPlayer>::empty()
        &&& self.experience == pending.experience
        &&& self.connection_token == pending.connection_token
        &&& self.ack_token.is_none()
        &&& self.last_ack_at == now
        &&& self.last_ack_sent_at == now
        &&& self.secret_topic == pending.secret_topic
    }

    pub fn promote(
        pending: PendingConnection,
        place_id: u64,
        place_version: u64,
        private_server_id: String,
        country: Option<String>,
        now: Timestamp,
    ) -> (server: Server)
        ensures
            server.is_promotion_of(pending, place_id, place_version, private_server_id, country, now),
    {
        let private: Option<String> = if private_server_id.as_str().is_empty() {
            None
        } else {
            Some(private_server_id)
        };
        Server {
            id: pending.server_id,
            country,
            place_id,
            place_version,
            private_server_id: private,
            has_requested_actions: false,
            created_at: now,
            players: HashMap::new(),
            experience: pending.experience,
            connection_token: pending.connection_token,
            ack_token: None,
            last_ack_at: now,
            last_ack_sent_at: now,
            secret_topic: pending.secret_topic,
        }
    }

    /// The failure detector's decision for this record at `now`.
    pub open spec fn spec_due(&self, now: Timestamp) -> Due {
        if self.ack_token.is_some() {
            if now.spec_period_elapsed_since(self.last_ack_sent_at) {
                Due::Evict
            } else {
                Due::Wait
            }
        } else if now.spec_period_elapsed_since(self.last_ack_at) {
            Due::Ping
        } else {
            Due::Wait
        }
    }

    pub fn due(&self, now: Timestamp) -> (due: Due)
        ensures
            due == self.spec_due(now),
    {
        if self.ack_token.is_some() {
            if now.period_elapsed_since(&self.last_ack_sent_at) {
                Due::Evict
            } else {
                Due::Wait
            }
        } else if now.period_elapsed_since(&self.last_ack_at) {
            Due::Ping
        } else {
            Due::Wait
        }
    }

    /// The record after a ping with `token` went out at `now`.
    pub open spec fn pinged(self, token: String, now: Timestamp) -> Server {
        Server { ack_token: Some(token), last_ack_sent_at: now, ..self }
    }

    /// The record after its outstanding ping was acknowledged at `now`.
    pub open spec fn acknowledged(self, now: Timestamp) -> Server {
        Server { ack_token: None, last_ack_at: now, ..self }
    }

    /// Whether `body` answers the outstanding ping.
    pub open spec fn answers_ping(&self, body: Seq<char>) -> bool {
        self.ack_token.is_some() && self.ack_token.unwrap()@ == body
    }

    /// The message that carries this record's outstanding ping: topic
    /// `secret_topic` followed by `1`.
    pub open spec fn is_ping(&self, publish: Publish) -> bool {
        &&& publish.experience_id == self.experience.id
        &&& publish.api_key == self.experience.open_cloud_api_key
        &&& publish.topic@ == self.secret_topic@ + seq!['1']
        &&& Some(publish.message) == self.ack_token
    }

    /// Records that a ping with `token` goes out at `now`, and hands back
    /// the message to publish.
    pub fn mark_pinged(&mut self, token: String, now: Timestamp) -> (publish: Publish)
        ensures
            *final(self) == old(self).pinged(token, now),
            final(self).is_ping(publish),
    {
        proof {
            reveal_strlit("1");
            assert("1"@ =~= seq!['1']);
        }
        let publish = Publish {
            experience_id: self.experience.id,
            api_key: self.experience.open_cloud_api_key.clone(),
            topic: channel_topic(&self.secret_topic, "1"),
            message: token.clone(),
        };
        self.ack_token = Some(token);
        self.last_ack_sent_at = now;
        publish
    }

    /// Accepts `body` as the answer to the outstanding ping, if it is the
    /// ping's token; anything else leaves the record as it was.
    pub fn acknowledge(&mut self, body: &String, now: Timestamp) -> (result: Result<(), ApiError>)
        ensures
            old(self).answers_ping(body@) ==> result == Ok::<(), ApiError>(()) && *final(self)
                == old(self).acknowledged(now),
            !old(self).answers_ping(body@) ==> result == Err::<(), ApiError>(
                ApiError::GenericInvalidRequest,
            ) && *final(self) == *old(self),
    {
        let matches = match &self.ack_token {
            Some(token) => *token == *body,
            None => false,
        };
        if matches {
            self.ack_token = None;
            self.last_ack_at = now;
            Ok(())
        } else {
            Err(ApiError::GenericInvalidRequest)
        }
    }

    /// Grants the action list once: the first call returns the id of the
    /// experience whose actions are to be fetched, every later one fails.
    pub fn request_actions(&mut self) -> (result: Result<u64, ApiError>)
        ensures
            !old(self).has_requested_actions ==> result == Ok::<u64, ApiError>(
                old(self).experience.id,
            ) && *final(self) == (Server { has_requested_actions: true, ..*old(self) }),
            old(self).has_requested_actions ==> result == Err::<u64, ApiError>(
                ApiError::TooManyRequests,
            ) && *final(self) == *old(self),
    {
        if self.has_requested_actions {
            return Err(ApiError::TooManyRequests);
        }
        self.has_requested_actions = true;
        Ok(self.experience.id)
    }
}

} // verus!
