use vstd::prelude::*;
use vstd::string::StringExecFns;

use crate::world::EntityId;

verus! {

pub type ClientSessionId = u32;

/// Lifecycle of one connected client: it starts nameless and, once it has
/// picked a name, carries its readiness flag and (while a round is running)
/// its attached entity.
#[derive(Debug, Clone, PartialEq)]
pub enum ClientSessionState {
    JustConnected,
    NameWasSet { name: String, ready_to_start: bool, entity_player_id: Option<EntityId> },
}

/// Per-connection record reachable by the router while it processes that
/// session's requests.
#[derive(Debug, Clone, PartialEq)]
pub struct ClientSessionData {
    pub state: ClientSessionState,
    pub points: u32,
}

/// A session that disconnected, reported to the registry's single consumer.
#[derive(Debug, Clone, Copy, PartialEq, Eq, Structural)]
pub struct ClientSessionDisconnectEvent {
    pub id: ClientSessionId,
}

impl Default for ClientSessionState {
    fn default() -> (r: Self)
        ensures
            r == ClientSessionState::JustConnected,
    {
        Self::JustConnected
    }
}

impl Default for ClientSessionData {
    fn default() -> (r: Self)
        ensures
            r == (ClientSessionData { state: ClientSessionState::JustConnected, points: 0 }),
    {
        Self { state: ClientSessionState::JustConnected, points: 0 }
    }
}

impl ClientSessionData {
    /// The attached entity, if a round is running and this session has one.
    pub open spec fn spec_entity_player_id(self) -> Option<EntityId> {
        match self.state {
            ClientSessionState::JustConnected => None,
            ClientSessionState::NameWasSet { entity_player_id, .. } => entity_player_id,
        }
    }

    /// The session's chosen name, once one was set.
    pub open spec fn spec_name(self) -> Option<Seq<char>> {
        match self.state {
            ClientSessionState::JustConnected => None,
            ClientSessionState::NameWasSet { name, .. } => Some(name@),
        }
    }

    pub fn get_entity_player_id(&self) -> (r: Option<EntityId>)
        ensures
            r == self.spec_entity_player_id(),
    {
        match &self.state {
            ClientSessionState::JustConnected => None,
            ClientSessionState::NameWasSet { name: _, ready_to_start: _, entity_player_id } => {
                *entity_player_id
            },
        }
    }

    pub fn get_name(&self) -> (r: Option<&str>)
        ensures
            match r {
                Some(n) => self.spec_name() == Some(n@),
                None => self.spec_name() is None,
            },
    {
        match &self.state {
            ClientSessionState::JustConnected => None,
            ClientSessionState::NameWasSet { name, ready_to_start: _, entity_player_id: _ } => {
                Some(name.as_str())
            },
        }
    }

    /// A deep copy whose fields provably equal the original's.
    pub fn duplicate(&self) -> (r: ClientSessionData)
        ensures
            r.points == self.points,
            r.spec_name() == self.spec_name(),
            r.spec_entity_player_id() == self.spec_entity_player_id(),
            (self.state matches ClientSessionState::JustConnected) == (r.state
                matches ClientSessionState::JustConnected),
            match (self.state, r.state) {
                (
                    ClientSessionState::NameWasSet { name, ready_to_start, entity_player_id },
                    ClientSessionState::NameWasSet {
                        name: name2,
                        ready_to_start: ready2,
                        entity_player_id: ent2,
                    },
                ) => name2@ == name@ && ready2 == ready_to_start && ent2 == entity_player_id,
                (ClientSessionState::JustConnected, ClientSessionState::JustConnected) => true,
                _ => false,
            },
    {
        let state = match &self.state {
            ClientSessionState::JustConnected => ClientSessionState::JustConnected,
            ClientSessionState::NameWasSet { name, ready_to_start, entity_player_id } => {
                ClientSessionState::NameWasSet {
                    name: String::from_str(name.as_str()),
                    ready_to_start: *ready_to_start,
                    entity_player_id: *entity_player_id,
                }
            },
        };
        ClientSessionData { state, points: self.points }
    }
}

} // verus!
