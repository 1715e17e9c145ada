use vstd::prelude::*;
use vstd::string::StringExecFns;

use crate::math::Vector2Fx;
use crate::session::{ClientSessionData, ClientSessionId};
use crate::world::{Entity, EntityController, EntityId, PlayerRole, World};

verus! {

/// The four one-tile movement directions a client may request.
#[derive(Debug, Clone, Copy, PartialEq, Eq, Structural)]
pub enum MoveDirection {
    Up,
    Down,
    Left,
    Right,
}

/// How a finished round went, with the points awarded to the winners.
#[derive(Debug, Clone, Copy, PartialEq, Eq, Structural)]
pub enum GameplayResult {
    SeekerWin { reward: u32 },
    HidersWin { reward: u32 },
}

/// The gameplay state as reported to clients: the running variant hides the
/// world payload.
#[derive(Debug, Clone, Copy, PartialEq, Eq, Structural)]
pub enum GameplayStateBrief {
    Lobby { counting_to_start: Option<u32>, last_result: Option<GameplayResult> },
    GameRunning,
    Ending { countdown: u32, result: GameplayResult },
}

/// Outcome of an uncover attempt: nothing when the target was out of range,
/// otherwise whether the target was a hider (rather than an NPC).
#[derive(Debug, Clone, Copy, PartialEq, Eq, Structural)]
pub struct UncoverResult {
    pub was_hider: Option<bool>,
}

impl UncoverResult {
    pub fn was_in_range(&self) -> (r: bool)
        ensures
            r == (self.was_hider is Some),
    {
        self.was_hider.is_some()
    }
}

/// Why a requested name was rejected.
#[derive(Debug, Clone, Copy, PartialEq, Eq, Structural)]
pub enum SetNameError {
    NameEmpty,
    NameAlreadyUsed,
    NameGenerateExhausted,
}

/// One decoded client request.
#[derive(Debug, PartialEq)]
pub enum ClientRequest {
    Ping { payload: Option<String> },
    SendChatMessage { msg: String },
    ReadChatMessages { max_count: Option<usize> },
    GetClientSessionId,
    GetClientSessionData,
    GetPointsCount,
    SetName { new_name: Option<String> },
    SetReady { ready: bool },
    GetEntityId,
    WorldCheck,
    ServerCheck,
    CheckGameplayState,
    Move { dir: MoveDirection },
    GetRole,
    GetStartCountdownTime,
    TryUncover { id: EntityId },
}

/// Read-only snapshot of one entity, as reported by a world check.
#[derive(Debug, PartialEq)]
pub struct EntityCheckData {
    pub position: Vector2Fx,
    pub size: Vector2Fx,
    pub color: [u8; 3],
    pub id: EntityId,
    pub name: String,
    pub is_npc: bool,
}

/// The single response a request yields.
#[derive(Debug, PartialEq)]
pub enum ClientResponse {
    Ping { payload: Option<String> },
    SendChatMessage { sent: bool },
    ReadChatMessages { results: Vec<String> },
    GetClientSessionId { id: ClientSessionId },
    GetClientSessionData { data: ClientSessionData },
    GetPointsCount { points_count: u32 },
    SetName { result: Result<(), SetNameError> },
    SetReady { was_set: bool },
    GetEntityId { id: Option<EntityId> },
    WorldCheck { entities: Vec<EntityCheckData> },
    ServerCheck { msg: String, connections: usize },
    CheckGameplayState { state: GameplayStateBrief },
    BadRequest { err: String },
    BadState,
    EntityNotPlayer { id: EntityId },
    EntityNotFound { id: EntityId },
    OtherError { err: String },
    Move { started: bool },
    GetRole { role: PlayerRole },
    GetStartCountdownTime { time: Option<u32> },
    TryUncover { uncover_result: UncoverResult },
}

/// The snapshot record reports exactly this entity.
pub open spec fn entity_check_matches(c: EntityCheckData, e: Entity) -> bool {
    &&& c.position == e.position
    &&& c.size == e.size
    &&& c.color == e.color
    &&& c.id == e.id
    &&& c.name@ == e.name@
    &&& c.is_npc == !(e.controller matches EntityController::Player(_))
}

impl EntityCheckData {
    /// Snapshot every entity of the world, in entity-list order.
    pub fn vec_from_world(world: &World) -> (r: Vec<EntityCheckData>)
        ensures
            r@.len() == world.entities@.len(),
            forall|i: int|
                0 <= i < r@.len() ==> entity_check_matches(
                    #[trigger] r@[i],
                    world.entities@[i],
                ),
    {
        let mut result: Vec<EntityCheckData> = Vec::new();
        let n = world.entities.len();
        let mut i: usize = 0;
        while i < n
            invariant
                n == world.entities@.len(),
                i <= n,
                result@.len() == i,
                forall|j: int|
                    0 <= j < i ==> entity_check_matches(
                        #[trigger] result@[j],
                        world.entities@[j],
                    ),
            decreases n - i,
        {
            let e = &world.entities[i];
            let is_player = e.is_player();
            result.push(
                EntityCheckData {
                    name: String::from_str(e.name.as_str()),
                    id: e.id,
                    color: e.color,
                    position: e.position,
                    is_npc: !is_player,
                    size: e.size,
                },
            );
            i += 1;
        }
        result
    }
}

} // verus!
