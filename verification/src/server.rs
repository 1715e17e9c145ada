use vstd::prelude::*;

use crate::chat::ChatMessage;
use crate::requests::GameplayResult;
use crate::math::{Vector2Fx, Vector2X};
use crate::session::{ClientSessionData, ClientSessionId, ClientSessionState};
use crate::world::{
    aligned_vec, create_pos_ok, entity_size, get_tiled_value, hiders_of, in_tile_window,
    is_seeker_entity, seeker_of, spec_tiles_positions, Entity, EntityId, World, WorldError,
    TILE_SIZE,
};
use vstd::string::StringExecFns;

verus! {

/// Sessions needed in the lobby before a round may start.
pub const CLIENTS_REQUIRED_TO_START: usize = 2;

/// Length of the lobby countdown once everyone is ready, in ticks.
pub const TICKS_TO_COUNTDOWN: u32 = 10;

/// Length of the ending phase, in ticks.
pub const ENDING_COUNTDOWN: u32 = 100;

/// Points awarded to the hiders when they win.
pub const SMALL_HIDERS_REWARD: u32 = 5;

/// Points awarded to the seeker when it wins.
pub const SMALL_SEEKER_REWARD: u32 = 5;

#[derive(Debug, Clone, Copy, PartialEq, Eq, Structural)]
pub enum StartGameError {
    NoFreeTiles,
    WorldErrorHappen(WorldError),
}

#[derive(Debug, Clone, Copy, PartialEq, Eq, Structural)]
pub enum GameplayStateTransitionError {
    BadState,
    AlreadyInState,
}

/// The round lifecycle: a lobby (possibly counting down to a start), a
/// running round that owns the only world, or the ending display phase.
/// Exactly one variant is active; the validated transition operations are
/// the only way to change it.
#[derive(Debug)]
pub enum GameplayState {
    Lobby { counting_to_start: Option<u32>, last_result: Option<GameplayResult> },
    GameRunning { world: World },
    Ending { countdown: u32, result: GameplayResult },
}

impl Default for GameplayState {
    fn default() -> (r: Self)
        ensures
            r == (GameplayState::Lobby { counting_to_start: None, last_result: None }),
    {
        Self::Lobby { counting_to_start: None, last_result: None }
    }
}

impl GameplayState {
    pub open spec fn wf(self) -> bool {
        match self {
            GameplayState::GameRunning { world } => world.wf(),
            _ => true,
        }
    }

    /// Start a round: only allowed from the lobby; the running state gets a
    /// fresh, empty world.
    pub fn try_transition_from_lobby_to_gamerunning(&mut self) -> (r: Result<
        (),
        GameplayStateTransitionError,
    >)
        ensures
            match *old(self) {
                GameplayState::Lobby { .. } => r == Ok::<(), GameplayStateTransitionError>(())
                    && (*final(self) matches GameplayState::GameRunning { world }
                    && world.new_entity_id == 0 && world.entities@.len() == 0 && world.wf()),
                GameplayState::GameRunning { .. } => r == Err::<(), GameplayStateTransitionError>(
                    GameplayStateTransitionError::AlreadyInState,
                ) && *final(self) == *old(self),
                GameplayState::Ending { .. } => r == Err::<(), GameplayStateTransitionError>(
                    GameplayStateTransitionError::BadState,
                ) && *final(self) == *old(self),
            },
    {
        match &*self {
            GameplayState::Lobby { .. } => {
                *self = GameplayState::GameRunning { world: World::new() };
                Ok(())
            },
            GameplayState::GameRunning { .. } => Err(GameplayStateTransitionError::AlreadyInState),
            GameplayState::Ending { .. } => Err(GameplayStateTransitionError::BadState),
        }
    }

    /// End a running round with its result; the ending countdown starts
    /// full.
    pub fn try_transition_from_gamerunning_to_ending(&mut self, result: GameplayResult) -> (r:
        Result<(), GameplayStateTransitionError>)
        ensures
            match *old(self) {
                GameplayState::Lobby { .. } => r == Err::<(), GameplayStateTransitionError>(
                    GameplayStateTransitionError::BadState,
                ) && *final(self) == *old(self),
                GameplayState::GameRunning { .. } => r == Ok::<(), GameplayStateTransitionError>(())
                    && *final(self) == (GameplayState::Ending {
                    countdown: ENDING_COUNTDOWN,
                    result,
                }),
                GameplayState::Ending { .. } => r == Err::<(), GameplayStateTransitionError>(
                    GameplayStateTransitionError::AlreadyInState,
                ) && *final(self) == *old(self),
            },
    {
        match &*self {
            GameplayState::Lobby { .. } => Err(GameplayStateTransitionError::BadState),
            GameplayState::GameRunning { .. } => {
                *self = GameplayState::Ending { countdown: ENDING_COUNTDOWN, result };
                Ok(())
            },
            GameplayState::Ending { .. } => Err(GameplayStateTransitionError::AlreadyInState),
        }
    }

    /// Return to the lobby after the ending phase, keeping the result for
    /// one lobby period.
    pub fn try_transition_from_ending_to_lobby(&mut self) -> (r: Result<
        (),
        GameplayStateTransitionError,
    >)
        ensures
            match *old(self) {
                GameplayState::Lobby { .. } => r == Err::<(), GameplayStateTransitionError>(
                    GameplayStateTransitionError::AlreadyInState,
                ) && *final(self) == *old(self),
                GameplayState::GameRunning { .. } => r == Err::<(), GameplayStateTransitionError>(
                    GameplayStateTransitionError::BadState,
                ) && *final(self) == *old(self),
                GameplayState::Ending { countdown: _, result } => r == Ok::<
                    (),
                    GameplayStateTransitionError,
                >(()) && *final(self) == (GameplayState::Lobby {
                    counting_to_start: None,
                    last_result: Some(result),
                }),
            },
    {
        match &*self {
            GameplayState::Lobby { .. } => Err(GameplayStateTransitionError::AlreadyInState),
            GameplayState::GameRunning { .. } => Err(GameplayStateTransitionError::BadState),
            GameplayState::Ending { countdown: _, result } => {
                let result = *result;
                *self = GameplayState::Lobby { counting_to_start: None, last_result: Some(result) };
                Ok(())
            },
        }
    }

    /// Escape hatch for recovering from a failure in the middle of a round
    /// start: drop whatever state is held and return to an empty lobby.
    pub fn unexpected_transition_to_lobby(&mut self)
        ensures
            *final(self) == (GameplayState::Lobby { counting_to_start: None, last_result: None }),
    {
        *self = GameplayState::Lobby { counting_to_start: None, last_result: None };
    }
}

/// Win-condition evaluation: the hiders win as soon as there is no seeker
/// or the seeker has run out of failures or time; the seeker wins once no
/// hider is covered any more; otherwise the round goes on.
pub open spec fn spec_check_gameplay_result(w: World) -> Option<GameplayResult> {
    match seeker_of(w.entities@) {
        Some((id, stats)) => {
            if stats.remaining_failures == 0 || stats.remaining_ticks == 0 {
                Some(GameplayResult::HidersWin { reward: SMALL_HIDERS_REWARD })
            } else {
                if forall|i: int|
                    0 <= i < hiders_of(w.entities@).len() ==> !(#[trigger] hiders_of(
                        w.entities@,
                    )[i]).1.covered {
                    Some(GameplayResult::SeekerWin { reward: SMALL_SEEKER_REWARD })
                } else {
                    None
                }
            }
        },
        None => Some(GameplayResult::HidersWin { reward: SMALL_HIDERS_REWARD }),
    }
}

/// Evaluate the win condition of a running world.
pub fn check_gameplay_result(world: &World) -> (r: Option<GameplayResult>)
    ensures
        r == spec_check_gameplay_result(*world),
{
    let summary = world.get_seeker_hiders_summary();

    let seeker_gone_result = match summary.seeker {
        Some((_, seeker_stats)) => {
            if seeker_stats.remaining_failures == 0 || seeker_stats.remaining_ticks == 0 {
                Some(GameplayResult::HidersWin { reward: SMALL_HIDERS_REWARD })
            } else {
                None
            }
        },
        None => Some(GameplayResult::HidersWin { reward: SMALL_HIDERS_REWARD }),
    };

    if seeker_gone_result.is_some() {
        return seeker_gone_result;
    }

    let n = summary.hiders.len();
    let mut i: usize = 0;
    while i < n
        invariant
            n == summary.hiders@.len(),
            i <= n,
            summary.hiders@ == hiders_of(world.entities@),
            summary.seeker == seeker_of(world.entities@),
            seeker_of(world.entities@) matches Some((sid, stats)) && stats.remaining_failures
                > 0 && stats.remaining_ticks > 0,
            forall|j: int| 0 <= j < i ==> !(#[trigger] summary.hiders@[j]).1.covered,
        decreases n - i,
    {
        let (_, h) = summary.hiders[i];
        if h.covered {
            proof {
                assert(hiders_of(world.entities@)[i as int].1.covered);
            }
            return None;
        }
        i += 1;
    }
    proof {
        assert forall|k: int|
            0 <= k < hiders_of(world.entities@).len() implies !(#[trigger] hiders_of(
            world.entities@,
        )[k]).1.covered by {
            assert(!summary.hiders@[k].1.covered);
        }
    }
    Some(GameplayResult::SeekerWin { reward: SMALL_SEEKER_REWARD })
}

/// One registry entry: a session id with that session's data.
#[derive(Debug)]
pub struct ClientSessionRecord {
    pub id: ClientSessionId,
    pub data: ClientSessionData,
}

/// The shared state every connection reaches: the session registry, the
/// chat log, and the gameplay state.
#[derive(Debug)]
pub struct MultiplayerServerContext {
    pub client_sessions: Vec<ClientSessionRecord>,
    pub chat: Vec<ChatMessage>,
    pub gameplay_state: GameplayState,
}

pub open spec fn session_ids_unique(s: Seq<ClientSessionRecord>) -> bool {
    forall|i: int, j: int| 0 <= i < j < s.len() ==> s[i].id != s[j].id
}

/// A session counts as ready once it has a name and has toggled readiness
/// on.
pub open spec fn session_is_ready(r: ClientSessionRecord) -> bool {
    match r.data.state {
        ClientSessionState::JustConnected => false,
        ClientSessionState::NameWasSet { ready_to_start, .. } => ready_to_start,
    }
}

pub open spec fn spec_all_ready(s: Seq<ClientSessionRecord>) -> bool {
    forall|i: int| 0 <= i < s.len() ==> session_is_ready(#[trigger] s[i])
}

pub open spec fn spec_name_used(s: Seq<ClientSessionRecord>, name: Seq<char>) -> bool {
    exists|i: int| 0 <= i < s.len() && (#[trigger] s[i]).data.spec_name() == Some(name)
}

/// A session with its readiness cleared and its entity detached; a
/// nameless session is untouched.
pub open spec fn session_detached(before: ClientSessionRecord, after: ClientSessionRecord) -> bool {
    &&& after.id == before.id
    &&& after.data.points == before.data.points
    &&& match before.data.state {
        ClientSessionState::JustConnected => after.data == before.data,
        ClientSessionState::NameWasSet { name, .. } => after.data.state
            matches ClientSessionState::NameWasSet {
            name: n2,
            ready_to_start: false,
            entity_player_id: None,
        } && n2 == name,
    }
}

impl MultiplayerServerContext {
    pub open spec fn wf(self) -> bool {
        &&& session_ids_unique(self.client_sessions@)
        &&& self.gameplay_state.wf()
    }

    /// A fresh context: no sessions, an empty chat log, and the lobby.
    pub fn new() -> (r: Self)
        ensures
            r.client_sessions@.len() == 0,
            r.chat@.len() == 0,
            r.gameplay_state == (GameplayState::Lobby {
                counting_to_start: None,
                last_result: None,
            }),
            r.wf(),
    {
        MultiplayerServerContext {
            client_sessions: Vec::new(),
            chat: Vec::new(),
            gameplay_state: GameplayState::Lobby { counting_to_start: None, last_result: None },
        }
    }

    pub(crate) fn find_session_index(&self, id: ClientSessionId) -> (r: Option<usize>)
        ensures
            match r {
                Some(i) => i < self.client_sessions@.len() && self.client_sessions@[i as int].id
                    == id,
                None => forall|i: int|
                    0 <= i < self.client_sessions@.len()
                        ==> (#[trigger] self.client_sessions@[i]).id != id,
            },
    {
        let n = self.client_sessions.len();
        let mut i: usize = 0;
        while i < n
            invariant
                n == self.client_sessions@.len(),
                i <= n,
                forall|j: int| 0 <= j < i ==> (#[trigger] self.client_sessions@[j]).id != id,
            decreases n - i,
        {
            if self.client_sessions[i].id == id {
                return Some(i);
            }
            i += 1;
        }
        None
    }

    /// Admit a new connection under a fresh session id.
    pub fn register_session(&mut self, id: ClientSessionId)
        requires
            old(self).wf(),
            forall|i: int|
                0 <= i < old(self).client_sessions@.len()
                    ==> (#[trigger] old(self).client_sessions@[i]).id != id,
        ensures
            final(self).client_sessions@ == old(self).client_sessions@.push(
                ClientSessionRecord {
                    id,
                    data: ClientSessionData {
                        state: ClientSessionState::JustConnected,
                        points: 0,
                    },
                },
            ),
            final(self).chat == old(self).chat,
            final(self).gameplay_state == old(self).gameplay_state,
            final(self).wf(),
    {
        self.client_sessions.push(
            ClientSessionRecord {
                id,
                data: ClientSessionData { state: ClientSessionState::JustConnected, points: 0 },
            },
        );
    }

    /// Remove a disconnected session from the registry; says whether it was
    /// present.
    pub fn remove_session(&mut self, id: ClientSessionId) -> (r: bool)
        requires
            old(self).wf(),
        ensures
            r == exists|i: int|
                0 <= i < old(self).client_sessions@.len()
                    && (#[trigger] old(self).client_sessions@[i]).id == id,
            r ==> exists|i: int|
                0 <= i < old(self).client_sessions@.len()
                    && (#[trigger] old(self).client_sessions@[i]).id == id
                    && final(self).client_sessions@ == old(self).client_sessions@.remove(i),
            !r ==> final(self).client_sessions@ == old(self).client_sessions@,
            final(self).chat == old(self).chat,
            final(self).gameplay_state == old(self).gameplay_state,
            final(self).wf(),
    {
        match self.find_session_index(id) {
            Some(i) => {
                let _ = self.client_sessions.remove(i);
                true
            },
            None => false,
        }
    }

    pub fn get_connections_count(&self) -> (r: usize)
        ensures
            r == self.client_sessions@.len(),
    {
        self.client_sessions.len()
    }

    /// Every registered session is ready (vacuously true with none).
    pub fn are_all_clients_ready(&self) -> (r: bool)
        ensures
            r == spec_all_ready(self.client_sessions@),
    {
        let n = self.client_sessions.len();
        let mut i: usize = 0;
        while i < n
            invariant
                n == self.client_sessions@.len(),
                i <= n,
                forall|j: int| 0 <= j < i ==> session_is_ready(#[trigger] self.client_sessions@[j]),
            decreases n - i,
        {
            let ready = match &self.client_sessions[i].data.state {
                ClientSessionState::JustConnected => false,
                ClientSessionState::NameWasSet { name: _, ready_to_start, entity_player_id: _ } => {
                    *ready_to_start
                },
            };
            if !ready {
                return false;
            }
            i += 1;
        }
        true
    }

    /// Some registered session already picked this name.
    pub fn is_name_used(&self, name: &str) -> (r: bool)
        ensures
            r == spec_name_used(self.client_sessions@, name@),
    {
        let n = self.client_sessions.len();
        let mut i: usize = 0;
        while i < n
            invariant
                n == self.client_sessions@.len(),
                i <= n,
                forall|j: int|
                    0 <= j < i ==> (#[trigger] self.client_sessions@[j]).data.spec_name() != Some(
                        name@,
                    ),
            decreases n - i,
        {
            match self.client_sessions[i].data.get_name() {
                Some(existing) => {
                    if crate::text::str_eq(existing, name) {
                        return true;
                    }
                },
                None => {},
            }
            i += 1;
        }
        false
    }

    /// Append one message to the chat log.
    pub fn push_chat_message(&mut self, message: ChatMessage)
        ensures
            final(self).chat@ == old(self).chat@.push(message),
            final(self).client_sessions == old(self).client_sessions,
            final(self).gameplay_state == old(self).gameplay_state,
    {
        self.chat.push(message);
    }

    /// Clear every session's readiness and detach its entity; used when a
    /// round ends.
    pub fn detach_entities_from_clients(&mut self)
        ensures
            final(self).client_sessions@.len() == old(self).client_sessions@.len(),
            forall|i: int|
                0 <= i < old(self).client_sessions@.len() ==> session_detached(
                    old(self).client_sessions@[i],
                    #[trigger] final(self).client_sessions@[i],
                ),
            final(self).chat == old(self).chat,
            final(self).gameplay_state == old(self).gameplay_state,
            old(self).wf() ==> final(self).wf(),
    {
        let n = self.client_sessions.len();
        let mut i: usize = 0;
        while i < n
            invariant
                n == self.client_sessions@.len(),
                i <= n,
                self.chat == old(self).chat,
                self.gameplay_state == old(self).gameplay_state,
                forall|j: int|
                    0 <= j < i ==> session_detached(
                        old(self).client_sessions@[j],
                        #[trigger] self.client_sessions@[j],
                    ),
                forall|j: int|
                    i <= j < n ==> self.client_sessions@[j] == #[trigger] old(self).client_sessions@[j],
            decreases n - i,
        {
            let record = &mut self.client_sessions[i];
            match &mut record.data.state {
                ClientSessionState::JustConnected => {},
                ClientSessionState::NameWasSet { name: _, ready_to_start, entity_player_id } => {
                    *ready_to_start = false;
                    *entity_player_id = None;
                },
            }
            i += 1;
        }
        proof {
            assert forall|i: int, j: int|
                0 <= i < j < self.client_sessions@.len() implies self.client_sessions@[i].id
                != self.client_sessions@[j].id || !old(self).wf() by {
                if old(self).wf() {
                    assert(session_detached(
                        old(self).client_sessions@[i],
                        self.client_sessions@[i],
                    ));
                    assert(session_detached(
                        old(self).client_sessions@[j],
                        self.client_sessions@[j],
                    ));
                }
            }
        }
    }
}


// ---------------------------------------------------------------------------
// Round generation
// ---------------------------------------------------------------------------
/// Radius factor of the generated play field, in tiles per hider.
pub const MAPSIZE_GENERATION_FACTOR: usize = 3;

/// NPCs spawned per hider, as camouflage.
pub const NPCS_PER_HIDER: usize = 2;

/// Ticks the seeker gets to find everyone.
pub const SEEKING_MAX_TIME: u32 = 2000;

/// Failed uncover attempts the seeker is allowed.
pub const SEEKING_MAX_TRIES: usize = 3;

/// Centre of the generated play field.
pub open spec fn origin_vec() -> Vector2Fx {
    Vector2X { x: 0i64, y: 0i64 }
}

/// Radius of the play field generated for this many sessions: three tiles
/// per hider (one hider per session beyond the seeker), at least three
/// tiles.
pub open spec fn spec_generation_range(session_count: int) -> int {
    (if session_count - 1 < 1 {
        1int
    } else {
        session_count - 1
    }) * (MAPSIZE_GENERATION_FACTOR as int) * (TILE_SIZE as int)
}

/// The world holds a player entity under this id.
pub open spec fn has_player_entity(w: World, eid: EntityId) -> bool {
    exists|k: int|
        0 <= k < w.entities@.len() && (#[trigger] w.entities@[k]).id == eid
            && w.entities@[k].spec_role() is Some
}

/// A player entity stays present under any change that keeps the stored
/// ids and never strips an entity of its player role.
pub proof fn lemma_has_player_entity_stable(w1: World, w2: World, eid: EntityId)
    requires
        has_player_entity(w1, eid),
        w1.entities@.len() <= w2.entities@.len(),
        forall|i: int| 0 <= i < w1.entities@.len() ==> w2.entities@[i].id == w1.entities@[i].id,
        forall|i: int|
            0 <= i < w1.entities@.len() && (#[trigger] w1.entities@[i]).spec_role() is Some
                ==> w2.entities@[i].spec_role() is Some,
    ensures
        has_player_entity(w2, eid),
{
    let k = choose|k: int|
        0 <= k < w1.entities@.len() && (#[trigger] w1.entities@[k]).id == eid
            && w1.entities@[k].spec_role() is Some;
    assert(w2.entities@[k].id == eid && w2.entities@[k].spec_role() is Some);
}

/// A session after round generation: a named session is no longer ready and
/// carries a player entity of the new world; a nameless one is untouched.
pub open spec fn session_assigned(
    before: ClientSessionRecord,
    after: ClientSessionRecord,
    w: World,
) -> bool {
    &&& after.id == before.id
    &&& after.data.points == before.data.points
    &&& match before.data.state {
        ClientSessionState::JustConnected => after.data == before.data,
        ClientSessionState::NameWasSet { name, .. } => after.data.state
            matches ClientSessionState::NameWasSet {
            name: n2,
            ready_to_start: false,
            entity_player_id: Some(eid),
        } && n2 == name && has_player_entity(w, eid),
    }
}

impl MultiplayerServerContext {
    /// Placeholder for generated scenery and obstacles.
    fn generate_world(_world: &mut World, _generation_range: i64) -> (r: Result<
        (),
        StartGameError,
    >)
        ensures
            *final(_world) == *old(_world),
            r == Ok::<(), StartGameError>(()),
    {
        Ok(())
    }

    /// Give every named session a player entity on a free tile drawn
    /// without replacement, and make one randomly chosen session's entity
    /// the seeker. Fails when the free tiles cannot cover every session.
    fn assign_world_entities_to_clients(
        world: &mut World,
        sessions: &mut Vec<ClientSessionRecord>,
        generation_range: i64,
    ) -> (r: Result<(), StartGameError>)
        requires
            old(world).wf(),
            old(world).entities@.len() == 0,
            old(world).new_entity_id == 0,
            0 < generation_range <= 20_000_000,
            1 <= old(sessions)@.len() <= 100_000,
            session_ids_unique(old(sessions)@),
        ensures
            final(sessions)@.len() == old(sessions)@.len(),
            forall|s: int|
                0 <= s < old(sessions)@.len() ==> (#[trigger] final(sessions)@[s]).id == old(sessions)@[s].id,
            final(world).wf(),
            final(world).new_entity_id as int <= old(sessions)@.len(),
            final(world).entities@.len() <= old(sessions)@.len(),
            forall|i: int|
                0 <= i < final(world).entities@.len() ==> (#[trigger] final(world).entities@[i]).state
                    is Idle,
            match r {
                Ok(()) => spec_tiles_positions(
                    old(world).entities@,
                    origin_vec(),
                    generation_range as int,
                    true,
                ).len() > old(sessions)@.len() && forall|s: int|
                    0 <= s < old(sessions)@.len() ==> session_assigned(
                        old(sessions)@[s],
                        #[trigger] final(sessions)@[s],
                        *final(world),
                    ),
                Err(StartGameError::NoFreeTiles) => spec_tiles_positions(
                    old(world).entities@,
                    origin_vec(),
                    generation_range as int,
                    true,
                ).len() <= old(sessions)@.len() && *final(world) == *old(world) && *final(sessions)
                    == *old(sessions),
                Err(_) => false,
            },
    {
        let sessions_count = sessions.len();
        let seeker_idx = crate::randomness::random_u64_in(0, sessions_count as u64) as usize;
        let seeker_client_id = sessions[seeker_idx].id;

        let free_tiles = world.get_free_tiles_positions(Vector2X::zero(), generation_range);

        if free_tiles.len() <= sessions_count {
            return Err(StartGameError::NoFreeTiles);
        }
        let initial_positions = crate::randomness::choose_multiple_positions(
            &free_tiles,
            sessions_count,
        );
        proof {
            crate::randomness::lemma_picked_sample_props(free_tiles@, initial_positions@);
            assert forall|k: int|
                0 <= k < initial_positions@.len() implies create_pos_ok(
                #[trigger] initial_positions@[k],
            ) by {
                assert(free_tiles@.contains(initial_positions@[k]));
                let j = choose|j: int|
                    0 <= j < free_tiles@.len() && free_tiles@[j] == initial_positions@[k];
                assert(in_tile_window(origin_vec(), generation_range as int, free_tiles@[j]));
            }
        }
        let ghost mut seeker_done: bool = false;

        let mut pos_i: usize = 0;
        let mut s: usize = 0;
        while s < sessions_count
            invariant
                sessions_count == sessions@.len(),
                sessions@.len() == old(sessions)@.len(),
                sessions_count <= 100_000,
                s <= sessions_count,
                pos_i <= s,
                initial_positions@.len() == sessions_count,
                forall|k: int|
                    0 <= k < initial_positions@.len() ==> create_pos_ok(
                        #[trigger] initial_positions@[k],
                    ),
                world.wf(),
                world.new_entity_id as int == pos_i as int,
                world.entities@.len() == pos_i as int,
                forall|i: int|
                    0 <= i < world.entities@.len() ==> (#[trigger] world.entities@[i]).state
                        is Idle,
                forall|j: int| s <= j < sessions_count ==> sessions@[j] == old(sessions)@[j],
                forall|j: int|
                    0 <= j < s ==> session_assigned(
                        old(sessions)@[j],
                        #[trigger] sessions@[j],
                        *world,
                    ),
                session_ids_unique(old(sessions)@),
                seeker_idx < sessions_count,
                seeker_client_id == old(sessions)@[seeker_idx as int].id,
                !seeker_done ==> forall|i: int|
                    0 <= i < world.entities@.len() ==> !is_seeker_entity(
                        #[trigger] world.entities@[i],
                    ),
                seeker_done ==> exists|j: int|
                    0 <= j < s && #[trigger] old(sessions)@[j].id == seeker_client_id,
            decreases sessions_count - s,
        {
            let maybe_name: Option<String> = match &sessions[s].data.state {
                ClientSessionState::JustConnected => None,
                ClientSessionState::NameWasSet { name, ready_to_start: _, entity_player_id: _ } => {
                    Some(String::from_str(name.as_str()))
                },
            };
            match maybe_name {
                None => {
                    proof {
                        assert(session_assigned(old(sessions)@[s as int], sessions@[s as int], *world));
                    }
                },
                Some(player_name) => {
                    let ghost w_before = *world;
                    let intial_position = initial_positions[pos_i];
                    pos_i += 1;
                    let assigned_id = world.create_entity_player(
                        player_name.as_str(),
                        intial_position,
                        entity_size(),
                    );
                    {
                        let rec = &mut sessions[s];
                        match &mut rec.data.state {
                            ClientSessionState::JustConnected => {},
                            ClientSessionState::NameWasSet {
                                name: _,
                                ready_to_start,
                                entity_player_id,
                            } => {
                                *ready_to_start = false;
                                *entity_player_id = Some(assigned_id);
                            },
                        }
                    }
                    let this_id = sessions[s].id;
                    let ghost w_mid = *world;
                    proof {
                        assert(w_mid.entities@[w_mid.entities@.len() - 1].id == assigned_id);
                        assert(has_player_entity(w_mid, assigned_id));
                        assert forall|j: int|
                            0 <= j < s implies session_assigned(
                            old(sessions)@[j],
                            #[trigger] sessions@[j],
                            w_mid,
                        ) by {
                            assert(session_assigned(old(sessions)@[j], sessions@[j], w_before));
                            match old(sessions)@[j].data.state {
                                ClientSessionState::JustConnected => {},
                                ClientSessionState::NameWasSet { .. } => {
                                    let eid = sessions@[j].data.spec_entity_player_id()->0;
                                    lemma_has_player_entity_stable(w_before, w_mid, eid);
                                },
                            }
                        }
                    }
                    if seeker_client_id == this_id {
                        proof {
                            if seeker_done {
                                let j = choose|j: int|
                                    0 <= j < s && #[trigger] old(sessions)@[j].id
                                        == seeker_client_id;
                                assert(old(sessions)@[j].id == old(sessions)@[s as int].id);
                                assert(false);
                            }
                        }
                        let res = world.select_entity_as_seeker(
                            assigned_id,
                            SEEKING_MAX_TIME,
                            SEEKING_MAX_TRIES,
                        );
                        proof {
                            seeker_done = true;
                        }
                        match res {
                            Ok(()) => {
                                proof {
                                    lemma_has_player_entity_stable(w_mid, *world, assigned_id);
                                    assert forall|j: int|
                                        0 <= j < s implies session_assigned(
                                        old(sessions)@[j],
                                        #[trigger] sessions@[j],
                                        *world,
                                    ) by {
                                        assert(session_assigned(
                                            old(sessions)@[j],
                                            sessions@[j],
                                            w_mid,
                                        ));
                                        match old(sessions)@[j].data.state {
                                            ClientSessionState::JustConnected => {},
                                            ClientSessionState::NameWasSet { .. } => {
                                                let eid = sessions@[
                                                    j
                                                ].data.spec_entity_player_id()->0;
                                                lemma_has_player_entity_stable(w_mid, *world, eid);
                                            },
                                        }
                                    }
                                }
                            },
                            Err(e) => {
                                proof {
                                    assert(false);
                                }
                                return Err(StartGameError::WorldErrorHappen(e));
                            },
                        }
                    }
                    proof {
                        assert(session_assigned(old(sessions)@[s as int], sessions@[s as int], *world));
                    }
                },
            }
            s += 1;
        }
        Ok(())
    }

    /// Spawn NPCs on free tiles around the origin, two per hider, capped by
    /// availability. Fails when no free tile is left at all.
    fn place_npcs_around_world(
        world: &mut World,
        generation_range: i64,
        hiders_count: usize,
    ) -> (r: Result<(), StartGameError>)
        requires
            old(world).wf(),
            0 < generation_range <= 20_000_000,
            hiders_count <= 100_000,
            old(world).new_entity_id as int + 2 * (hiders_count as int) < u32::MAX as int,
        ensures
            final(world).wf(),
            forall|i: int|
                0 <= i < old(world).entities@.len() ==> final(world).entities@[i] == old(world).entities@[i],
            final(world).entities@.len() >= old(world).entities@.len(),
            match r {
                Ok(()) => ({
                    let free = spec_tiles_positions(
                        old(world).entities@,
                        origin_vec(),
                        generation_range as int,
                        true,
                    );
                    let k = if 2 * (hiders_count as int) <= free.len() {
                        2 * (hiders_count as int)
                    } else {
                        free.len() as int
                    };
                    &&& free.len() > 0
                    &&& final(world).entities@.len() == old(world).entities@.len() + k
                    &&& forall|i: int|
                        old(world).entities@.len() <= i < final(world).entities@.len() ==> (
                        #[trigger] final(world).entities@[i]).spec_role() is None && final(world).entities@[i].name@ == "NPC"@
                            && free.contains(final(world).entities@[i].position)
                    &&& forall|i1: int, i2: int|
                        old(world).entities@.len() <= i1 < i2 < final(world).entities@.len()
                            ==> final(world).entities@[i1].position
                            != final(world).entities@[i2].position
                }),
                Err(StartGameError::NoFreeTiles) => spec_tiles_positions(
                    old(world).entities@,
                    origin_vec(),
                    generation_range as int,
                    true,
                ).len() == 0 && *final(world) == *old(world),
                Err(_) => false,
            },
    {
        let free_tiles = world.get_free_tiles_positions(Vector2X::zero(), generation_range);

        if free_tiles.len() == 0 {
            return Err(StartGameError::NoFreeTiles);
        }
        let expected_npc_count = NPCS_PER_HIDER * hiders_count;
        let nps_count = if expected_npc_count <= free_tiles.len() {
            expected_npc_count
        } else {
            free_tiles.len()
        };

        let npcs_initial_positions = crate::randomness::choose_multiple_positions(
            &free_tiles,
            nps_count,
        );
        proof {
            crate::randomness::lemma_picked_sample_props(free_tiles@, npcs_initial_positions@);
            assert(aligned_vec(origin_vec())) by {
                vstd::arithmetic::div_mod::lemma_mod_multiples_basic(0, 50);
            };
            crate::world::lemma_tiles_positions_no_dup(
                old(world).entities@,
                origin_vec(),
                generation_range as int,
                true,
            );
            assert(npcs_initial_positions@.no_duplicates());
            assert forall|k: int|
                0 <= k < npcs_initial_positions@.len() implies create_pos_ok(
                #[trigger] npcs_initial_positions@[k],
            ) && aligned_vec(npcs_initial_positions@[k]) && free_tiles@.contains(
                npcs_initial_positions@[k],
            ) by {
                assert(free_tiles@.contains(npcs_initial_positions@[k]));
                let j = choose|j: int|
                    0 <= j < free_tiles@.len() && free_tiles@[j] == npcs_initial_positions@[k];
                assert(in_tile_window(origin_vec(), generation_range as int, free_tiles@[j]));
                assert(aligned_vec(free_tiles@[j]));
            }
        }

        let total = npcs_initial_positions.len();
        let mut i: usize = 0;
        while i < total
            invariant
                total == npcs_initial_positions@.len(),
                total as int <= 2 * (hiders_count as int),
                old(world).new_entity_id as int + 2 * (hiders_count as int) < u32::MAX as int,
                i <= total,
                forall|k: int|
                    0 <= k < npcs_initial_positions@.len() ==> create_pos_ok(
                        #[trigger] npcs_initial_positions@[k],
                    ) && aligned_vec(npcs_initial_positions@[k]),
                world.wf(),
                world.new_entity_id as int == old(world).new_entity_id as int + i as int,
                world.entities@.len() == old(world).entities@.len() + i as int,
                forall|j: int|
                    0 <= j < old(world).entities@.len() ==> world.entities@[j] == old(world).entities@[j],
                forall|j: int|
                    old(world).entities@.len() <= j < world.entities@.len() ==> (
                    #[trigger] world.entities@[j]).spec_role() is None && world.entities@[j].name@
                        == "NPC"@ && world.entities@[j].position
                        == npcs_initial_positions@[j - old(world).entities@.len()],
            decreases total - i,
        {
            let initial_position = npcs_initial_positions[i];
            proof {
                assert(crate::world::align_vec(initial_position) == initial_position);
            }
            let _entity_id = world.create_entity_npc("NPC", initial_position, entity_size());
            i += 1;
        }
        proof {
            assert forall|i1: int, i2: int|
                old(world).entities@.len() <= i1 < i2 < world.entities@.len() implies world.entities@[i1].position
                != world.entities@[i2].position by {
                let b = old(world).entities@.len();
                assert(world.entities@[i1].position == npcs_initial_positions@[i1 - b]);
                assert(world.entities@[i2].position == npcs_initial_positions@[i2 - b]);
            }
        }
        Ok(())
    }

    /// Build a fresh round in the (empty) world: place the players, pick a
    /// seeker, and scatter NPCs on distinct free tiles. The start fails,
    /// with everything to be discarded, exactly when the generated play
    /// field does not hold strictly more free tiles than there are
    /// sessions.
    pub fn start_new_game(world: &mut World, sessions: &mut Vec<ClientSessionRecord>) -> (r: Result<
        (),
        StartGameError,
    >)
        requires
            old(world).wf(),
            old(world).entities@.len() == 0,
            old(world).new_entity_id == 0,
            2 <= old(sessions)@.len() <= 100_000,
            session_ids_unique(old(sessions)@),
        ensures
            final(sessions)@.len() == old(sessions)@.len(),
            forall|s: int|
                0 <= s < old(sessions)@.len() ==> (#[trigger] final(sessions)@[s]).id == old(sessions)@[s].id,
            final(world).wf(),
            r is Err <==> spec_tiles_positions(
                Seq::<Entity>::empty(),
                origin_vec(),
                spec_generation_range(old(sessions)@.len() as int),
                true,
            ).len() <= old(sessions)@.len(),
            match r {
                Ok(()) => ({
                    let range = spec_generation_range(old(sessions)@.len() as int);
                    let total = final(world).entities@.len() as int;
                    &&& forall|s: int|
                        0 <= s < old(sessions)@.len() ==> session_assigned(
                            old(sessions)@[s],
                            #[trigger] final(sessions)@[s],
                            *final(world),
                        )
                    &&& exists|m: int|
                        #![trigger final(world).entities@.take(m)]
                        0 <= m <= total && (forall|j: int|
                            m <= j < total ==> (#[trigger] final(world).entities@[j]).spec_role()
                                is None && final(world).entities@[j].name@ == "NPC"@
                                && spec_tiles_positions(
                                final(world).entities@.take(m),
                                origin_vec(),
                                range,
                                true,
                            ).contains(final(world).entities@[j].position)) && (forall|
                            j1: int,
                            j2: int,
                        |
                            m <= j1 < j2 < total ==> final(world).entities@[j1].position
                                != final(world).entities@[j2].position)
                }),
                Err(e) => e == StartGameError::NoFreeTiles,
            },
    {
        let hiders_count = sessions.len() - 1;
        let factor = if hiders_count < 1 {
            1
        } else {
            hiders_count
        };
        let generation_range = get_tiled_value((factor * MAPSIZE_GENERATION_FACTOR) as i64);
        proof {
            let m = factor as int;
            assert(150 <= (m * 3) * 50 <= 14_999_850) by (nonlinear_arith)
                requires
                    1 <= m <= 99_999,
            ;
            assert(generation_range as int == spec_generation_range(old(sessions)@.len() as int));
            assert(old(world).entities@ =~= Seq::<Entity>::empty());
        }

        match Self::generate_world(world, generation_range) {
            Ok(()) => {},
            Err(e) => {
                proof {
                    assert(false);
                }
                return Err(e);
            },
        }

        match Self::assign_world_entities_to_clients(world, sessions, generation_range) {
            Ok(()) => {},
            Err(e) => {
                return Err(e);
            },
        }
        let ghost w_assigned = *world;
        proof {
            assert(old(world).entities@ =~= Seq::<Entity>::empty());
            assert(aligned_vec(origin_vec())) by {
                vstd::arithmetic::div_mod::lemma_mod_multiples_basic(0, 50);
            };
            crate::world::lemma_free_tile_survives(
                w_assigned.entities@,
                origin_vec(),
                generation_range as int,
            );
        }

        match Self::place_npcs_around_world(world, generation_range, hiders_count) {
            Ok(()) => {},
            Err(e) => {
                proof {
                    assert(false);
                }
                return Err(e);
            },
        }
        proof {
            assert forall|s: int|
                0 <= s < old(sessions)@.len() implies session_assigned(
                old(sessions)@[s],
                #[trigger] sessions@[s],
                *world,
            ) by {
                assert(session_assigned(old(sessions)@[s], sessions@[s], w_assigned));
                match old(sessions)@[s].data.state {
                    ClientSessionState::JustConnected => {},
                    ClientSessionState::NameWasSet { .. } => {
                        let eid = sessions@[s].data.spec_entity_player_id()->0;
                        lemma_has_player_entity_stable(w_assigned, *world, eid);
                    },
                }
            }
            let m = w_assigned.entities@.len() as int;
            assert(world.entities@.take(m) =~= w_assigned.entities@);
        }
        Ok(())
    }
}


// ---------------------------------------------------------------------------
// The round driver's step
// ---------------------------------------------------------------------------
/// The next value of the lobby countdown: counting is cancelled as soon as
/// someone is unready or too few sessions remain; otherwise it counts down,
/// and it starts at the full count once everyone is ready.
pub open spec fn spec_lobby_next_counting(
    counting: Option<u32>,
    all_ready: bool,
    enough: bool,
) -> Option<u32> {
    match counting {
        Some(c) => if !all_ready || !enough {
            None
        } else {
            Some((if c > 0 { (c - 1) as u32 } else { 0u32 }))
        },
        None => if all_ready && enough {
            Some(TICKS_TO_COUNTDOWN)
        } else {
            None
        },
    }
}

/// What a round start leaves behind: either a running round whose world
/// carries every named session's fresh entity, or a bare lobby — the
/// latter only when the generated play field does not hold strictly more
/// free tiles than there are sessions.
pub open spec fn round_start_outcome(
    before: MultiplayerServerContext,
    after: MultiplayerServerContext,
) -> bool {
    ||| (spec_tiles_positions(
        Seq::<Entity>::empty(),
        origin_vec(),
        spec_generation_range(before.client_sessions@.len() as int),
        true,
    ).len() <= before.client_sessions@.len() && after.gameplay_state == (GameplayState::Lobby {
        counting_to_start: None,
        last_result: None,
    }))
    ||| (after.gameplay_state matches GameplayState::GameRunning { world } && world.wf() && forall|
        s: int,
    |
        0 <= s < before.client_sessions@.len() ==> session_assigned(
            before.client_sessions@[s],
            #[trigger] after.client_sessions@[s],
            world,
        ))
}

impl MultiplayerServerContext {
    /// One driver tick. In the lobby it manages the start countdown and,
    /// when that expires, generates a round (reverting to the lobby if
    /// generation fails). While a round runs it evaluates the win condition
    /// and either ends the round (detaching every session) or ticks the
    /// world. In the ending phase it counts down and returns to the lobby
    /// when the count expires or every session is gone.
    pub fn main_loop_procedure(&mut self)
        requires
            old(self).wf(),
            old(self).client_sessions@.len() <= 100_000,
        ensures
            final(self).wf(),
            final(self).chat == old(self).chat,
            final(self).client_sessions@.len() == old(self).client_sessions@.len(),
            forall|i: int|
                0 <= i < old(self).client_sessions@.len() ==> (
                #[trigger] final(self).client_sessions@[i]).id == old(self).client_sessions@[i].id,
            match old(self).gameplay_state {
                GameplayState::Lobby { counting_to_start, last_result } => ({
                    let next = spec_lobby_next_counting(
                        counting_to_start,
                        spec_all_ready(old(self).client_sessions@),
                        old(self).client_sessions@.len() >= CLIENTS_REQUIRED_TO_START,
                    );
                    if next == Some(0u32) {
                        round_start_outcome(*old(self), *final(self))
                    } else {
                        final(self).gameplay_state == (GameplayState::Lobby {
                            counting_to_start: next,
                            last_result,
                        }) && final(self).client_sessions == old(self).client_sessions
                    }
                }),
                GameplayState::GameRunning { world } => match spec_check_gameplay_result(world) {
                    Some(result) => final(self).gameplay_state == (GameplayState::Ending {
                        countdown: ENDING_COUNTDOWN,
                        result,
                    }) && forall|i: int|
                        0 <= i < old(self).client_sessions@.len() ==> session_detached(
                            old(self).client_sessions@[i],
                            #[trigger] final(self).client_sessions@[i],
                        ),
                    None => (final(self).gameplay_state matches GameplayState::GameRunning {
                        world: w2,
                    } && w2.new_entity_id == world.new_entity_id && w2.entities@.len()
                        == world.entities@.len() && (forall|i: int|
                        0 <= i < world.entities@.len() ==> crate::world::tick_rel(
                            world.entities@[i],
                            #[trigger] w2.entities@[i],
                            crate::world::occupied_snapshot(world.entities@),
                        ))) && final(self).client_sessions == old(self).client_sessions,
                },
                GameplayState::Ending { countdown, result } => ({
                    let c2 = if countdown > 0 {
                        (countdown - 1) as u32
                    } else {
                        0u32
                    };
                    (if c2 == 0 || old(self).client_sessions@.len() == 0 {
                        final(self).gameplay_state == (GameplayState::Lobby {
                            counting_to_start: None,
                            last_result: Some(result),
                        })
                    } else {
                        final(self).gameplay_state == (GameplayState::Ending {
                            countdown: c2,
                            result,
                        })
                    }) && final(self).client_sessions == old(self).client_sessions
                }),
            },
    {
        let all_ready = self.are_all_clients_ready();
        let enough_clients = self.get_connections_count() >= CLIENTS_REQUIRED_TO_START;

        let mut start_round = false;
        match &self.gameplay_state {
            GameplayState::Lobby { counting_to_start, last_result } => {
                let counting = *counting_to_start;
                let last = *last_result;
                let next = match counting {
                    Some(c) => {
                        if !all_ready || !enough_clients {
                            None
                        } else {
                            Some(if c > 0 { c - 1 } else { 0 })
                        }
                    },
                    None => {
                        if all_ready && enough_clients {
                            Some(TICKS_TO_COUNTDOWN)
                        } else {
                            None
                        }
                    },
                };
                self.gameplay_state = GameplayState::Lobby {
                    counting_to_start: next,
                    last_result: last,
                };
                if let Some(c) = next {
                    if c == 0 {
                        start_round = true;
                    }
                }
            },
            _ => {},
        }
        if start_round {
            let tr = self.gameplay_state.try_transition_from_lobby_to_gamerunning();
            proof {
                assert(tr is Ok);
            }
            let mut failed = false;
            match &mut self.gameplay_state {
                GameplayState::GameRunning { world } => {
                    let res = Self::start_new_game(world, &mut self.client_sessions);
                    if res.is_err() {
                        failed = true;
                    }
                },
                _ => {
                    proof {
                        assert(false);
                    }
                },
            }
            if failed {
                self.gameplay_state.unexpected_transition_to_lobby();
            }
            return ;
        }

        let mut round_result: Option<GameplayResult> = None;
        match &self.gameplay_state {
            GameplayState::GameRunning { world } => {
                round_result = check_gameplay_result(world);
            },
            _ => {},
        }
        if let Some(result) = round_result {
            self.detach_entities_from_clients();
            let tr = self.gameplay_state.try_transition_from_gamerunning_to_ending(result);
            proof {
                assert(tr is Ok);
            }
            return ;
        }
        match &mut self.gameplay_state {
            GameplayState::GameRunning { world } => {
                world.tick();
            },
            _ => {},
        }

        let connections = self.get_connections_count();
        let mut to_lobby = false;
        match &self.gameplay_state {
            GameplayState::Ending { countdown, result } => {
                let c2 = if *countdown > 0 {
                    *countdown - 1
                } else {
                    0
                };
                let result = *result;
                self.gameplay_state = GameplayState::Ending { countdown: c2, result };
                if c2 == 0 || connections == 0 {
                    to_lobby = true;
                }
            },
            _ => {},
        }
        if to_lobby {
            let tr = self.gameplay_state.try_transition_from_ending_to_lobby();
            proof {
                assert(tr is Ok);
            }
        }
    }
}


/// The lobby countdown law: an idle lobby starts the full countdown on the
/// tick after every session is ready and enough of them are present, and a
/// running countdown is cancelled the moment either condition is lost.
pub proof fn lemma_lobby_countdown_start_and_cancel(
    counting: Option<u32>,
    all_ready: bool,
    enough: bool,
)
    ensures
        counting is None && all_ready && enough ==> spec_lobby_next_counting(
            counting,
            all_ready,
            enough,
        ) == Some(TICKS_TO_COUNTDOWN),
        counting is Some && !(all_ready && enough) ==> spec_lobby_next_counting(
            counting,
            all_ready,
            enough,
        ) is None,
{
}

} // verus!
