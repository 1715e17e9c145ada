use vstd::arithmetic::div_mod::{lemma_mod_add_multiples_vanish, lemma_mod_sub_multiples_vanish};
use vstd::prelude::*;
use vstd::string::StringExecFns;

use crate::chat::{spec_display_line, ChatMessage, ChatMessageSenderType};
use crate::math::{Vector2Fx, Vector2X};
use crate::randomness::random_u64_in;
use crate::requests::{
    entity_check_matches, ClientRequest, ClientResponse, EntityCheckData, GameplayStateBrief,
    MoveDirection, SetNameError, UncoverResult,
};
use crate::server::{GameplayState, MultiplayerServerContext};
use crate::session::{ClientSessionData, ClientSessionId, ClientSessionState};
use crate::text::u32_to_string;
use crate::world::{vec_ok, EntityId, PlayerRole, World, TILE_SIZE};

verus! {

/// Upper bound on attempts to draw an unused generated name.
pub const MAX_NAME_RETRIES_COUNT: usize = 100;

impl MultiplayerServerContext {
    pub open spec fn spec_has_session(self, sid: ClientSessionId) -> bool {
        exists|i: int|
            0 <= i < self.client_sessions@.len() && (#[trigger] self.client_sessions@[i]).id == sid
    }

    /// Index of the session with this id (meaningful only when present; ids
    /// are unique under `wf`).
    pub open spec fn spec_session_index(self, sid: ClientSessionId) -> int {
        choose|i: int|
            0 <= i < self.client_sessions@.len() && (#[trigger] self.client_sessions@[i]).id == sid
    }

    pub open spec fn spec_session_data(self, sid: ClientSessionId) -> ClientSessionData {
        self.client_sessions@[self.spec_session_index(sid)].data
    }

    /// Under well-formedness, a session's id pins down its index.
    pub proof fn lemma_session_index_unique(self, i: int, sid: ClientSessionId)
        requires
            self.wf(),
            0 <= i < self.client_sessions@.len(),
            self.client_sessions@[i].id == sid,
        ensures
            self.spec_session_index(sid) == i,
            self.spec_has_session(sid),
    {
        let j = self.spec_session_index(sid);
        assert(0 <= j < self.client_sessions@.len() && self.client_sessions@[j].id == sid);
        if i < j {
            assert(self.client_sessions@[i].id != self.client_sessions@[j].id);
        }
        if j < i {
            assert(self.client_sessions@[j].id != self.client_sessions@[i].id);
        }
    }
}

// ---------------------------------------------------------------------------
// Handler specifications
// ---------------------------------------------------------------------------
/// Everything but possibly the chat log is untouched.
pub open spec fn only_chat_may_change(
    pre: MultiplayerServerContext,
    post: MultiplayerServerContext,
) -> bool {
    &&& post.client_sessions == pre.client_sessions
    &&& post.gameplay_state == pre.gameplay_state
}

/// Everything but possibly the session registry is untouched.
pub open spec fn only_sessions_may_change(
    pre: MultiplayerServerContext,
    post: MultiplayerServerContext,
) -> bool {
    &&& post.chat == pre.chat
    &&& post.gameplay_state == pre.gameplay_state
}

/// Everything but possibly the gameplay state is untouched.
pub open spec fn only_gameplay_may_change(
    pre: MultiplayerServerContext,
    post: MultiplayerServerContext,
) -> bool {
    &&& post.chat == pre.chat
    &&& post.client_sessions == pre.client_sessions
}

/// The registry with one session renamed: only the session with this id
/// changes, and it becomes named, not ready, with no entity.
pub open spec fn session_renamed(
    pre: MultiplayerServerContext,
    post: MultiplayerServerContext,
    sid: ClientSessionId,
    name: Seq<char>,
) -> bool {
    let i = pre.spec_session_index(sid);
    &&& post.client_sessions@.len() == pre.client_sessions@.len()
    &&& forall|j: int|
        0 <= j < pre.client_sessions@.len() && j != i ==> post.client_sessions@[j]
            == #[trigger] pre.client_sessions@[j]
    &&& post.client_sessions@[i].id == sid
    &&& post.client_sessions@[i].data.points == pre.client_sessions@[i].data.points
    &&& post.client_sessions@[i].data.state matches ClientSessionState::NameWasSet {
        name: n,
        ready_to_start: false,
        entity_player_id: None,
    } && n@ == name
}

/// Outcome of a rename attempt on a candidate name that is neither empty
/// nor in use: it succeeds exactly on a nameless session.
pub open spec fn set_name_applied(
    pre: MultiplayerServerContext,
    post: MultiplayerServerContext,
    sid: ClientSessionId,
    name: Seq<char>,
    resp: ClientResponse,
) -> bool {
    if (pre.spec_session_data(sid).state matches ClientSessionState::JustConnected) {
        &&& resp == (ClientResponse::SetName { result: Ok(()) })
        &&& session_renamed(pre, post, sid, name)
        &&& only_sessions_may_change(pre, post)
    } else {
        resp == ClientResponse::BadState && post == pre
    }
}

/// What handling `SetName` does: an explicit empty or used name is
/// rejected; otherwise the explicit or freshly generated name is applied.
/// Name generation may also give up after bounded retries.
pub open spec fn set_name_spec(
    pre: MultiplayerServerContext,
    post: MultiplayerServerContext,
    sid: ClientSessionId,
    new_name: Option<Seq<char>>,
    resp: ClientResponse,
) -> bool {
    match new_name {
        Some(n) => {
            if n.len() == 0 {
                resp == (ClientResponse::SetName {
                    result: Err(SetNameError::NameEmpty),
                }) && post == pre
            } else if crate::server::spec_name_used(pre.client_sessions@, n) {
                resp == (ClientResponse::SetName {
                    result: Err(SetNameError::NameAlreadyUsed),
                }) && post == pre
            } else {
                set_name_applied(pre, post, sid, n, resp)
            }
        },
        None => {
            ||| (resp == (ClientResponse::SetName {
                result: Err(SetNameError::NameGenerateExhausted),
            }) && post == pre)
            ||| exists|g: Seq<char>|
                #![trigger crate::server::spec_name_used(pre.client_sessions@, g)]
                !crate::server::spec_name_used(pre.client_sessions@, g) && set_name_applied(
                    pre,
                    post,
                    sid,
                    g,
                    resp,
                )
        },
    }
}

/// What handling `SendChatMessage` does: a named session appends one entry
/// under its name; a nameless one is refused.
pub open spec fn send_message_spec(
    pre: MultiplayerServerContext,
    post: MultiplayerServerContext,
    sid: ClientSessionId,
    msg: Seq<char>,
    resp: ClientResponse,
) -> bool {
    match pre.spec_session_data(sid).spec_name() {
        Some(name) => {
            &&& resp == (ClientResponse::SendChatMessage { sent: true })
            &&& only_chat_may_change(pre, post)
            &&& post.chat@.len() == pre.chat@.len() + 1
            &&& forall|i: int| 0 <= i < pre.chat@.len() ==> post.chat@[i] == #[trigger] pre.chat@[i]
            &&& post.chat@.last().msg@ == msg
            &&& post.chat@.last().sender_type matches ChatMessageSenderType::Client {
                id,
                name: n,
            } && id == sid && n@ == name
        },
        None => resp == (ClientResponse::SendChatMessage { sent: false }) && post == pre,
    }
}

/// What handling `ReadChatMessages` returns: the display lines of the most
/// recent messages, newest first, at most the requested count.
pub open spec fn read_chat_spec(
    chat: Seq<ChatMessage>,
    max_count: Option<usize>,
    resp: ClientResponse,
) -> bool {
    let count = (match max_count {
        Some(c) => if c <= chat.len() {
            c as int
        } else {
            chat.len() as int
        },
        None => chat.len() as int,
    });
    &&& resp matches ClientResponse::ReadChatMessages { results } && results@.len() == count
        && forall|i: int|
        0 <= i < count ==> (#[trigger] results@[i])@ == spec_display_line(
            chat[chat.len() - 1 - i],
        )
}

/// What handling `Move` does: it needs an attached entity and a running
/// round; a missing or already-moving entity starts nothing; otherwise the
/// one-tile destination is tried, starting the move exactly when that tile
/// is free (destinations beyond the coordinate limit are refused).
pub open spec fn move_spec(
    pre: MultiplayerServerContext,
    post: MultiplayerServerContext,
    sid: ClientSessionId,
    dir: MoveDirection,
    resp: ClientResponse,
) -> bool {
    match pre.spec_session_data(sid).spec_entity_player_id() {
        None => resp == ClientResponse::BadState && post == pre,
        Some(eid) => match pre.gameplay_state {
            GameplayState::GameRunning { world } => {
                &&& only_gameplay_may_change(pre, post)
                &&& if !world.spec_has_entity(eid) {
                    resp == (ClientResponse::Move { started: false })
                        && post.gameplay_state == pre.gameplay_state
                } else {
                    let i = world.spec_index_of(eid);
                    let e = world.entities@[i];
                    if e.spec_is_moving() {
                        resp == (ClientResponse::Move { started: false })
                            && post.gameplay_state == pre.gameplay_state
                    } else {
                        let next = move_destination(e.position, dir);
                        if !vec_ok(next) {
                            resp == (ClientResponse::Move { started: false })
                                && post.gameplay_state == pre.gameplay_state
                        } else if world.spec_tile_occupied(next) {
                            resp == (ClientResponse::Move { started: false })
                                && post.gameplay_state == pre.gameplay_state
                        } else {
                            &&& resp == (ClientResponse::Move { started: true })
                            &&& post.gameplay_state matches GameplayState::GameRunning {
                                world: w2,
                            } && w2.entities@ == world.entities@.update(
                                i,
                                crate::world::Entity {
                                    state: crate::world::EntityState::Moving {
                                        from_position: e.position,
                                        destination: next,
                                    },
                                    ..e
                                },
                            ) && w2.new_entity_id == world.new_entity_id
                        }
                    }
                }
            },
            _ => resp == ClientResponse::BadState && post == pre,
        },
    }
}

/// The tile one step in the given direction.
pub open spec fn move_destination(pos: Vector2Fx, dir: MoveDirection) -> Vector2Fx {
    match dir {
        MoveDirection::Up => Vector2X { x: pos.x as i64, y: (pos.y + TILE_SIZE) as i64 },
        MoveDirection::Down => Vector2X { x: pos.x as i64, y: (pos.y - TILE_SIZE) as i64 },
        MoveDirection::Left => Vector2X { x: (pos.x - TILE_SIZE) as i64, y: pos.y as i64 },
        MoveDirection::Right => Vector2X { x: (pos.x + TILE_SIZE) as i64, y: pos.y as i64 },
    }
}

/// What handling `TryUncover` does. It needs a running round, an attached
/// entity, and both entities present; the client's entity must carry the
/// seeker role. A target out of interaction range (or the seeker itself) is
/// a neutral outcome; a hider in range is revealed; an NPC in range is
/// removed and costs the seeker one failure.
pub open spec fn try_uncover_spec(
    pre: MultiplayerServerContext,
    post: MultiplayerServerContext,
    sid: ClientSessionId,
    target_id: EntityId,
    resp: ClientResponse,
) -> bool {
    match pre.gameplay_state {
        GameplayState::GameRunning { world } => match pre.spec_session_data(
            sid,
        ).spec_entity_player_id() {
            None => resp matches ClientResponse::OtherError { .. } && post == pre,
            Some(own_id) => {
                if !world.spec_has_entity(own_id) {
                    resp == (ClientResponse::EntityNotFound { id: own_id }) && post == pre
                } else if !world.spec_has_entity(target_id) {
                    resp == (ClientResponse::EntityNotFound { id: target_id }) && post == pre
                } else {
                    let own = world.entities@[world.spec_index_of(own_id)];
                    let target = world.entities@[world.spec_index_of(target_id)];
                    if !(own.spec_role() matches Some(PlayerRole::Seeker { .. })) {
                        resp == ClientResponse::BadState && post == pre
                    } else if !World::spec_inrange(own.position, target.position) {
                        resp == (ClientResponse::TryUncover {
                            uncover_result: UncoverResult { was_hider: None },
                        }) && post == pre
                    } else {
                        &&& only_gameplay_may_change(pre, post)
                        &&& match target.spec_role() {
                            Some(PlayerRole::Hider { .. }) => {
                                &&& resp == (ClientResponse::TryUncover {
                                    uncover_result: UncoverResult { was_hider: Some(true) },
                                })
                                &&& post.gameplay_state
                                    matches GameplayState::GameRunning { world: w2 }
                                    && w2.entities@ == world.entities@.update(
                                    world.spec_index_of(target_id),
                                    crate::world::hider_covered_set(target, false),
                                )
                            },
                            Some(PlayerRole::Seeker { .. }) => {
                                &&& resp == (ClientResponse::TryUncover {
                                    uncover_result: UncoverResult { was_hider: None },
                                })
                                &&& post.gameplay_state == pre.gameplay_state
                            },
                            None => {
                                let ti = world.spec_index_of(target_id);
                                let oi = world.spec_index_of(own_id);
                                let oi2 = if oi < ti {
                                    oi
                                } else {
                                    oi - 1
                                };
                                let mid = world.entities@.remove(ti);
                                &&& resp == (ClientResponse::TryUncover {
                                    uncover_result: UncoverResult { was_hider: Some(false) },
                                })
                                &&& post.gameplay_state
                                    matches GameplayState::GameRunning { world: w2 }
                                    && w2.entities@ == mid.update(
                                    oi2,
                                    crate::world::seeker_punished(mid[oi2]),
                                ) && w2.new_entity_id == world.new_entity_id
                            },
                        }
                    }
                }
            },
        },
        _ => resp == ClientResponse::BadState && post == pre,
    }
}


/// What handling `SetReady` does: it needs a name first; then it stores the
/// requested readiness.
pub open spec fn set_ready_spec(
    pre: MultiplayerServerContext,
    post: MultiplayerServerContext,
    sid: ClientSessionId,
    set_to_ready: bool,
    resp: ClientResponse,
) -> bool {
    let i = pre.spec_session_index(sid);
    match pre.spec_session_data(sid).state {
        ClientSessionState::JustConnected => resp == ClientResponse::BadState && post == pre,
        ClientSessionState::NameWasSet { name, ready_to_start: _, entity_player_id } => {
            &&& resp == (ClientResponse::SetReady { was_set: set_to_ready })
            &&& only_sessions_may_change(pre, post)
            &&& post.client_sessions@.len() == pre.client_sessions@.len()
            &&& forall|j: int|
                0 <= j < pre.client_sessions@.len() && j != i ==> post.client_sessions@[j]
                    == #[trigger] pre.client_sessions@[j]
            &&& post.client_sessions@[i].id == sid
            &&& post.client_sessions@[i].data.points == pre.client_sessions@[i].data.points
            &&& post.client_sessions@[i].data.state matches ClientSessionState::NameWasSet {
                name: n2,
                ready_to_start: r2,
                entity_player_id: e2,
            } && n2 == name && r2 == set_to_ready && e2 == entity_player_id
        },
    }
}

/// The client-facing summary of the gameplay state.
pub open spec fn brief_of(g: GameplayState) -> GameplayStateBrief {
    match g {
        GameplayState::Lobby { counting_to_start, last_result } => GameplayStateBrief::Lobby {
            counting_to_start,
            last_result,
        },
        GameplayState::GameRunning { .. } => GameplayStateBrief::GameRunning,
        GameplayState::Ending { countdown, result } => GameplayStateBrief::Ending {
            countdown,
            result,
        },
    }
}

/// What handling `WorldCheck` returns: a snapshot of every entity while a
/// round runs, and a state failure otherwise.
pub open spec fn world_check_spec(pre: MultiplayerServerContext, resp: ClientResponse) -> bool {
    match pre.gameplay_state {
        GameplayState::GameRunning { world } => resp
            matches ClientResponse::WorldCheck { entities } && entities@.len()
            == world.entities@.len() && forall|i: int|
            0 <= i < entities@.len() ==> entity_check_matches(
                #[trigger] entities@[i],
                world.entities@[i],
            ),
        _ => resp == ClientResponse::BadState,
    }
}

/// What handling `GetRole` returns: the role of the session's entity while
/// a round runs and the entity exists and is a player.
pub open spec fn get_role_spec(
    pre: MultiplayerServerContext,
    sid: ClientSessionId,
    resp: ClientResponse,
) -> bool {
    match pre.spec_session_data(sid).spec_entity_player_id() {
        None => resp == ClientResponse::BadState,
        Some(eid) => match pre.gameplay_state {
            GameplayState::GameRunning { world } => {
                if !world.spec_has_entity(eid) {
                    resp == (ClientResponse::EntityNotFound { id: eid })
                } else {
                    match world.entities@[world.spec_index_of(eid)].spec_role() {
                        Some(role) => resp == (ClientResponse::GetRole { role }),
                        None => resp == (ClientResponse::EntityNotPlayer { id: eid }),
                    }
                }
            },
            _ => resp == ClientResponse::BadState,
        },
    }
}

pub open spec fn name_view(o: Option<String>) -> Option<Seq<char>> {
    match o {
        Some(n) => Some(n@),
        None => None,
    }
}

/// What one routed request does to the shared state and returns.
pub open spec fn route_spec(
    pre: MultiplayerServerContext,
    post: MultiplayerServerContext,
    sid: ClientSessionId,
    request: Result<ClientRequest, String>,
    resp: ClientResponse,
) -> bool {
    match request {
        Err(reason) => (resp matches ClientResponse::BadRequest { err } && err@ == reason@) && post
            == pre,
        Ok(req) => match req {
            ClientRequest::Ping { payload } => resp == (ClientResponse::Ping { payload }) && post
                == pre,
            ClientRequest::SendChatMessage { msg } => send_message_spec(pre, post, sid, msg@, resp),
            ClientRequest::ReadChatMessages { max_count } => read_chat_spec(
                pre.chat@,
                max_count,
                resp,
            ) && post == pre,
            ClientRequest::GetClientSessionId => resp == (ClientResponse::GetClientSessionId {
                id: sid,
            }) && post == pre,
            ClientRequest::GetClientSessionData => (resp
                matches ClientResponse::GetClientSessionData { data } && data.points
                == pre.spec_session_data(sid).points && data.spec_name() == pre.spec_session_data(
                sid,
            ).spec_name() && data.spec_entity_player_id() == pre.spec_session_data(
                sid,
            ).spec_entity_player_id()) && post == pre,
            ClientRequest::GetPointsCount => resp == (ClientResponse::GetPointsCount {
                points_count: pre.spec_session_data(sid).points,
            }) && post == pre,
            ClientRequest::SetName { new_name } => set_name_spec(
                pre,
                post,
                sid,
                name_view(new_name),
                resp,
            ),
            ClientRequest::SetReady { ready } => set_ready_spec(pre, post, sid, ready, resp),
            ClientRequest::GetEntityId => resp == (ClientResponse::GetEntityId {
                id: pre.spec_session_data(sid).spec_entity_player_id(),
            }) && post == pre,
            ClientRequest::WorldCheck => world_check_spec(pre, resp) && post == pre,
            ClientRequest::ServerCheck => (resp matches ClientResponse::ServerCheck {
                msg,
                connections,
            } && msg@ == "Hello from server!"@ && connections == pre.client_sessions@.len()) && post
                == pre,
            ClientRequest::CheckGameplayState => resp == (ClientResponse::CheckGameplayState {
                state: brief_of(pre.gameplay_state),
            }) && post == pre,
            ClientRequest::Move { dir } => move_spec(pre, post, sid, dir, resp),
            ClientRequest::GetRole => get_role_spec(pre, sid, resp) && post == pre,
            ClientRequest::GetStartCountdownTime => (match pre.gameplay_state {
                GameplayState::Lobby { counting_to_start, .. } => resp
                    == (ClientResponse::GetStartCountdownTime { time: counting_to_start }),
                _ => resp == ClientResponse::BadState,
            }) && post == pre,
            ClientRequest::TryUncover { id } => try_uncover_spec(pre, post, sid, id, resp),
        },
    }
}

// ---------------------------------------------------------------------------
// Handlers
// ---------------------------------------------------------------------------
/// Index of the calling session in the registry.
fn own_session_index(ctx: &MultiplayerServerContext, sid: ClientSessionId) -> (r: usize)
    requires
        ctx.wf(),
        ctx.spec_has_session(sid),
    ensures
        r as int == ctx.spec_session_index(sid),
        r < ctx.client_sessions@.len(),
        ctx.client_sessions@[r as int].id == sid,
{
    match ctx.find_session_index(sid) {
        Some(i) => {
            proof {
                ctx.lemma_session_index_unique(i as int, sid);
            }
            i
        },
        None => {
            proof {
                assert(false);
            }
            0
        },
    }
}

/// Render the newest chat messages, newest first, at most `max_count` of
/// them (all of them when no count is given).
fn read_chat_messages_route(chat: &Vec<ChatMessage>, max_count: Option<usize>) -> (r:
    ClientResponse)
    ensures
        read_chat_spec(chat@, max_count, r),
{
    let len = chat.len();
    let count = match max_count {
        Some(c) => if c <= len {
            c
        } else {
            len
        },
        None => len,
    };
    let mut results: Vec<String> = Vec::new();
    let mut i: usize = 0;
    while i < count
        invariant
            count <= len,
            len == chat@.len(),
            i <= count,
            results@.len() == i,
            forall|j: int|
                0 <= j < i ==> (#[trigger] results@[j])@ == spec_display_line(
                    chat@[len - 1 - j],
                ),
        decreases count - i,
    {
        let line = chat[len - 1 - i].display_line();
        results.push(line);
        i += 1;
    }
    ClientResponse::ReadChatMessages { results }
}

/// Append a chat entry under the sender's name; nameless sessions are
/// refused.
fn send_message_route(
    ctx: &mut MultiplayerServerContext,
    client_session_id: ClientSessionId,
    msg: String,
) -> (r: ClientResponse)
    requires
        old(ctx).wf(),
        old(ctx).spec_has_session(client_session_id),
    ensures
        send_message_spec(*old(ctx), *final(ctx), client_session_id, msg@, r),
        final(ctx).wf(),
        final(ctx).spec_has_session(client_session_id),
{
    let idx = own_session_index(ctx, client_session_id);
    let maybe_name: Option<String> = match &ctx.client_sessions[idx].data.state {
        ClientSessionState::JustConnected => None,
        ClientSessionState::NameWasSet { name, ready_to_start: _, entity_player_id: _ } => Some(
            String::from_str(name.as_str()),
        ),
    };
    match maybe_name {
        None => ClientResponse::SendChatMessage { sent: false },
        Some(name) => {
            let message = ChatMessage::new_from_client(msg, client_session_id, name);
            ctx.chat.push(message);
            ClientResponse::SendChatMessage { sent: true }
        },
    }
}

/// Draw names from a small noun list with a random suffix until an unused
/// one comes up, within a bounded number of retries.
fn try_generate_name(ctx: &MultiplayerServerContext) -> (r: Option<String>)
    ensures
        match r {
            Some(n) => !crate::server::spec_name_used(ctx.client_sessions@, n@),
            None => true,
        },
{
    let mut exhaust_counter: usize = 0;
    while exhaust_counter <= MAX_NAME_RETRIES_COUNT
        invariant
            true,
        decreases MAX_NAME_RETRIES_COUNT + 1 - exhaust_counter,
    {
        let k = random_u64_in(0, 5);
        let core_name = if k == 0 {
            "Beaver"
        } else if k == 1 {
            "Goose"
        } else if k == 2 {
            "Horse"
        } else if k == 3 {
            "Pig"
        } else {
            "Cat"
        };
        let name_num = random_u64_in(0, 255) as u32;
        let mut new_name = String::from_str(core_name);
        new_name.append("_");
        let num_text = u32_to_string(name_num);
        new_name.append(num_text.as_str());

        if !ctx.is_name_used(new_name.as_str()) {
            return Some(new_name);
        }
        exhaust_counter += 1;
    }
    None
}

/// Pick (or generate) a name for a nameless session: empty and taken names
/// are rejected, and a session that already has a name stays as it is.
fn set_name_route(
    ctx: &mut MultiplayerServerContext,
    client_session_id: ClientSessionId,
    new_name: Option<String>,
) -> (r: ClientResponse)
    requires
        old(ctx).wf(),
        old(ctx).spec_has_session(client_session_id),
    ensures
        set_name_spec(*old(ctx), *final(ctx), client_session_id, name_view(new_name), r),
        final(ctx).wf(),
        final(ctx).spec_has_session(client_session_id),
{
    let candidate: String = match new_name {
        Some(n) => {
            if n.as_str().unicode_len() == 0 {
                return ClientResponse::SetName { result: Err(SetNameError::NameEmpty) };
            }
            if ctx.is_name_used(n.as_str()) {
                return ClientResponse::SetName { result: Err(SetNameError::NameAlreadyUsed) };
            }
            n
        },
        None => {
            match try_generate_name(ctx) {
                Some(generated_name) => generated_name,
                None => {
                    return ClientResponse::SetName {
                        result: Err(SetNameError::NameGenerateExhausted),
                    };
                },
            }
        },
    };
    let idx = own_session_index(ctx, client_session_id);
    let is_fresh = matches!(
        &ctx.client_sessions[idx].data.state,
        ClientSessionState::JustConnected
    );
    if is_fresh {
        let ghost candidate_view = candidate@;
        let rec = &mut ctx.client_sessions[idx];
        rec.data.state = ClientSessionState::NameWasSet {
            name: candidate,
            ready_to_start: false,
            entity_player_id: None,
        };
        proof {
            let i = idx as int;
            assert(session_renamed(*old(ctx), *ctx, client_session_id, candidate_view));
            assert forall|a: int, b: int|
                0 <= a < b < ctx.client_sessions@.len() implies ctx.client_sessions@[a].id
                != ctx.client_sessions@[b].id by {
                assert(old(ctx).client_sessions@[a].id != old(ctx).client_sessions@[b].id);
                assert(ctx.client_sessions@[a].id == old(ctx).client_sessions@[a].id);
                assert(ctx.client_sessions@[b].id == old(ctx).client_sessions@[b].id);
            }
        }
        ClientResponse::SetName { result: Ok(()) }
    } else {
        ClientResponse::BadState
    }
}

/// Store the requested readiness; a nameless session is refused.
fn set_ready_route(
    ctx: &mut MultiplayerServerContext,
    client_session_id: ClientSessionId,
    set_to_ready: bool,
) -> (r: ClientResponse)
    requires
        old(ctx).wf(),
        old(ctx).spec_has_session(client_session_id),
    ensures
        set_ready_spec(*old(ctx), *final(ctx), client_session_id, set_to_ready, r),
        final(ctx).wf(),
        final(ctx).spec_has_session(client_session_id),
{
    let idx = own_session_index(ctx, client_session_id);
    let is_fresh = matches!(
        &ctx.client_sessions[idx].data.state,
        ClientSessionState::JustConnected
    );
    if is_fresh {
        return ClientResponse::BadState;
    }
    let rec = &mut ctx.client_sessions[idx];
    match &mut rec.data.state {
        ClientSessionState::JustConnected => {},
        ClientSessionState::NameWasSet { name: _, ready_to_start, entity_player_id: _ } => {
            *ready_to_start = set_to_ready;
        },
    }
    proof {
        let i = idx as int;
        assert forall|a: int, b: int|
            0 <= a < b < ctx.client_sessions@.len() implies ctx.client_sessions@[a].id
            != ctx.client_sessions@[b].id by {
            assert(old(ctx).client_sessions@[a].id != old(ctx).client_sessions@[b].id);
            assert(ctx.client_sessions@[a].id == old(ctx).client_sessions@[a].id);
            assert(ctx.client_sessions@[b].id == old(ctx).client_sessions@[b].id);
        }
    }
    ClientResponse::SetReady { was_set: set_to_ready }
}


/// Report the gameplay state without its world payload.
fn gameplay_state_route(ctx: &MultiplayerServerContext) -> (r: ClientResponse)
    ensures
        r == (ClientResponse::CheckGameplayState { state: brief_of(ctx.gameplay_state) }),
{
    let state = match &ctx.gameplay_state {
        GameplayState::Lobby { counting_to_start, last_result } => GameplayStateBrief::Lobby {
            counting_to_start: *counting_to_start,
            last_result: *last_result,
        },
        GameplayState::GameRunning { world: _ } => GameplayStateBrief::GameRunning,
        GameplayState::Ending { countdown, result } => GameplayStateBrief::Ending {
            countdown: *countdown,
            result: *result,
        },
    };
    ClientResponse::CheckGameplayState { state }
}

/// Snapshot every entity while a round runs.
fn world_check_route(ctx: &MultiplayerServerContext) -> (r: ClientResponse)
    ensures
        world_check_spec(*ctx, r),
{
    match &ctx.gameplay_state {
        GameplayState::Lobby { .. } => ClientResponse::BadState,
        GameplayState::GameRunning { world } => ClientResponse::WorldCheck {
            entities: EntityCheckData::vec_from_world(world),
        },
        GameplayState::Ending { .. } => ClientResponse::BadState,
    }
}

/// Greet with the number of connected sessions.
fn server_check_route(ctx: &MultiplayerServerContext) -> (r: ClientResponse)
    ensures
        r matches ClientResponse::ServerCheck { msg, connections } && msg@
            == "Hello from server!"@ && connections == ctx.client_sessions@.len(),
{
    let connections_count = ctx.get_connections_count();
    ClientResponse::ServerCheck {
        msg: String::from_str("Hello from server!"),
        connections: connections_count,
    }
}

/// Start a one-tile move of the session's entity in the requested
/// direction.
fn move_route(
    ctx: &mut MultiplayerServerContext,
    client_session_id: ClientSessionId,
    dir: MoveDirection,
) -> (r: ClientResponse)
    requires
        old(ctx).wf(),
        old(ctx).spec_has_session(client_session_id),
    ensures
        move_spec(*old(ctx), *final(ctx), client_session_id, dir, r),
        final(ctx).wf(),
        final(ctx).spec_has_session(client_session_id),
        final(ctx).client_sessions == old(ctx).client_sessions,
        final(ctx).chat == old(ctx).chat,
{
    let idx = own_session_index(ctx, client_session_id);
    let player_entity_id = ctx.client_sessions[idx].data.get_entity_player_id();
    let player_entity_id = match player_entity_id {
        Some(id) => id,
        None => {
            return ClientResponse::BadState;
        },
    };

    match &mut ctx.gameplay_state {
        GameplayState::Lobby { .. } => ClientResponse::BadState,
        GameplayState::Ending { .. } => ClientResponse::BadState,
        GameplayState::GameRunning { world } => {
            let ghost w0 = *world;
            let player_info = match world.get_entity_by_id(player_entity_id) {
                Some(player) => Some((player.position, player.is_moving())),
                None => None,
            };
            let was_moved = match player_info {
                None => false,
                Some((player_pos, player_moving)) => {
                    if player_moving {
                        // A move may start only at rest.
                        false
                    } else {
                        proof {
                            let i = choose|i: int|
                                0 <= i < w0.entities@.len() && #[trigger] w0.entities@[i].id
                                    == player_entity_id;
                            w0.lemma_id_index_unique(i, w0.spec_index_of(player_entity_id));
                            assert(w0.entities@[w0.spec_index_of(player_entity_id)].wf());
                        }
                        let (dx, dy) = match dir {
                            MoveDirection::Up => (0i64, TILE_SIZE),
                            MoveDirection::Down => (0i64, -TILE_SIZE),
                            MoveDirection::Left => (-TILE_SIZE, 0i64),
                            MoveDirection::Right => (TILE_SIZE, 0i64),
                        };
                        let next_player_pos = Vector2X {
                            x: player_pos.x + dx,
                            y: player_pos.y + dy,
                        };
                        if next_player_pos.x < -crate::world::COORD_LIMIT || next_player_pos.x
                            > crate::world::COORD_LIMIT || next_player_pos.y
                            < -crate::world::COORD_LIMIT || next_player_pos.y
                            > crate::world::COORD_LIMIT {
                            // The destination would leave the coordinate range.
                            false
                        } else {
                            proof {
                                lemma_mod_add_multiples_vanish(player_pos.x as int, 50);
                                lemma_mod_sub_multiples_vanish(player_pos.x as int, 50);
                                lemma_mod_add_multiples_vanish(player_pos.y as int, 50);
                                lemma_mod_sub_multiples_vanish(player_pos.y as int, 50);
                                assert forall|i: int|
                                    0 <= i < world.entities@.len()
                                        && #[trigger] world.entities@[i].id == player_entity_id
                                        implies !world.entities@[i].spec_is_moving() by {
                                    world.lemma_id_index_unique(
                                        i,
                                        world.spec_index_of(player_entity_id),
                                    );
                                }
                            }
                            let res = world.try_start_move_entity_to(
                                player_entity_id,
                                next_player_pos,
                            );
                            proof {
                                if res is Ok {
                                    let i = choose|i: int|
                                        0 <= i < w0.entities@.len()
                                            && #[trigger] w0.entities@[i].id == player_entity_id
                                            && world.entities@ == w0.entities@.update(
                                            i,
                                            crate::world::Entity {
                                                state: crate::world::EntityState::Moving {
                                                    from_position: w0.entities@[i].position,
                                                    destination: next_player_pos,
                                                },
                                                ..w0.entities@[i]
                                            },
                                        );
                                    w0.lemma_id_index_unique(
                                        i,
                                        w0.spec_index_of(player_entity_id),
                                    );
                                }
                            }
                            res.is_ok()
                        }
                    }
                },
            };
            ClientResponse::Move { started: was_moved }
        },
    }
}

/// Report the role of the session's entity.
fn get_role_route(ctx: &MultiplayerServerContext, client_session_id: ClientSessionId) -> (r:
    ClientResponse)
    requires
        ctx.wf(),
        ctx.spec_has_session(client_session_id),
    ensures
        get_role_spec(*ctx, client_session_id, r),
{
    let idx = own_session_index(ctx, client_session_id);
    let entity_id = match ctx.client_sessions[idx].data.get_entity_player_id() {
        Some(id) => id,
        None => {
            return ClientResponse::BadState;
        },
    };

    match &ctx.gameplay_state {
        GameplayState::Lobby { .. } => ClientResponse::BadState,
        GameplayState::GameRunning { world } => {
            match world.get_entity_by_id(entity_id) {
                Some(e) => {
                    proof {
                        let i = choose|i: int|
                            0 <= i < world.entities@.len() && #[trigger] world.entities@[i].id
                                == entity_id;
                        world.lemma_id_index_unique(i, world.spec_index_of(entity_id));
                    }
                    match e.get_player_role() {
                        Some(player_role) => ClientResponse::GetRole { role: *player_role },
                        None => ClientResponse::EntityNotPlayer { id: entity_id },
                    }
                },
                None => ClientResponse::EntityNotFound { id: entity_id },
            }
        },
        GameplayState::Ending { .. } => ClientResponse::BadState,
    }
}

/// Report the lobby's start countdown.
fn get_countdown_time_route(ctx: &MultiplayerServerContext) -> (r: ClientResponse)
    ensures
        match ctx.gameplay_state {
            GameplayState::Lobby { counting_to_start, .. } => r
                == (ClientResponse::GetStartCountdownTime { time: counting_to_start }),
            _ => r == ClientResponse::BadState,
        },
{
    match &ctx.gameplay_state {
        GameplayState::Lobby { counting_to_start, last_result: _ } => {
            ClientResponse::GetStartCountdownTime { time: *counting_to_start }
        },
        GameplayState::GameRunning { .. } => ClientResponse::BadState,
        GameplayState::Ending { .. } => ClientResponse::BadState,
    }
}


/// Reveal a hider or eliminate an NPC within interaction range of the
/// session's seeker entity.
fn try_uncover_route(
    ctx: &mut MultiplayerServerContext,
    client_session_id: ClientSessionId,
    uncovering_entity_id: EntityId,
) -> (r: ClientResponse)
    requires
        old(ctx).wf(),
        old(ctx).spec_has_session(client_session_id),
    ensures
        try_uncover_spec(*old(ctx), *final(ctx), client_session_id, uncovering_entity_id, r),
        final(ctx).wf(),
        final(ctx).spec_has_session(client_session_id),
        final(ctx).client_sessions == old(ctx).client_sessions,
        final(ctx).chat == old(ctx).chat,
{
    let idx = own_session_index(ctx, client_session_id);
    let own_entity = ctx.client_sessions[idx].data.get_entity_player_id();
    match &mut ctx.gameplay_state {
        GameplayState::GameRunning { world } => {
            let ghost w0 = *world;
            let client_entity_id = match own_entity {
                Some(entitiy_id) => entitiy_id,
                None => {
                    return ClientResponse::OtherError {
                        err: String::from_str("Client handler no entity attached"),
                    };
                },
            };

            let (client_pos, client_is_seeker) = match world.get_entity_by_id(client_entity_id) {
                Some(entity_c) => {
                    proof {
                        let i = choose|i: int|
                            0 <= i < w0.entities@.len() && #[trigger] w0.entities@[i].id
                                == client_entity_id;
                        w0.lemma_id_index_unique(i, w0.spec_index_of(client_entity_id));
                    }
                    let is_seeker = match entity_c.get_player_role() {
                        Some(PlayerRole::Seeker { .. }) => true,
                        _ => false,
                    };
                    (entity_c.position, is_seeker)
                },
                None => {
                    return ClientResponse::EntityNotFound { id: client_entity_id };
                },
            };

            let (target_pos, target_kind) = match world.get_entity_by_id(uncovering_entity_id) {
                Some(entity_o) => {
                    proof {
                        let i = choose|i: int|
                            0 <= i < w0.entities@.len() && #[trigger] w0.entities@[i].id
                                == uncovering_entity_id;
                        w0.lemma_id_index_unique(i, w0.spec_index_of(uncovering_entity_id));
                    }
                    let kind: u8 = match entity_o.get_player_role() {
                        Some(PlayerRole::Hider { .. }) => 0,
                        Some(PlayerRole::Seeker { .. }) => 1,
                        None => 2,
                    };
                    (entity_o.position, kind)
                },
                None => {
                    return ClientResponse::EntityNotFound { id: uncovering_entity_id };
                },
            };

            if !client_is_seeker {
                // Only the seeker may uncover.
                return ClientResponse::BadState;
            }

            proof {
                assert(w0.entities@[w0.spec_index_of(client_entity_id)].wf());
                assert(w0.entities@[w0.spec_index_of(uncovering_entity_id)].wf());
            }
            let can_uncover = World::is_entity_inrange(client_pos, target_pos);
            if !can_uncover {
                return ClientResponse::TryUncover {
                    uncover_result: UncoverResult { was_hider: None },
                };
            }

            if target_kind == 0 {
                // A hider in range is revealed, not removed.
                let res = world.set_hider_covered(uncovering_entity_id, false);
                proof {
                    assert(res is Ok);
                    let i = choose|i: int|
                        0 <= i < w0.entities@.len() && #[trigger] w0.entities@[i].id
                            == uncovering_entity_id && world.entities@ == w0.entities@.update(
                            i,
                            crate::world::hider_covered_set(w0.entities@[i], false),
                        );
                    w0.lemma_id_index_unique(i, w0.spec_index_of(uncovering_entity_id));
                }
                ClientResponse::TryUncover {
                    uncover_result: UncoverResult { was_hider: Some(true) },
                }
            } else if target_kind == 1 {
                // The only other player in range with a seeker role is the
                // seeker itself: nothing to uncover.
                ClientResponse::TryUncover { uncover_result: UncoverResult { was_hider: None } }
            } else {
                // An NPC in range is removed, and the failed uncover costs
                // the seeker one failure.
                proof {
                    let oi = w0.spec_index_of(client_entity_id);
                    let ti = w0.spec_index_of(uncovering_entity_id);
                    if client_entity_id == uncovering_entity_id {
                        assert(false);
                    }
                    if oi == ti {
                        assert(w0.entities@[oi].id == w0.entities@[ti].id);
                        assert(false);
                    }
                }
                let res = world.remove_entity(uncovering_entity_id);
                let ghost w_mid = *world;
                proof {
                    assert(res is Ok);
                    let i = choose|i: int|
                        0 <= i < w0.entities@.len() && #[trigger] w0.entities@[i].id
                            == uncovering_entity_id && world.entities@ == w0.entities@.remove(i);
                    w0.lemma_id_index_unique(i, w0.spec_index_of(uncovering_entity_id));
                    let ti = w0.spec_index_of(uncovering_entity_id);
                    let oi = w0.spec_index_of(client_entity_id);
                    let oi2: int = if oi < ti {
                        oi
                    } else {
                        oi - 1
                    };
                    assert(w_mid.entities@[oi2] == w0.entities@[oi]);
                    assert(w_mid.spec_has_entity(client_entity_id));
                }
                let res2 = world.punish_seeker(client_entity_id);
                proof {
                    let ti = w0.spec_index_of(uncovering_entity_id);
                    let oi = w0.spec_index_of(client_entity_id);
                    let oi2: int = if oi < ti {
                        oi
                    } else {
                        oi - 1
                    };
                    assert(w_mid.entities@[oi2] == w0.entities@[oi]);
                    assert(res2 is Ok);
                    let j = choose|j: int|
                        0 <= j < w_mid.entities@.len() && #[trigger] w_mid.entities@[j].id
                            == client_entity_id && world.entities@ == w_mid.entities@.update(
                            j,
                            crate::world::seeker_punished(w_mid.entities@[j]),
                        );
                    w_mid.lemma_id_index_unique(j, oi2);
                }
                ClientResponse::TryUncover {
                    uncover_result: UncoverResult { was_hider: Some(false) },
                }
            }
        },
        _ => ClientResponse::BadState,
    }
}

/// Dispatch one decoded request (or one malformed line) for a session, and
/// produce the single response it yields. A malformed line is answered with
/// a bad-request report and changes nothing, so the connection stays
/// usable.
pub fn route_client_request(
    ctx: &mut MultiplayerServerContext,
    client_session_id: ClientSessionId,
    request: Result<ClientRequest, String>,
) -> (r: ClientResponse)
    requires
        old(ctx).wf(),
        old(ctx).spec_has_session(client_session_id),
    ensures
        route_spec(*old(ctx), *final(ctx), client_session_id, request, r),
        final(ctx).wf(),
        final(ctx).spec_has_session(client_session_id),
{
    match request {
        Err(reason) => ClientResponse::BadRequest { err: reason },
        Ok(req) => match req {
            ClientRequest::Ping { payload } => ClientResponse::Ping { payload },
            ClientRequest::ReadChatMessages { max_count } => read_chat_messages_route(
                &ctx.chat,
                max_count,
            ),
            ClientRequest::SendChatMessage { msg } => send_message_route(
                ctx,
                client_session_id,
                msg,
            ),
            ClientRequest::GetClientSessionId => ClientResponse::GetClientSessionId {
                id: client_session_id,
            },
            ClientRequest::GetPointsCount => {
                let idx = own_session_index(ctx, client_session_id);
                ClientResponse::GetPointsCount {
                    points_count: ctx.client_sessions[idx].data.points,
                }
            },
            ClientRequest::GetClientSessionData => {
                let idx = own_session_index(ctx, client_session_id);
                ClientResponse::GetClientSessionData {
                    data: ctx.client_sessions[idx].data.duplicate(),
                }
            },
            ClientRequest::SetName { new_name } => set_name_route(
                ctx,
                client_session_id,
                new_name,
            ),
            ClientRequest::SetReady { ready } => set_ready_route(ctx, client_session_id, ready),
            ClientRequest::GetEntityId => {
                let idx = own_session_index(ctx, client_session_id);
                ClientResponse::GetEntityId {
                    id: ctx.client_sessions[idx].data.get_entity_player_id(),
                }
            },
            ClientRequest::WorldCheck => world_check_route(ctx),
            ClientRequest::ServerCheck => server_check_route(ctx),
            ClientRequest::CheckGameplayState => gameplay_state_route(ctx),
            ClientRequest::Move { dir } => move_route(ctx, client_session_id, dir),
            ClientRequest::GetRole => get_role_route(ctx, client_session_id),
            ClientRequest::GetStartCountdownTime => get_countdown_time_route(ctx),
            ClientRequest::TryUncover { id } => try_uncover_route(ctx, client_session_id, id),
        },
    }
}


/// A movement request for an entity that is already moving starts nothing
/// and leaves the whole shared state unchanged, whatever the direction.
pub proof fn lemma_move_while_moving_rejected(
    pre: MultiplayerServerContext,
    post: MultiplayerServerContext,
    sid: ClientSessionId,
    dir: MoveDirection,
    resp: ClientResponse,
)
    requires
        move_spec(pre, post, sid, dir, resp),
        pre.spec_session_data(sid).spec_entity_player_id() is Some,
        pre.gameplay_state matches GameplayState::GameRunning { world }
            && world.spec_has_entity(pre.spec_session_data(sid).spec_entity_player_id()->0)
            && world.entities@[world.spec_index_of(
            pre.spec_session_data(sid).spec_entity_player_id()->0,
        )].spec_is_moving(),
    ensures
        resp == (ClientResponse::Move { started: false }),
        post == pre,
{
}

/// An uncover attempt by the seeker on a target out of interaction range
/// answers the neutral result and leaves the whole shared state unchanged.
pub proof fn lemma_uncover_out_of_range_neutral(
    pre: MultiplayerServerContext,
    post: MultiplayerServerContext,
    sid: ClientSessionId,
    target_id: EntityId,
    resp: ClientResponse,
)
    requires
        try_uncover_spec(pre, post, sid, target_id, resp),
        pre.spec_session_data(sid).spec_entity_player_id() is Some,
        pre.gameplay_state matches GameplayState::GameRunning { world } && ({
            let own_id = pre.spec_session_data(sid).spec_entity_player_id()->0;
            &&& world.spec_has_entity(own_id)
            &&& world.spec_has_entity(target_id)
            &&& (world.entities@[world.spec_index_of(own_id)].spec_role() matches Some(
                PlayerRole::Seeker { .. },
            ))
            &&& !World::spec_inrange(
                world.entities@[world.spec_index_of(own_id)].position,
                world.entities@[world.spec_index_of(target_id)].position,
            )
        }),
    ensures
        resp == (ClientResponse::TryUncover {
            uncover_result: UncoverResult { was_hider: None },
        }),
        post == pre,
{
}

} // verus!
