use rust_multiplayer::requests::{
    ClientRequest, ClientResponse, MoveDirection, SetNameError, UncoverResult,
};
use rust_multiplayer::routes::route_client_request;
use rust_multiplayer::server::{GameplayState, MultiplayerServerContext, TICKS_TO_COUNTDOWN};
use rust_multiplayer::session::ClientSessionState;
use rust_multiplayer::world::{EntityState, PlayerRole, TILE_SIZE};

fn ctx_with_sessions(n: u32) -> MultiplayerServerContext {
    let mut ctx = MultiplayerServerContext::new();
    for i in 0..n {
        ctx.register_session(i);
    }
    ctx
}

fn running_round() -> MultiplayerServerContext {
    let mut ctx = ctx_with_sessions(2);
    for (sid, name) in [(0u32, "Ann"), (1u32, "Bob")] {
        let resp = route_client_request(
            &mut ctx,
            sid,
            Ok(ClientRequest::SetName { new_name: Some(name.to_string()) }),
        );
        assert_eq!(resp, ClientResponse::SetName { result: Ok(()) });
        let resp = route_client_request(&mut ctx, sid, Ok(ClientRequest::SetReady { ready: true }));
        assert_eq!(resp, ClientResponse::SetReady { was_set: true });
    }
    for _ in 0..=TICKS_TO_COUNTDOWN + 1 {
        ctx.main_loop_procedure();
    }
    assert!(matches!(ctx.gameplay_state, GameplayState::GameRunning { .. }));
    ctx
}

fn entity_of(ctx: &mut MultiplayerServerContext, sid: u32) -> u32 {
    match route_client_request(ctx, sid, Ok(ClientRequest::GetEntityId)) {
        ClientResponse::GetEntityId { id: Some(id) } => id,
        other => panic!("expected an attached entity, found {other:?}"),
    }
}

fn seeker_session(ctx: &mut MultiplayerServerContext) -> u32 {
    for sid in [0u32, 1u32] {
        if let ClientResponse::GetRole { role: PlayerRole::Seeker { .. } } =
            route_client_request(ctx, sid, Ok(ClientRequest::GetRole))
        {
            return sid;
        }
    }
    panic!("one session must hold the seeker role");
}

#[test]
fn test_client_ping_roundtrip() {
    let mut ctx = ctx_with_sessions(1);
    let resp = route_client_request(
        &mut ctx,
        0,
        Ok(ClientRequest::Ping { payload: Some("hello".to_string()) }),
    );
    assert_eq!(resp, ClientResponse::Ping { payload: Some("hello".to_string()) });
}

#[test]
fn test_malformed_request_line_keeps_connection_usable() {
    let mut ctx = ctx_with_sessions(1);
    let resp = route_client_request(&mut ctx, 0, Err("not a request".to_string()));
    match resp {
        ClientResponse::BadRequest { err } => assert_eq!(err, "not a request"),
        other => panic!("expected a bad-request report, found {other:?}"),
    }
    // The same session keeps working afterwards.
    let resp = route_client_request(&mut ctx, 0, Ok(ClientRequest::Ping { payload: None }));
    assert_eq!(resp, ClientResponse::Ping { payload: None });
    assert_eq!(ctx.get_connections_count(), 1);
}

#[test]
fn test_client_set_name() {
    let mut ctx = ctx_with_sessions(2);

    let resp = route_client_request(
        &mut ctx,
        0,
        Ok(ClientRequest::SetName { new_name: Some("".to_string()) }),
    );
    assert_eq!(resp, ClientResponse::SetName { result: Err(SetNameError::NameEmpty) });

    let resp = route_client_request(
        &mut ctx,
        0,
        Ok(ClientRequest::SetName { new_name: Some("Ann".to_string()) }),
    );
    assert_eq!(resp, ClientResponse::SetName { result: Ok(()) });

    // The same name cannot be taken twice.
    let resp = route_client_request(
        &mut ctx,
        1,
        Ok(ClientRequest::SetName { new_name: Some("Ann".to_string()) }),
    );
    assert_eq!(resp, ClientResponse::SetName { result: Err(SetNameError::NameAlreadyUsed) });

    // A named session cannot pick a second name.
    let resp = route_client_request(
        &mut ctx,
        0,
        Ok(ClientRequest::SetName { new_name: Some("Anna".to_string()) }),
    );
    assert_eq!(resp, ClientResponse::BadState);
}

#[test]
fn test_client_gets_generated_name() {
    let mut ctx = ctx_with_sessions(1);
    let resp = route_client_request(&mut ctx, 0, Ok(ClientRequest::SetName { new_name: None }));
    assert_eq!(resp, ClientResponse::SetName { result: Ok(()) });
    match &ctx.client_sessions[0].data.state {
        ClientSessionState::NameWasSet { name, .. } => {
            // Generated names are a noun, an underscore, and a number.
            assert!(name.contains('_'), "generated name {name:?}");
        },
        other => panic!("expected a named session, found {other:?}"),
    }
}

#[test]
fn test_client_set_ready() {
    let mut ctx = ctx_with_sessions(1);

    // Readiness needs a name first.
    let resp = route_client_request(&mut ctx, 0, Ok(ClientRequest::SetReady { ready: true }));
    assert_eq!(resp, ClientResponse::BadState);

    let resp = route_client_request(
        &mut ctx,
        0,
        Ok(ClientRequest::SetName { new_name: Some("Ann".to_string()) }),
    );
    assert_eq!(resp, ClientResponse::SetName { result: Ok(()) });

    let resp = route_client_request(&mut ctx, 0, Ok(ClientRequest::SetReady { ready: true }));
    assert_eq!(resp, ClientResponse::SetReady { was_set: true });
    let resp = route_client_request(&mut ctx, 0, Ok(ClientRequest::SetReady { ready: false }));
    assert_eq!(resp, ClientResponse::SetReady { was_set: false });
}

#[test]
fn test_new_client_has_no_points() {
    let mut ctx = ctx_with_sessions(1);
    let resp = route_client_request(&mut ctx, 0, Ok(ClientRequest::GetPointsCount));
    assert_eq!(resp, ClientResponse::GetPointsCount { points_count: 0 });
}

#[test]
fn test_client_common_read_only_requests() {
    let mut ctx = ctx_with_sessions(1);

    let resp = route_client_request(&mut ctx, 0, Ok(ClientRequest::GetClientSessionId));
    assert_eq!(resp, ClientResponse::GetClientSessionId { id: 0 });

    let resp = route_client_request(&mut ctx, 0, Ok(ClientRequest::ServerCheck));
    match resp {
        ClientResponse::ServerCheck { msg, connections } => {
            assert_eq!(msg, "Hello from server!");
            assert_eq!(connections, 1);
        },
        other => panic!("unexpected response {other:?}"),
    }

    // Outside a round, the world and roles are not available.
    let resp = route_client_request(&mut ctx, 0, Ok(ClientRequest::WorldCheck));
    assert_eq!(resp, ClientResponse::BadState);
    let resp = route_client_request(&mut ctx, 0, Ok(ClientRequest::GetRole));
    assert_eq!(resp, ClientResponse::BadState);
    let resp = route_client_request(&mut ctx, 0, Ok(ClientRequest::GetEntityId));
    assert_eq!(resp, ClientResponse::GetEntityId { id: None });
    let resp = route_client_request(&mut ctx, 0, Ok(ClientRequest::GetStartCountdownTime));
    assert_eq!(resp, ClientResponse::GetStartCountdownTime { time: None });
}

#[test]
fn test_multiple_clients_chatting() {
    let mut ctx = ctx_with_sessions(2);

    // A nameless session cannot chat.
    let resp = route_client_request(
        &mut ctx,
        0,
        Ok(ClientRequest::SendChatMessage { msg: "hi".to_string() }),
    );
    assert_eq!(resp, ClientResponse::SendChatMessage { sent: false });

    for (sid, name) in [(0u32, "Ann"), (1u32, "Bob")] {
        let resp = route_client_request(
            &mut ctx,
            sid,
            Ok(ClientRequest::SetName { new_name: Some(name.to_string()) }),
        );
        assert_eq!(resp, ClientResponse::SetName { result: Ok(()) });
    }
    let resp = route_client_request(
        &mut ctx,
        0,
        Ok(ClientRequest::SendChatMessage { msg: "hello there".to_string() }),
    );
    assert_eq!(resp, ClientResponse::SendChatMessage { sent: true });
    let resp = route_client_request(
        &mut ctx,
        1,
        Ok(ClientRequest::SendChatMessage { msg: "hey".to_string() }),
    );
    assert_eq!(resp, ClientResponse::SendChatMessage { sent: true });

    // Reading returns the newest first, with the clock, sender and body.
    let resp = route_client_request(
        &mut ctx,
        0,
        Ok(ClientRequest::ReadChatMessages { max_count: Some(1) }),
    );
    match resp {
        ClientResponse::ReadChatMessages { results } => {
            assert_eq!(results.len(), 1);
            let line = &results[0];
            assert_eq!(&line[5..], " <Bob> hey");
            assert_eq!(line.as_bytes()[2], b':');
        },
        other => panic!("unexpected response {other:?}"),
    }
    let resp = route_client_request(&mut ctx, 0, Ok(ClientRequest::ReadChatMessages { max_count: None }));
    match resp {
        ClientResponse::ReadChatMessages { results } => {
            assert_eq!(results.len(), 2);
            assert_eq!(&results[0][5..], " <Bob> hey");
            assert_eq!(&results[1][5..], " <Ann> hello there");
        },
        other => panic!("unexpected response {other:?}"),
    }
}

#[test]
fn test_move_request_on_moving_entity_is_rejected() {
    let mut ctx = running_round();
    let eid = entity_of(&mut ctx, 0);

    // The first move in some free direction starts; the world around the
    // spawn area is small, so try all four.
    let mut started_dir = None;
    for dir in [MoveDirection::Up, MoveDirection::Down, MoveDirection::Left, MoveDirection::Right] {
        match route_client_request(&mut ctx, 0, Ok(ClientRequest::Move { dir })) {
            ClientResponse::Move { started: true } => {
                started_dir = Some(dir);
                break;
            },
            ClientResponse::Move { started: false } => {},
            other => panic!("unexpected response {other:?}"),
        }
    }
    let dir = started_dir.expect("some direction must be free");

    let state_before = match &ctx.gameplay_state {
        GameplayState::GameRunning { world } => world.get_entity_by_id(eid).unwrap().state,
        _ => unreachable!(),
    };
    assert!(matches!(state_before, EntityState::Moving { .. }));

    // A second move request while moving is rejected and changes nothing.
    let resp = route_client_request(&mut ctx, 0, Ok(ClientRequest::Move { dir }));
    assert_eq!(resp, ClientResponse::Move { started: false });
    let state_after = match &ctx.gameplay_state {
        GameplayState::GameRunning { world } => world.get_entity_by_id(eid).unwrap().state,
        _ => unreachable!(),
    };
    assert_eq!(state_before, state_after);
}

#[test]
fn test_move_needs_a_running_round() {
    let mut ctx = ctx_with_sessions(1);
    let resp = route_client_request(&mut ctx, 0, Ok(ClientRequest::Move { dir: MoveDirection::Up }));
    assert_eq!(resp, ClientResponse::BadState);
}

#[test]
fn test_try_uncover_out_of_range_is_neutral() {
    let mut ctx = running_round();
    let seeker_sid = seeker_session(&mut ctx);

    // Pick a target beyond interaction range of the seeker.
    let (seeker_eid, far_target) = match &ctx.gameplay_state {
        GameplayState::GameRunning { world } => {
            let seeker_eid = world.get_seeker_hiders_summary().seeker.unwrap().0;
            let seeker_pos = world.get_entity_by_id(seeker_eid).unwrap().position;
            let far = world
                .entities
                .iter()
                .find(|e| {
                    let d = e.position.minus(seeker_pos);
                    d.length_squared() >= (TILE_SIZE * 3) * (TILE_SIZE * 3)
                })
                .map(|e| e.id);
            (seeker_eid, far)
        },
        _ => unreachable!(),
    };
    let Some(far_target) = far_target else {
        // Every entity spawned within range this time; nothing to test.
        return;
    };

    let before = match &ctx.gameplay_state {
        GameplayState::GameRunning { world } => (
            world.get_entity_by_id(seeker_eid).unwrap().state,
            world.get_entity_by_id(far_target).unwrap().state,
            world.entities.len(),
        ),
        _ => unreachable!(),
    };

    let resp = route_client_request(
        &mut ctx,
        seeker_sid,
        Ok(ClientRequest::TryUncover { id: far_target }),
    );
    assert_eq!(
        resp,
        ClientResponse::TryUncover { uncover_result: UncoverResult { was_hider: None } }
    );

    // Both entities and the world are unchanged.
    match &ctx.gameplay_state {
        GameplayState::GameRunning { world } => {
            assert_eq!(world.get_entity_by_id(seeker_eid).unwrap().state, before.0);
            assert_eq!(world.get_entity_by_id(far_target).unwrap().state, before.1);
            assert_eq!(world.entities.len(), before.2);
        },
        _ => unreachable!(),
    }
}

#[test]
fn test_try_uncover_by_non_seeker_is_bad_state() {
    let mut ctx = running_round();
    let seeker_sid = seeker_session(&mut ctx);
    let hider_sid = 1 - seeker_sid;
    let seeker_eid = entity_of(&mut ctx, seeker_sid);
    let resp = route_client_request(
        &mut ctx,
        hider_sid,
        Ok(ClientRequest::TryUncover { id: seeker_eid }),
    );
    assert_eq!(resp, ClientResponse::BadState);
}

#[test]
fn test_try_uncover_unknown_target() {
    let mut ctx = running_round();
    let seeker_sid = seeker_session(&mut ctx);
    let resp = route_client_request(
        &mut ctx,
        seeker_sid,
        Ok(ClientRequest::TryUncover { id: 999 }),
    );
    assert_eq!(resp, ClientResponse::EntityNotFound { id: 999 });
}

#[test]
fn test_try_uncover_outside_round_is_bad_state() {
    let mut ctx = ctx_with_sessions(1);
    let resp = route_client_request(&mut ctx, 0, Ok(ClientRequest::TryUncover { id: 0 }));
    assert_eq!(resp, ClientResponse::BadState);
}

#[test]
fn test_world_check_lists_all_entities() {
    let mut ctx = running_round();
    let expected = match &ctx.gameplay_state {
        GameplayState::GameRunning { world } => world.entities.len(),
        _ => unreachable!(),
    };
    let resp = route_client_request(&mut ctx, 0, Ok(ClientRequest::WorldCheck));
    match resp {
        ClientResponse::WorldCheck { entities } => {
            assert_eq!(entities.len(), expected);
            assert_eq!(entities.iter().filter(|e| !e.is_npc).count(), 2);
        },
        other => panic!("unexpected response {other:?}"),
    }
}

#[test]
fn test_get_client_session_data_reports_state() {
    let mut ctx = ctx_with_sessions(1);
    let resp = route_client_request(
        &mut ctx,
        0,
        Ok(ClientRequest::SetName { new_name: Some("Ann".to_string()) }),
    );
    assert_eq!(resp, ClientResponse::SetName { result: Ok(()) });
    let resp = route_client_request(&mut ctx, 0, Ok(ClientRequest::GetClientSessionData));
    match resp {
        ClientResponse::GetClientSessionData { data } => {
            assert_eq!(data.points, 0);
            match data.state {
                ClientSessionState::NameWasSet { name, ready_to_start, entity_player_id } => {
                    assert_eq!(name, "Ann");
                    assert!(!ready_to_start);
                    assert_eq!(entity_player_id, None);
                },
                other => panic!("expected a named session, found {other:?}"),
            }
        },
        other => panic!("unexpected response {other:?}"),
    }
}

#[test]
fn test_uncover_result_was_in_range() {
    assert!(UncoverResult { was_hider: Some(true) }.was_in_range());
    assert!(UncoverResult { was_hider: Some(false) }.was_in_range());
    assert!(!UncoverResult { was_hider: None }.was_in_range());
}
