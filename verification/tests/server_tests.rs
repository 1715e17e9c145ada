use rust_multiplayer::requests::{ClientRequest, ClientResponse, GameplayResult, GameplayStateBrief};
use rust_multiplayer::routes::route_client_request;
use rust_multiplayer::server::{
    check_gameplay_result, ClientSessionRecord, GameplayState, GameplayStateTransitionError,
    MultiplayerServerContext, ENDING_COUNTDOWN, TICKS_TO_COUNTDOWN,
};
use rust_multiplayer::session::{ClientSessionData, ClientSessionState};
use rust_multiplayer::world::{entity_size, get_tiled_vec, World};

fn context_with_named_sessions(names: &[&str]) -> MultiplayerServerContext {
    let mut ctx = MultiplayerServerContext::new();
    for (i, name) in names.iter().enumerate() {
        ctx.register_session(i as u32);
        let resp = route_client_request(
            &mut ctx,
            i as u32,
            Ok(ClientRequest::SetName { new_name: Some(name.to_string()) }),
        );
        assert_eq!(resp, ClientResponse::SetName { result: Ok(()) });
    }
    ctx
}

fn set_ready(ctx: &mut MultiplayerServerContext, sid: u32, ready: bool) {
    let resp = route_client_request(ctx, sid, Ok(ClientRequest::SetReady { ready }));
    assert_eq!(resp, ClientResponse::SetReady { was_set: ready });
}

fn brief_of(ctx: &mut MultiplayerServerContext, sid: u32) -> GameplayStateBrief {
    match route_client_request(ctx, sid, Ok(ClientRequest::CheckGameplayState)) {
        ClientResponse::CheckGameplayState { state } => state,
        other => panic!("unexpected response {other:?}"),
    }
}

#[test]
fn test_gameplay_state_transitions() {
    let mut state = GameplayState::default();
    assert!(matches!(
        state,
        GameplayState::Lobby { counting_to_start: None, last_result: None }
    ));

    assert_eq!(
        state.try_transition_from_ending_to_lobby(),
        Err(GameplayStateTransitionError::AlreadyInState)
    );
    assert_eq!(
        state.try_transition_from_gamerunning_to_ending(GameplayResult::SeekerWin { reward: 5 }),
        Err(GameplayStateTransitionError::BadState)
    );

    state.try_transition_from_lobby_to_gamerunning().unwrap();
    assert!(matches!(state, GameplayState::GameRunning { .. }));
    assert_eq!(
        state.try_transition_from_lobby_to_gamerunning(),
        Err(GameplayStateTransitionError::AlreadyInState)
    );

    state
        .try_transition_from_gamerunning_to_ending(GameplayResult::HidersWin { reward: 5 })
        .unwrap();
    assert!(matches!(state, GameplayState::Ending { countdown, .. } if countdown == ENDING_COUNTDOWN));

    state.try_transition_from_ending_to_lobby().unwrap();
    assert!(matches!(
        state,
        GameplayState::Lobby {
            counting_to_start: None,
            last_result: Some(GameplayResult::HidersWin { reward: 5 })
        }
    ));
}

#[test]
fn test_win_condition_hiders_win_when_failures_run_out() {
    let mut world = World::new();
    let seeker = world.create_entity_player("S", get_tiled_vec(0, 0), entity_size());
    let _hider = world.create_entity_player("H", get_tiled_vec(1, 0), entity_size());
    world.select_entity_as_seeker(seeker, 2000, 3).unwrap();

    assert_eq!(check_gameplay_result(&world), None);

    // Three failed uncover attempts drive the failure budget to zero.
    world.punish_seeker(seeker).unwrap();
    world.punish_seeker(seeker).unwrap();
    assert_eq!(check_gameplay_result(&world), None);
    world.punish_seeker(seeker).unwrap();
    assert_eq!(
        check_gameplay_result(&world),
        Some(GameplayResult::HidersWin { reward: 5 })
    );
}

#[test]
fn test_win_condition_hiders_win_when_time_runs_out() {
    let mut world = World::new();
    let seeker = world.create_entity_player("S", get_tiled_vec(0, 0), entity_size());
    let _hider = world.create_entity_player("H", get_tiled_vec(1, 0), entity_size());
    world.select_entity_as_seeker(seeker, 2, 3).unwrap();

    assert_eq!(check_gameplay_result(&world), None);
    world.tick_seeker_remaining_time();
    world.tick_seeker_remaining_time();
    assert_eq!(
        check_gameplay_result(&world),
        Some(GameplayResult::HidersWin { reward: 5 })
    );
}

#[test]
fn test_win_condition_hiders_win_without_seeker() {
    let mut world = World::new();
    let _hider = world.create_entity_player("H", get_tiled_vec(1, 0), entity_size());
    assert_eq!(
        check_gameplay_result(&world),
        Some(GameplayResult::HidersWin { reward: 5 })
    );
}

#[test]
fn test_win_condition_seeker_wins_once_all_uncovered() {
    let mut world = World::new();
    let seeker = world.create_entity_player("S", get_tiled_vec(0, 0), entity_size());
    let hider_a = world.create_entity_player("A", get_tiled_vec(1, 0), entity_size());
    let hider_b = world.create_entity_player("B", get_tiled_vec(2, 0), entity_size());
    world.select_entity_as_seeker(seeker, 2000, 3).unwrap();

    assert_eq!(check_gameplay_result(&world), None);
    world.set_hider_covered(hider_a, false).unwrap();
    assert_eq!(check_gameplay_result(&world), None);
    world.set_hider_covered(hider_b, false).unwrap();
    assert_eq!(
        check_gameplay_result(&world),
        Some(GameplayResult::SeekerWin { reward: 5 })
    );
}

#[test]
fn test_lobby_countdown_starts_and_counts_down() {
    let mut ctx = context_with_named_sessions(&["Ann", "Bob"]);
    set_ready(&mut ctx, 0, true);
    set_ready(&mut ctx, 1, true);

    // The tick after both are ready starts the countdown at its full value.
    ctx.main_loop_procedure();
    assert!(matches!(
        ctx.gameplay_state,
        GameplayState::Lobby { counting_to_start: Some(TICKS_TO_COUNTDOWN), .. }
    ));

    ctx.main_loop_procedure();
    assert!(matches!(
        ctx.gameplay_state,
        GameplayState::Lobby { counting_to_start: Some(c), .. } if c == TICKS_TO_COUNTDOWN - 1
    ));

    // Enough further ticks start the round.
    for _ in 0..20 {
        ctx.main_loop_procedure();
    }
    assert!(matches!(ctx.gameplay_state, GameplayState::GameRunning { .. }));
}

#[test]
fn test_lobby_countdown_cancelled_when_one_unreadies() {
    let mut ctx = context_with_named_sessions(&["Ann", "Bob"]);
    set_ready(&mut ctx, 0, true);
    set_ready(&mut ctx, 1, true);

    ctx.main_loop_procedure();
    assert!(matches!(
        ctx.gameplay_state,
        GameplayState::Lobby { counting_to_start: Some(_), .. }
    ));

    set_ready(&mut ctx, 1, false);
    ctx.main_loop_procedure();
    assert!(matches!(
        ctx.gameplay_state,
        GameplayState::Lobby { counting_to_start: None, .. }
    ));
}

#[test]
fn test_countdown_does_not_start_with_one_session() {
    let mut ctx = context_with_named_sessions(&["Ann"]);
    set_ready(&mut ctx, 0, true);
    ctx.main_loop_procedure();
    assert!(matches!(
        ctx.gameplay_state,
        GameplayState::Lobby { counting_to_start: None, .. }
    ));
}

#[test]
fn test_round_start_assigns_entities_and_npcs() {
    let mut ctx = context_with_named_sessions(&["Ann", "Bob"]);
    set_ready(&mut ctx, 0, true);
    set_ready(&mut ctx, 1, true);
    for _ in 0..=TICKS_TO_COUNTDOWN + 1 {
        ctx.main_loop_procedure();
    }
    let world = match &ctx.gameplay_state {
        GameplayState::GameRunning { world } => world,
        other => panic!("expected a running round, found {other:?}"),
    };

    // Two players plus two NPCs (two per hider, one hider).
    let players = world.entities.iter().filter(|e| e.is_player()).count();
    let npcs = world.entities.iter().filter(|e| !e.is_player()).count();
    assert_eq!(players, 2);
    assert_eq!(npcs, 2);

    // Entities sit on distinct free tiles around the origin.
    for (i, a) in world.entities.iter().enumerate() {
        for b in world.entities.iter().skip(i + 1) {
            assert_ne!(a.position, b.position);
        }
    }

    // Exactly one seeker; every session is attached and no longer ready.
    let summary = world.get_seeker_hiders_summary();
    assert!(summary.seeker.is_some());
    assert_eq!(summary.hiders.len(), 1);
    for record in &ctx.client_sessions {
        assert_eq!(record.data.get_entity_player_id().is_some(), true);
    }
}

#[test]
fn test_round_ends_and_returns_to_lobby() {
    let mut ctx = context_with_named_sessions(&["Ann", "Bob"]);
    set_ready(&mut ctx, 0, true);
    set_ready(&mut ctx, 1, true);
    for _ in 0..=TICKS_TO_COUNTDOWN + 1 {
        ctx.main_loop_procedure();
    }
    assert!(matches!(ctx.gameplay_state, GameplayState::GameRunning { .. }));

    // Uncover the hider by force: the next driver tick ends the round.
    match &mut ctx.gameplay_state {
        GameplayState::GameRunning { world } => {
            let hiders = world.get_seeker_hiders_summary().hiders;
            for (id, _) in hiders {
                world.set_hider_covered(id, false).unwrap();
            }
        },
        _ => unreachable!(),
    }
    ctx.main_loop_procedure();
    assert!(matches!(
        ctx.gameplay_state,
        GameplayState::Ending { countdown: ENDING_COUNTDOWN, result: GameplayResult::SeekerWin { reward: 5 } }
    ));
    // Sessions are detached when the round ends.
    for record in &ctx.client_sessions {
        assert_eq!(record.data.get_entity_player_id(), None);
    }

    for _ in 0..ENDING_COUNTDOWN {
        ctx.main_loop_procedure();
    }
    assert!(matches!(
        ctx.gameplay_state,
        GameplayState::Lobby { counting_to_start: None, last_result: Some(GameplayResult::SeekerWin { reward: 5 }) }
    ));
}

#[test]
fn test_check_initial_gameplay_state_should_be_lobby() {
    let mut ctx = MultiplayerServerContext::new();
    ctx.register_session(0);
    assert_eq!(
        brief_of(&mut ctx, 0),
        GameplayStateBrief::Lobby { counting_to_start: None, last_result: None }
    );
}

#[test]
fn test_round_generation_radius_grows_with_the_lobby() {
    // Five sessions: four hiders, so a twelve-tile radius, five player
    // entities and eight NPCs (two per hider), all on distinct free tiles.
    let mut world = World::new();
    let mut sessions = Vec::new();
    for i in 0..5u32 {
        sessions.push(ClientSessionRecord {
            id: i,
            data: ClientSessionData {
                state: ClientSessionState::NameWasSet {
                    name: format!("Player{i}"),
                    ready_to_start: true,
                    entity_player_id: None,
                },
                points: 0,
            },
        });
    }
    let res = MultiplayerServerContext::start_new_game(&mut world, &mut sessions);
    assert_eq!(res, Ok(()));

    let players = world.entities.iter().filter(|e| e.is_player()).count();
    let npcs = world.entities.iter().filter(|e| !e.is_player()).count();
    assert_eq!(players, 5);
    assert_eq!(npcs, 8);
    for (i, a) in world.entities.iter().enumerate() {
        for b in world.entities.iter().skip(i + 1) {
            assert_ne!(a.position, b.position);
        }
    }
    for record in &sessions {
        assert!(record.data.get_entity_player_id().is_some());
    }
}

#[test]
fn test_session_registry_register_and_remove() {
    let mut ctx = MultiplayerServerContext::new();
    ctx.register_session(0);
    ctx.register_session(1);
    assert_eq!(ctx.get_connections_count(), 2);
    assert!(ctx.remove_session(0));
    assert!(!ctx.remove_session(0));
    assert_eq!(ctx.get_connections_count(), 1);
}
