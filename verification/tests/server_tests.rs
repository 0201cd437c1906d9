use isaac_four_souls::broadcaster::Delivery;
use isaac_four_souls::connection::{ConnectionActor, ConnectionDispatch, ConnectionState};
use isaac_four_souls::errors::{validate_player_name, validate_room_name, AppError};
use isaac_four_souls::lobby::{LobbyActor, LobbyEffect, LobbyMessage};
use isaac_four_souls::messages::{ClientMessage, ClientMessageCategory, ServerResponse};
use isaac_four_souls::recovery::{ErrorRecoveryManager, RecoveryDecision, RecoveryStrategy};
use isaac_four_souls::registry::ActorRegistry;
use isaac_four_souls::reliable::{create_reliable_message, MessageReceiver};
use isaac_four_souls::session::GameMessage;
use isaac_four_souls::strmap::StrMap;

fn lobby_with_two_ready_players() -> (LobbyActor, String) {
    let mut lobby = LobbyActor::new();
    lobby
        .handle_message(LobbyMessage::CreateRoom {
            connection_id: "conn1".to_string(),
            room_name: "R".to_string(),
            first_player_name: "A".to_string(),
        })
        .unwrap();
    let room_id = lobby
        .manager
        .get_player_room_from_connection_id("conn1")
        .unwrap();
    lobby
        .handle_message(LobbyMessage::JoinRoom {
            connection_id: "conn2".to_string(),
            player_name: "B".to_string(),
            room_id: room_id.clone(),
        })
        .unwrap();
    (lobby, room_id)
}

#[test]
fn test_room_create_and_join_flow() {
    let mut lobby = LobbyActor::new();
    let effects = lobby
        .handle_message(LobbyMessage::CreateRoom {
            connection_id: "conn1".to_string(),
            room_name: "R".to_string(),
            first_player_name: "A".to_string(),
        })
        .unwrap();
    assert_eq!(effects.len(), 2);
    let room_id = match &effects[0] {
        LobbyEffect::Deliver(Delivery::ToPlayer {
            connection_id,
            response: ServerResponse::RoomCreated { room_id, player_id },
        }) => {
            assert_eq!(connection_id, "conn1");
            assert!(!player_id.is_empty());
            room_id.clone()
        }
        other => panic!("Expected RoomCreated to the creator, got {:?}", other),
    };
    match &effects[1] {
        LobbyEffect::Deliver(Delivery::ToAll {
            response: ServerResponse::RoomCreatedBroadcast { room_id: rid },
        }) => assert_eq!(*rid, room_id),
        other => panic!("Expected RoomCreatedBroadcast, got {:?}", other),
    }

    let effects = lobby
        .handle_message(LobbyMessage::JoinRoom {
            connection_id: "conn2".to_string(),
            player_name: "B".to_string(),
            room_id: room_id.clone(),
        })
        .unwrap();
    assert_eq!(effects.len(), 2);
    match &effects[0] {
        LobbyEffect::Deliver(Delivery::ToPlayer {
            connection_id,
            response: ServerResponse::SelfJoined {
                player_name,
                player_id,
            },
        }) => {
            assert_eq!(connection_id, "conn2");
            assert_eq!(player_name, "B");
            assert!(!player_id.is_empty());
        }
        other => panic!("Expected SelfJoined to the joiner, got {:?}", other),
    }
    match &effects[1] {
        LobbyEffect::Deliver(Delivery::ToPlayers {
            connections_id,
            response: ServerResponse::PlayerJoined { player_name, .. },
        }) => {
            assert_eq!(player_name, "B");
            let mut conns = connections_id.clone();
            conns.sort();
            assert_eq!(conns, vec!["conn1".to_string(), "conn2".to_string()]);
        }
        other => panic!("Expected PlayerJoined to the room, got {:?}", other),
    }
}

#[test]
fn test_game_start_flow() {
    let (mut lobby, room_id) = lobby_with_two_ready_players();

    let effects = lobby
        .handle_message(LobbyMessage::PlayerReady {
            connection_id: "conn1".to_string(),
        })
        .unwrap();
    assert_eq!(effects.len(), 1);
    match &effects[0] {
        LobbyEffect::Deliver(Delivery::ToAll {
            response: ServerResponse::PlayersReady { players_ready },
        }) => assert_eq!(players_ready.len(), 1),
        other => panic!("Expected PlayersReady, got {:?}", other),
    }

    let effects = lobby
        .handle_message(LobbyMessage::PlayerReady {
            connection_id: "conn2".to_string(),
        })
        .unwrap();

    let mut notified = Vec::new();
    let mut saw_game_start = false;
    let mut saw_lobby_started = false;
    let mut started_game = None;
    for effect in &effects {
        match effect {
            LobbyEffect::NotifyGameStart {
                connection_id,
                game_id,
                ..
            } => {
                assert_eq!(*game_id, room_id);
                notified.push(connection_id.clone());
            }
            LobbyEffect::Deliver(Delivery::ToPlayers {
                response: ServerResponse::RoomGameStart { turn_order },
                ..
            }) => {
                saw_game_start = true;
                assert_eq!(turn_order.len(), 2);
            }
            LobbyEffect::Deliver(Delivery::ToAll {
                response: ServerResponse::LobbyStartedGame { room_id: rid },
            }) => {
                saw_lobby_started = true;
                assert_eq!(*rid, room_id);
            }
            LobbyEffect::StartGame {
                game_id,
                players_id_to_connection_id,
                turn_order,
            } => {
                assert_eq!(*game_id, room_id);
                assert_eq!(players_id_to_connection_id.len(), 2);
                assert_eq!(turn_order.order.len(), 2);
                started_game = Some(turn_order.order.clone());
            }
            _ => {}
        }
    }
    notified.sort();
    assert_eq!(notified, vec!["conn1".to_string(), "conn2".to_string()]);
    assert!(saw_game_start);
    assert!(saw_lobby_started);
    assert!(started_game.is_some());

    // The room is now in game: nobody else may join.
    let result = lobby.handle_message(LobbyMessage::JoinRoom {
        connection_id: "conn3".to_string(),
        player_name: "C".to_string(),
        room_id,
    });
    assert!(matches!(result, Err(AppError::RoomInGame { .. })));
}

#[test]
fn test_destroy_room_flow() {
    let (mut lobby, room_id) = lobby_with_two_ready_players();
    let effects = lobby
        .handle_message(LobbyMessage::DestroyRoom {
            connection_id: "conn1".to_string(),
            room_id: room_id.clone(),
        })
        .unwrap();
    // CleanupGame, one lobby-return per member, RoomDestroyed.
    assert_eq!(effects.len(), 4);
    match &effects[0] {
        LobbyEffect::CleanupGame { game_id } => assert_eq!(*game_id, room_id),
        other => panic!("Expected CleanupGame first, got {:?}", other),
    }
    let mut returned = Vec::new();
    for effect in &effects[1..3] {
        match effect {
            LobbyEffect::NotifyLobbyReturn { connection_id } => {
                returned.push(connection_id.clone())
            }
            other => panic!("Expected NotifyLobbyReturn, got {:?}", other),
        }
    }
    returned.sort();
    assert_eq!(returned, vec!["conn1".to_string(), "conn2".to_string()]);
    match &effects[3] {
        LobbyEffect::Deliver(Delivery::ToAll {
            response: ServerResponse::RoomDestroyed { room_id: rid },
        }) => assert_eq!(*rid, room_id),
        other => panic!("Expected RoomDestroyed, got {:?}", other),
    }
    assert!(lobby.manager.get_room(&room_id).is_none());
    // Every member of the destroyed room is back out of the directory
    // and free to join again.
    assert!(!lobby.manager.connection_to_room_info.contains_key("conn1"));
    assert!(!lobby.manager.connection_to_room_info.contains_key("conn2"));
    let effects = lobby
        .handle_message(LobbyMessage::CreateRoom {
            connection_id: "conn2".to_string(),
            room_name: "R2".to_string(),
            first_player_name: "B".to_string(),
        })
        .unwrap();
    assert_eq!(effects.len(), 2);
}

#[test]
fn test_lobby_chat_and_ping() {
    let (mut lobby, _) = lobby_with_two_ready_players();
    let effects = lobby
        .handle_message(LobbyMessage::Ping {
            connection_id: "conn1".to_string(),
        })
        .unwrap();
    assert!(matches!(
        &effects[0],
        LobbyEffect::Deliver(Delivery::ToPlayer {
            response: ServerResponse::Pong,
            ..
        })
    ));

    let effects = lobby
        .handle_message(LobbyMessage::Chat {
            connection_id: "conn2".to_string(),
            message: "hello".to_string(),
        })
        .unwrap();
    match &effects[0] {
        LobbyEffect::Deliver(Delivery::ToPlayers {
            response:
                ServerResponse::ChatMessage {
                    player_name,
                    message,
                },
            ..
        }) => {
            assert_eq!(player_name, "B");
            assert_eq!(message, "hello");
        }
        other => panic!("Expected ChatMessage, got {:?}", other),
    }

    let result = lobby.handle_message(LobbyMessage::Chat {
        connection_id: "stranger".to_string(),
        message: "hi".to_string(),
    });
    assert!(matches!(result, Err(AppError::ConnectionNotInRoom)));
}

#[test]
fn test_registry_bindings_and_routing() {
    let mut registry = ActorRegistry::new();
    registry.register_connection_actor("conn1".to_string());
    registry.register_connection_actor("conn2".to_string());

    let mut mapping: StrMap<String> = StrMap::new();
    mapping.insert("pa".to_string(), "conn1".to_string());
    mapping.insert("pb".to_string(), "conn2".to_string());
    registry.start_game_actor("game1".to_string(), &mapping);

    assert!(registry.is_connection_in_game("conn1"));
    assert_eq!(
        registry.get_connection_game("conn2"),
        Some("game1".to_string())
    );
    assert_eq!(registry.route_game_message("conn1").unwrap(), "game1");
    assert!(matches!(
        registry.route_game_message("stranger"),
        Err(AppError::ConnectionNotInRoom)
    ));
}

#[test]
fn test_cleanup_game_actor_is_idempotent() {
    let mut registry = ActorRegistry::new();
    registry.register_connection_actor("conn1".to_string());
    registry.register_connection_actor("conn2".to_string());
    let mut mapping: StrMap<String> = StrMap::new();
    mapping.insert("pa".to_string(), "conn1".to_string());
    mapping.insert("pb".to_string(), "conn2".to_string());
    registry.start_game_actor("game1".to_string(), &mapping);

    registry.cleanup_game_actor("game1");
    assert!(!registry.is_connection_in_game("conn1"));
    assert!(!registry.is_connection_in_game("conn2"));
    assert!(registry.route_game_message("conn1").is_err());

    // Cleaning up again changes nothing and hurts nothing.
    registry.cleanup_game_actor("game1");
    assert!(!registry.is_connection_in_game("conn1"));
    assert!(registry.route_game_message("conn2").is_err());
}

#[test]
fn test_transport_drop_deregisters_connection() {
    let mut registry = ActorRegistry::new();
    registry.register_connection_actor("conn1".to_string());
    let mut mapping: StrMap<String> = StrMap::new();
    mapping.insert("pa".to_string(), "conn1".to_string());
    registry.start_game_actor("game1".to_string(), &mapping);

    let was_in = registry.remove_player_connection("conn1");
    assert_eq!(was_in, Some("game1".to_string()));
    assert!(!registry.is_connection_in_game("conn1"));

    // Dropping a connection that was never bound reports nothing.
    assert_eq!(registry.remove_player_connection("conn1"), None);
}

#[test]
fn test_connection_actor_classification() {
    let mut actor = ConnectionActor::new("conn1".to_string());
    assert!(matches!(actor.get_state(), ConnectionState::InLobby));

    // Lobby-category messages go to the lobby, stamped with the sender.
    let dispatch = actor
        .handle_client_message(ClientMessage::CreateRoom {
            room_name: "R".to_string(),
            first_player_name: "A".to_string(),
        })
        .unwrap();
    match dispatch {
        ConnectionDispatch::ToLobby(LobbyMessage::CreateRoom { connection_id, .. }) => {
            assert_eq!(connection_id, "conn1");
        }
        other => panic!("Expected a lobby dispatch, got {:?}", other),
    }

    // A game-category message from the lobby is refused.
    let result = actor.handle_client_message(ClientMessage::TurnPass);
    assert!(matches!(result, Err(AppError::ConnectionNotInRoom)));

    // Once in a game the same message routes to the game.
    actor.transition_to_game("game1".to_string(), "pa".to_string());
    let dispatch = actor.handle_client_message(ClientMessage::TurnPass).unwrap();
    match dispatch {
        ConnectionDispatch::ToGame(GameMessage::TurnPassFromConnection { connection_id }) => {
            assert_eq!(connection_id, "conn1");
        }
        other => panic!("Expected a game dispatch, got {:?}", other),
    }

    // Leaving a room puts the connection straight back in the lobby.
    let _ = actor.handle_client_message(ClientMessage::LeaveRoom).unwrap();
    assert!(matches!(actor.get_state(), ConnectionState::InLobby));
}

#[test]
fn test_message_categories() {
    assert_eq!(
        ClientMessage::Ping.category(),
        ClientMessageCategory::LobbyMessage
    );
    assert_eq!(
        ClientMessage::PlayerReady.category(),
        ClientMessageCategory::LobbyMessage
    );
    assert_eq!(
        ClientMessage::TurnPass.category(),
        ClientMessageCategory::GameMessage
    );
    assert_eq!(
        ClientMessage::PriorityPass.category(),
        ClientMessageCategory::GameMessage
    );
}

#[test]
fn test_reliable_receiver_orders_messages() {
    let mut receiver = MessageReceiver::new();

    let m1 = create_reliable_message("one".to_string(), "id1".to_string(), 1, 100);
    let m2 = create_reliable_message("two".to_string(), "id2".to_string(), 2, 101);
    let m3 = create_reliable_message("three".to_string(), "id3".to_string(), 3, 102);

    // A future message is buffered, not delivered.
    let (ack, delivered) = receiver.receive_message(m3.clone());
    assert_eq!(ack.message_id, "id3");
    assert!(delivered.is_empty());

    // The expected message is delivered at once.
    let (ack, delivered) = receiver.receive_message(m1.clone());
    assert_eq!(ack.message_id, "id1");
    assert_eq!(delivered.len(), 1);
    assert_eq!(delivered[0].payload, "one");

    // Filling the gap releases the buffered successor in order.
    let (_, delivered) = receiver.receive_message(m2.clone());
    assert_eq!(delivered.len(), 2);
    assert_eq!(delivered[0].payload, "two");
    assert_eq!(delivered[1].payload, "three");

    // A duplicate is acknowledged but not re-delivered.
    let (ack, delivered) = receiver.receive_message(m1);
    assert_eq!(ack.message_id, "id1");
    assert!(delivered.is_empty());
}

#[test]
fn test_connection_actor_reliable_layer() {
    let mut actor = ConnectionActor::new("conn1".to_string());
    let m2 = create_reliable_message("late".to_string(), "idb".to_string(), 2, 100);
    let m1 = create_reliable_message("early".to_string(), "ida".to_string(), 1, 100);
    let (_, delivered) = actor.handle_reliable_message(m2);
    assert!(delivered.is_empty());
    let (_, delivered) = actor.handle_reliable_message(m1);
    assert_eq!(delivered.len(), 2);
}

#[test]
fn test_validation_rules() {
    assert!(validate_player_name("Alice_1-2").is_ok());
    assert!(validate_player_name("   ").is_err());
    assert!(validate_player_name("bad name!").is_err());
    let long: String = "x".repeat(51);
    assert!(validate_player_name(&long).is_err());

    assert!(validate_room_name("My Room").is_ok());
    assert!(matches!(
        validate_room_name("   "),
        Err(AppError::RoomNameEmpty)
    ));
    let long_room: String = "y".repeat(101);
    assert!(matches!(
        validate_room_name(&long_room),
        Err(AppError::InvalidRoomName { .. })
    ));
}

#[test]
fn test_error_codes_and_names() {
    assert_eq!(AppError::NotPlayerTurn.status_code(), 200);
    assert_eq!(AppError::ConnectionNotInRoom.status_code(), 400);
    assert_eq!(AppError::RoomNameEmpty.status_code(), 422);
    assert_eq!(
        AppError::Internal {
            message: "x".to_string()
        }
        .status_code(),
        500
    );
    assert_eq!(AppError::InvalidPriorityPass.variant_name(), "InvalidPriorityPass");
    assert_eq!(AppError::EmptyLootDeck.variant_name(), "EmptyLootDeck");
    assert!(!AppError::NotPlayerTurn.should_log());
    assert!(AppError::Internal {
        message: "x".to_string()
    }
    .should_log());
}

#[test]
fn test_error_messages_embed_numbers() {
    let e = AppError::RoomFull {
        room_id: "r".to_string(),
        max_players: 4,
    };
    assert_eq!(e.user_friendly_message(), "Room is full (maximum 4 players)");

    let e = AppError::PlayersNotReady {
        ready_count: 1,
        total_count: 2,
    };
    assert_eq!(
        e.user_friendly_message(),
        "Cannot start game - only 1/2 players ready"
    );

    let e = AppError::PlayerAlreadyInRoom {
        player_name: "Ann".to_string(),
    };
    assert_eq!(
        e.user_friendly_message(),
        "Player 'Ann' is already in a room"
    );
}

#[test]
fn test_error_response_shape() {
    let resp = ServerResponse::from_app_error(&AppError::NotPlayerTurn);
    match resp {
        ServerResponse::Error {
            error_type,
            message,
            code,
        } => {
            assert_eq!(error_type, "NotPlayerTurn");
            assert_eq!(message, "Not player's turn");
            assert_eq!(code, 200);
        }
        other => panic!("Expected an error response, got {:?}", other),
    }
}

#[test]
fn test_recovery_decisions() {
    let mut mgr = ErrorRecoveryManager::new(RecoveryStrategy::Retry {
        max_attempts: 2,
        backoff_ms: 500,
    });
    assert_eq!(
        mgr.note_error(10),
        RecoveryDecision::RetryAfter { backoff_ms: 500 }
    );
    assert_eq!(
        mgr.note_error(20),
        RecoveryDecision::RetryAfter { backoff_ms: 500 }
    );
    assert_eq!(mgr.note_error(30), RecoveryDecision::GiveUp);
    mgr.reset();
    assert_eq!(mgr.error_count, 0);
    assert_eq!(
        mgr.note_error(40),
        RecoveryDecision::RetryAfter { backoff_ms: 500 }
    );

    let mut esc = ErrorRecoveryManager::new(RecoveryStrategy::Escalate);
    assert_eq!(esc.note_error(1), RecoveryDecision::Escalate);
    let mut ign = ErrorRecoveryManager::new(RecoveryStrategy::Ignore);
    assert_eq!(ign.note_error(1), RecoveryDecision::Proceed);
    let mut rst = ErrorRecoveryManager::new(RecoveryStrategy::Restart);
    assert_eq!(rst.note_error(1), RecoveryDecision::Restart);
}

#[test]
fn test_decimal_rendering() {
    assert_eq!(isaac_four_souls::text::u64_to_string(0), "0");
    assert_eq!(isaac_four_souls::text::u64_to_string(7), "7");
    assert_eq!(isaac_four_souls::text::u64_to_string(10), "10");
    assert_eq!(isaac_four_souls::text::u64_to_string(1234567890), "1234567890");
}

#[test]
fn test_player_name_length_boundary() {
    let just_right: String = "x".repeat(50);
    assert!(validate_player_name(&just_right).is_ok());
    let room_edge: String = "y".repeat(100);
    assert!(validate_room_name(&room_edge).is_ok());
}
