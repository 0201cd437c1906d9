use isaac_four_souls::errors::AppError;
use isaac_four_souls::messages::{ClientMessage, ServerResponse};
use isaac_four_souls::message_handler::handle_message;
use isaac_four_souls::room::{Room, RoomState};
use isaac_four_souls::room_manager::RoomManager;

#[test]
fn test_room_creation() {
    let room = Room::new("Test Room".to_string());

    assert_eq!(room.name, "Test Room");
    assert_eq!(room.players.len(), 0);
    assert_eq!(room.max_players, 4);
    assert_eq!(room.min_players, 2);
    assert!(matches!(room.state, RoomState::Lobby));
    assert!(room.players_ready.is_empty());
    assert!(!room.id.is_empty());
}

#[test]
fn test_add_player_success() {
    let mut room = Room::new("Test Room".to_string());

    let player_id = room.add_player("Alice".to_string()).unwrap();

    assert_eq!(room.players.len(), 1);
    assert_eq!(room.players.get(&player_id), Some(&"Alice".to_string()));
    assert!(!player_id.is_empty());
}

#[test]
fn test_add_player_room_full() {
    let mut room = Room::new("Test Room".to_string());

    for i in 0..4 {
        room.add_player(format!("Player{}", i)).unwrap();
    }

    let result = room.add_player("Extra Player".to_string());
    assert!(result.is_err());
    assert!(matches!(result.unwrap_err(), AppError::RoomFull { .. }));
}

#[test]
fn test_remove_player_success() {
    let mut room = Room::new("Test Room".to_string());
    let player_id = room.add_player("Alice".to_string()).unwrap();

    let removed_name = room.remove_player(&player_id).unwrap();

    assert_eq!(removed_name, "Alice");
    assert_eq!(room.players.len(), 0);
    assert!(!room.players_ready.contains(&player_id));
}

#[test]
fn test_remove_player_not_found() {
    let mut room = Room::new("Test Room".to_string());

    let result = room.remove_player("nonexistent_id");
    assert!(result.is_err());
    assert!(matches!(result.unwrap_err(), AppError::ConnectionNotInRoom));
}

#[test]
fn test_add_player_ready() {
    let mut room = Room::new("Test Room".to_string());
    let player_id = room.add_player("Alice".to_string()).unwrap();

    let ready_set = room.add_player_ready(&player_id).unwrap();

    assert!(ready_set.contains(&player_id));
    assert!(room.players_ready.contains(&player_id));
}

#[test]
fn test_add_player_ready_not_in_room() {
    let mut room = Room::new("Test Room".to_string());

    let result = room.add_player_ready("nonexistent_id");
    assert!(result.is_err());
    assert!(matches!(result.unwrap_err(), AppError::ConnectionNotInRoom));
}

#[test]
fn test_add_player_ready_already_ready() {
    let mut room = Room::new("Test Room".to_string());
    let player_id = room.add_player("Alice".to_string()).unwrap();
    room.add_player_ready(&player_id).unwrap();

    // Readying again is idempotent: the ready set is a set.
    let result = room.add_player_ready(&player_id).unwrap();
    assert!(result.contains(&player_id));
    assert_eq!(result.len(), 1);
    assert_eq!(room.players_ready.len(), 1);
}

#[test]
fn test_can_start_game() {
    let mut room = Room::new("Test Room".to_string());
    let player1_id = room.add_player("Alice".to_string()).unwrap();
    let player2_id = room.add_player("Bob".to_string()).unwrap();

    assert!(!room.can_start_game());

    room.add_player_ready(&player1_id).unwrap();
    assert!(!room.can_start_game());

    room.add_player_ready(&player2_id).unwrap();
    assert!(room.can_start_game());
}

#[test]
fn test_start_game_success() {
    let mut room = Room::new("Test Room".to_string());
    let player1_id = room.add_player("Alice".to_string()).unwrap();
    let player2_id = room.add_player("Bob".to_string()).unwrap();
    room.add_player_ready(&player1_id).unwrap();
    room.add_player_ready(&player2_id).unwrap();

    let result = room.start_game();

    assert!(result.is_ok());
    assert!(matches!(room.state, RoomState::InGame));
    assert!(room.players_ready.is_empty());
}

#[test]
fn test_start_game_cannot_start() {
    let mut room = Room::new("Test Room".to_string());
    room.add_player("Alice".to_string()).unwrap();

    let result = room.start_game();
    assert!(result.is_err());
    assert!(matches!(
        result.unwrap_err(),
        AppError::PlayersNotReady { .. }
    ));
}

#[test]
fn test_get_room_info() {
    let mut room = Room::new("Test Room".to_string());
    room.add_player("Alice".to_string()).unwrap();

    let info = room.get_room_info();

    assert_eq!(info.name, "Test Room");
    assert_eq!(info.player_count, 1);
    assert_eq!(info.max_players, 4);
    assert!(matches!(info.state, RoomState::Lobby));
}

#[test]
fn test_get_players_id() {
    let mut room = Room::new("Test Room".to_string());
    let player1_id = room.add_player("Alice".to_string()).unwrap();
    let player2_id = room.add_player("Bob".to_string()).unwrap();

    let player_ids = room.get_players_id();

    assert_eq!(player_ids.len(), 2);
    assert!(player_ids.contains(&player1_id));
    assert!(player_ids.contains(&player2_id));
}

#[test]
fn test_room_manager_creation() {
    let manager = RoomManager::new();

    assert_eq!(manager.connection_to_room_info.len(), 0);
}

#[test]
fn test_create_room_success() {
    let mut manager = RoomManager::new();

    let (room_id, _player_id) = manager
        .create_room(
            "Test Room".to_string(),
            "conn1".to_string(),
            "Alice".to_string(),
        )
        .unwrap();

    assert!(!room_id.is_empty());
    assert!(manager.connection_to_room_info.contains_key("conn1"));

    let player_info = manager.connection_to_room_info.get("conn1").unwrap();
    assert_eq!(player_info.room_id, room_id);
}

#[test]
fn test_create_room_empty_name() {
    let mut manager = RoomManager::new();

    let result = manager.create_room("".to_string(), "conn1".to_string(), "Alice".to_string());

    assert!(result.is_err());
    assert!(matches!(result.unwrap_err(), AppError::RoomNameEmpty));
}

#[test]
fn test_create_room_player_already_in_room() {
    let mut manager = RoomManager::new();

    manager
        .create_room(
            "Room 1".to_string(),
            "conn1".to_string(),
            "Alice".to_string(),
        )
        .unwrap();

    let result = manager.create_room(
        "Room 2".to_string(),
        "conn1".to_string(),
        "Alice".to_string(),
    );

    assert!(result.is_err());
    assert!(matches!(
        result.unwrap_err(),
        AppError::PlayerAlreadyInRoom { .. }
    ));
}

#[test]
fn test_join_room_success() {
    let mut manager = RoomManager::new();

    let (room_id, _) = manager
        .create_room(
            "Test Room".to_string(),
            "conn1".to_string(),
            "Alice".to_string(),
        )
        .unwrap();

    let result = manager.join_room(&room_id, "conn2".to_string(), "Bob".to_string());

    assert!(result.is_ok());
    assert!(manager.connection_to_room_info.contains_key("conn2"));

    let player_info = manager.connection_to_room_info.get("conn2").unwrap();
    assert_eq!(player_info.room_id, room_id);
}

#[test]
fn test_join_room_not_found() {
    let mut manager = RoomManager::new();

    let result = manager.join_room("nonexistent", "conn1".to_string(), "Alice".to_string());

    assert!(result.is_err());
    assert!(matches!(result.unwrap_err(), AppError::RoomNotFound { .. }));
}

#[test]
fn test_join_room_player_already_in_room() {
    let mut manager = RoomManager::new();

    let (room_id, _) = manager
        .create_room(
            "Test Room".to_string(),
            "conn1".to_string(),
            "Alice".to_string(),
        )
        .unwrap();

    let result = manager.join_room(&room_id, "conn1".to_string(), "Bob".to_string());

    assert!(result.is_err());
    assert!(matches!(
        result.unwrap_err(),
        AppError::PlayerAlreadyInRoom { .. }
    ));
}

#[test]
fn test_leave_room_success() {
    let mut manager = RoomManager::new();

    manager
        .create_room(
            "Test Room".to_string(),
            "conn1".to_string(),
            "Alice".to_string(),
        )
        .unwrap();

    let removed_name = manager.leave_room("conn1").unwrap();

    assert_eq!(removed_name, "Alice");
    assert!(!manager.connection_to_room_info.contains_key("conn1"));
}

#[test]
fn test_leave_room_not_in_room() {
    let mut manager = RoomManager::new();

    let result = manager.leave_room("nonexistent");

    assert!(result.is_err());
    assert!(matches!(result.unwrap_err(), AppError::ConnectionNotInRoom));
}

#[test]
fn test_leave_room_cleanup_empty_room() {
    let mut manager = RoomManager::new();

    let (room_id, _) = manager
        .create_room(
            "Test Room".to_string(),
            "conn1".to_string(),
            "Alice".to_string(),
        )
        .unwrap();

    manager.leave_room("conn1").unwrap();

    // Room should be removed when empty
    assert!(manager.get_room(&room_id).is_none());
}

#[test]
fn test_ready_player_success() {
    let mut manager = RoomManager::new();

    let (room_id, _) = manager
        .create_room(
            "Test Room".to_string(),
            "conn1".to_string(),
            "Alice".to_string(),
        )
        .unwrap();

    manager
        .join_room(&room_id, "conn2".to_string(), "Bob".to_string())
        .unwrap();

    let player1_id = {
        let player1_info = manager.connection_to_room_info.get("conn1").unwrap();
        player1_info.room_player_id.clone()
    };

    let result = manager.ready_player(&player1_id).unwrap();

    assert!(result.players_ready.contains(&player1_id));
    assert!(!result.game_started);
}

#[test]
fn test_ready_player_game_starts() {
    let mut manager = RoomManager::new();

    let (room_id, _) = manager
        .create_room(
            "Test Room".to_string(),
            "conn1".to_string(),
            "Alice".to_string(),
        )
        .unwrap();

    manager
        .join_room(&room_id, "conn2".to_string(), "Bob".to_string())
        .unwrap();

    let player1_id = {
        let info = manager.connection_to_room_info.get("conn1").unwrap();
        info.room_player_id.clone()
    };
    let player2_id = {
        let info = manager.connection_to_room_info.get("conn2").unwrap();
        info.room_player_id.clone()
    };

    manager.ready_player(&player1_id).unwrap();
    let result = manager.ready_player(&player2_id).unwrap();

    assert!(result.game_started);
}

#[test]
fn test_get_player_room_from_connection_id() {
    let mut manager = RoomManager::new();

    let (room_id, _) = manager
        .create_room(
            "Test Room".to_string(),
            "conn1".to_string(),
            "Alice".to_string(),
        )
        .unwrap();

    let found_room_id = manager.get_player_room_from_connection_id("conn1").unwrap();
    assert_eq!(found_room_id, room_id);

    let not_found = manager.get_player_room_from_connection_id("nonexistent");
    assert!(not_found.is_none());
}

#[test]
fn test_get_player_list() {
    let mut manager = RoomManager::new();

    let (room_id, _) = manager
        .create_room(
            "Test Room".to_string(),
            "conn1".to_string(),
            "Alice".to_string(),
        )
        .unwrap();

    manager
        .join_room(&room_id, "conn2".to_string(), "Bob".to_string())
        .unwrap();

    let player_list = manager.get_player_list(&room_id).unwrap();
    assert_eq!(player_list.len(), 2);

    let empty_list = manager.get_player_list("nonexistent");
    assert!(empty_list.is_none());
}

#[test]
fn test_handle_ping_message() {
    let mut room_manager = RoomManager::new();
    let message = ClientMessage::Ping;

    let response = handle_message(message, &mut room_manager, "conn1").unwrap();

    assert!(matches!(response, ServerResponse::Pong));
}

#[test]
fn test_handle_create_room_message() {
    let mut room_manager = RoomManager::new();
    let message = ClientMessage::CreateRoom {
        room_name: "Test Room".to_string(),
        first_player_name: "Alice".to_string(),
    };

    let response = handle_message(message, &mut room_manager, "conn1").unwrap();

    if let ServerResponse::RoomCreated { room_id, .. } = response {
        assert!(!room_id.is_empty());
    } else {
        panic!("Expected RoomCreated response");
    }
}

#[test]
fn test_handle_chat_message_no_room() {
    let mut room_manager = RoomManager::new();
    let message = ClientMessage::Chat {
        message: "Hello".to_string(),
    };

    let response = handle_message(message, &mut room_manager, "conn1");

    assert!(matches!(response, Err(AppError::ConnectionNotInRoom)));
}

#[test]
fn test_handle_chat_message_success() {
    let mut room_manager = RoomManager::new();

    room_manager
        .create_room(
            "Test Room".to_string(),
            "conn1".to_string(),
            "Alice".to_string(),
        )
        .unwrap();

    let message = ClientMessage::Chat {
        message: "Hello".to_string(),
    };

    let response = handle_message(message, &mut room_manager, "conn1").unwrap();

    if let ServerResponse::ChatMessage {
        player_name,
        message,
    } = response
    {
        assert_eq!(player_name, "Alice");
        assert_eq!(message, "Hello");
    } else {
        panic!("Expected ChatMessage response");
    }
}

#[test]
fn test_handle_join_room_message() {
    let mut room_manager = RoomManager::new();

    let (room_id, _) = room_manager
        .create_room(
            "Test Room".to_string(),
            "conn1".to_string(),
            "Alice".to_string(),
        )
        .unwrap();

    let message = ClientMessage::JoinRoom {
        player_name: "Bob".to_string(),
        room_id,
    };

    let response = handle_message(message, &mut room_manager, "conn2").unwrap();

    if let ServerResponse::PlayerJoined { player_name, .. } = response {
        assert_eq!(player_name, "Bob");
    } else {
        panic!("Expected PlayerJoined response");
    }
}

#[test]
fn test_handle_leave_room_message() {
    let mut room_manager = RoomManager::new();

    room_manager
        .create_room(
            "Test Room".to_string(),
            "conn1".to_string(),
            "Alice".to_string(),
        )
        .unwrap();

    let message = ClientMessage::LeaveRoom;

    let response = handle_message(message, &mut room_manager, "conn1").unwrap();

    if let ServerResponse::PlayerLeft { player_name } = response {
        assert_eq!(player_name, "Alice");
    } else {
        panic!("Expected PlayerLeft response");
    }
}

#[test]
fn test_handle_player_ready_message() {
    let mut room_manager = RoomManager::new();

    let (room_id, _) = room_manager
        .create_room(
            "Test Room".to_string(),
            "conn1".to_string(),
            "Alice".to_string(),
        )
        .unwrap();

    room_manager
        .join_room(&room_id, "conn2".to_string(), "Bob".to_string())
        .unwrap();

    let player1_id = {
        let player1_info = room_manager.connection_to_room_info.get("conn1").unwrap();
        player1_info.room_player_id.clone()
    };

    let message = ClientMessage::PlayerReady;

    let response = handle_message(message, &mut room_manager, "conn1").unwrap();

    if let ServerResponse::PlayersReady { players_ready } = response {
        assert!(players_ready.contains(&player1_id));
    } else {
        panic!("Expected PlayersReady response");
    }
}

#[test]
fn test_destroy_room_purges_room() {
    let mut manager = RoomManager::new();
    let (room_id, _) = manager
        .create_room("R".to_string(), "conn1".to_string(), "A".to_string())
        .unwrap();
    manager
        .join_room(&room_id, "conn2".to_string(), "B".to_string())
        .unwrap();

    let destroyed = manager.destroy_room(&room_id, "conn1").unwrap();
    assert_eq!(destroyed, room_id);
    assert!(manager.get_room(&room_id).is_none());
    // Every member of the destroyed room is purged from the index.
    assert!(!manager.connection_to_room_info.contains_key("conn1"));
    assert!(!manager.connection_to_room_info.contains_key("conn2"));
}

#[test]
fn test_get_players_mapping() {
    let mut manager = RoomManager::new();
    let (room_id, pid_a) = manager
        .create_room("R".to_string(), "conn1".to_string(), "A".to_string())
        .unwrap();
    let pid_b = manager
        .join_room(&room_id, "conn2".to_string(), "B".to_string())
        .unwrap();

    let mapping = manager.get_players_mapping(&room_id).unwrap();
    assert_eq!(mapping.len(), 2);
    assert_eq!(mapping.get(&pid_a), Some(&"conn1".to_string()));
    assert_eq!(mapping.get(&pid_b), Some(&"conn2".to_string()));

    assert!(manager.get_players_mapping("nonexistent").is_err());
}

#[test]
fn test_get_connections_for_room() {
    let mut manager = RoomManager::new();
    let (room_id, _) = manager
        .create_room("R".to_string(), "conn1".to_string(), "A".to_string())
        .unwrap();
    manager
        .join_room(&room_id, "conn2".to_string(), "B".to_string())
        .unwrap();

    let mut conns = manager.get_connections_id_from_room_id(&room_id).unwrap();
    conns.sort();
    assert_eq!(conns, vec!["conn1".to_string(), "conn2".to_string()]);

    let others = manager
        .get_connections_id_from_room_id_except_player(&room_id, "conn1")
        .unwrap();
    assert_eq!(others, vec!["conn2".to_string()]);
}

#[test]
fn test_room_ids_are_distinct() {
    let a = Room::new("one".to_string());
    let b = Room::new("two".to_string());
    assert_eq!(a.id.len(), 36);
    assert_eq!(b.id.len(), 36);
    assert_ne!(a.id, b.id);
}
