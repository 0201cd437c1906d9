use isaac_four_souls::players::{
    handle_message, player_not_found_error, Player, PlayerManager, ServerMessage, ServerResponse,
};

#[test]
fn test_player_manager_workflow() {
    let player1 = Player::new("Gino");
    let player2 = Player::new("Fabrizio");

    let mut manager = PlayerManager::new();

    let player1_id = player1.id.clone();
    let player2_id = player2.id.clone();

    assert!(manager.get_player(&player1_id).is_none());

    assert!(manager.add_player(player1).is_ok());
    assert!(manager.add_player(player2).is_ok());

    let connected_players = manager.list_connected_players();
    assert_eq!(connected_players.len(), 2, "Should have 2 connected players");

    manager.disconnect_player(&player1_id).unwrap();
    manager.disconnect_player(&player2_id).unwrap();

    let connected_players = manager.list_connected_players();
    assert_eq!(connected_players.len(), 0);
    assert_eq!(manager.player_count(), 2);
    assert_eq!(manager.connected_count(), 0);

    let removed = manager.remove_player(&player1_id);
    assert!(removed.is_some());
    assert_eq!(manager.player_count(), 1);
}

#[test]
fn test_player_manager_edge_cases() {
    let mut manager = PlayerManager::new();

    // Unknown ids are refused or answered with nothing.
    assert!(manager.get_player("missing").is_none());
    assert!(manager.remove_player("missing").is_none());
    assert!(manager.disconnect_player("missing").is_err());

    // The same id cannot be registered twice.
    let player = Player::new("Solo");
    let id = player.id.clone();
    assert!(manager.add_player(player).is_ok());
    let twin = Player {
        id: id.clone(),
        name: "Impostor".to_string(),
        is_connected: true,
    };
    assert!(manager.add_player(twin).is_err());
    assert_eq!(manager.player_count(), 1);
}

#[test]
fn test_chat_server_messages() {
    let mut manager = PlayerManager::new();

    // Ping pongs without touching the roster.
    assert!(matches!(
        handle_message(ServerMessage::Ping, &mut manager),
        ServerResponse::Pong
    ));

    // Joining welcomes the new player under their fresh id.
    let player_id = match handle_message(
        ServerMessage::Join {
            player_name: "Gina".to_string(),
        },
        &mut manager,
    ) {
        ServerResponse::Welcome { player_id } => player_id,
        other => panic!("Expected a welcome, got {:?}", other),
    };
    assert_eq!(manager.player_count(), 1);

    // Chat echoes under the sender's name.
    match handle_message(
        ServerMessage::Chat {
            player_id: player_id.clone(),
            message: "hi all".to_string(),
        },
        &mut manager,
    ) {
        ServerResponse::ChatMessage {
            player_name,
            message,
        } => {
            assert_eq!(player_name, "Gina");
            assert_eq!(message, "hi all");
        }
        other => panic!("Expected a chat echo, got {:?}", other),
    }

    // An unknown player cannot chat.
    match handle_message(
        ServerMessage::Chat {
            player_id: "missing".to_string(),
            message: "hi".to_string(),
        },
        &mut manager,
    ) {
        ServerResponse::Error { message } => assert_eq!(message, "Player not found"),
        other => panic!("Expected an error, got {:?}", other),
    }

    // Leaving hands back the name that left.
    match handle_message(ServerMessage::Leave { player_id }, &mut manager) {
        ServerResponse::PlayerLeft { player_name } => assert_eq!(player_name, "Gina"),
        other => panic!("Expected a leave notice, got {:?}", other),
    }
    assert_eq!(manager.player_count(), 0);
}

#[test]
fn test_player_not_found_error_shape() {
    match player_not_found_error() {
        ServerResponse::Error { message } => assert_eq!(message, "Player not found"),
        other => panic!("Expected an error, got {:?}", other),
    }
}
