use isaac_four_souls::board::Board;
use isaac_four_souls::broadcaster::{Delivery, StateBroadcaster};
use isaac_four_souls::cards::{CardTemplate, Database, LootCard};
use isaac_four_souls::deck::LootDeck;
use isaac_four_souls::errors::AppError;
use isaac_four_souls::game_state::{GameState, TurnPhases};
use isaac_four_souls::messages::ServerResponse;
use isaac_four_souls::resources::PlayerResources;
use isaac_four_souls::session::{GameActor, GameEvent, GameMessage};
use isaac_four_souls::strmap::StrMap;
use isaac_four_souls::turn_order::TurnOrder;

fn template(id: &str, name: &str, count: u32) -> CardTemplate {
    CardTemplate {
        id: id.to_string(),
        name: name.to_string(),
        card_type: "Loot".to_string(),
        subtype: "item".to_string(),
        description: "a test card".to_string(),
        count,
    }
}

fn catalogue(total: u32) -> Vec<LootCard> {
    let db = Database::new(vec![
        template("t1", "One Cent", total / 2),
        template("t2", "Two Cents", total - total / 2),
    ]);
    db.create_loot_deck()
}

fn two_player_mapping() -> StrMap<String> {
    let mut m = StrMap::new();
    m.insert("pa".to_string(), "conn1".to_string());
    m.insert("pb".to_string(), "conn2".to_string());
    m
}

#[test]
fn test_create_loot_deck_counts() {
    let deck = catalogue(10);
    assert_eq!(deck.len(), 10);
    let ones = deck
        .iter()
        .filter(|c| c.card.template_id == "t1")
        .count();
    let twos = deck
        .iter()
        .filter(|c| c.card.template_id == "t2")
        .count();
    assert_eq!(ones, 5);
    assert_eq!(twos, 5);
    for c in &deck {
        assert!(c.card.owner_id.is_empty());
        assert_eq!(c.card.entity_id.len(), 36);
    }
}

fn count_board_cards(board: &Board) -> usize {
    let mut total = board.loot_deck.len() + board.loot_discard.len();
    for pid in ["pa", "pb"] {
        total += board.get_player_hand(pid).unwrap().len();
    }
    total
}

#[test]
fn test_board_deal_and_conservation() {
    let deck = catalogue(10);
    let mut board = Board::new(vec!["pa".to_string(), "pb".to_string()], deck);

    assert_eq!(board.get_hand_size("pa").unwrap(), 3);
    assert_eq!(board.get_hand_size("pb").unwrap(), 3);
    assert_eq!(board.loot_deck.len(), 4);
    assert_eq!(count_board_cards(&board), 10);

    // Draws move cards, never create or destroy them.
    board.draw_loot_for_player("pa").unwrap();
    assert_eq!(board.get_hand_size("pa").unwrap(), 4);
    assert_eq!(count_board_cards(&board), 10);

    assert!(matches!(
        board.draw_loot_for_player("nobody"),
        Err(AppError::PlayerNotFound)
    ));
}

#[test]
fn test_board_draw_reshuffles_discard() {
    // Exactly enough cards to deal: the deck is empty afterwards.
    let deck = catalogue(6);
    let mut board = Board::new(vec!["pa".to_string(), "pb".to_string()], deck);
    assert_eq!(board.loot_deck.len(), 0);

    // Empty deck and empty discard: the draw fails.
    assert!(matches!(
        board.draw_loot_for_player("pa"),
        Err(AppError::EmptyLootDeck)
    ));

    // With a discard pile the draw reshuffles it back in.
    let spare = catalogue(2).pop().unwrap();
    board.discard_loot_card(spare);
    let drawn = board.draw_loot_for_player("pa").unwrap();
    assert_eq!(drawn.card.card_type, isaac_four_souls::cards::CardType::Loot);
    assert_eq!(board.loot_deck.len(), 0);
    assert_eq!(board.loot_discard.len(), 0);
    assert_eq!(board.get_hand_size("pa").unwrap(), 4);
}

#[test]
fn test_board_remove_card_from_hand() {
    let deck = catalogue(10);
    let mut board = Board::new(vec!["pa".to_string(), "pb".to_string()], deck);

    let hand = board.get_player_hand("pa").unwrap();
    let target = hand[0].card.template_id.clone();
    let removed = board.remove_card_from_hand("pa", &target).unwrap();
    assert_eq!(removed.card.template_id, target);
    assert_eq!(board.get_hand_size("pa").unwrap(), 2);

    assert!(matches!(
        board.remove_card_from_hand("pa", "no-such-template"),
        Err(AppError::CardNotInHand)
    ));
    assert!(matches!(
        board.remove_card_from_hand("nobody", &target),
        Err(AppError::PlayerNotFound)
    ));
}

#[test]
fn test_loot_deck_draw_and_reshuffle() {
    let cards = catalogue(4);
    let mut deck = LootDeck::new(cards);
    assert_eq!(deck.cards_remaining(), 4);
    assert_eq!(deck.discard_pile_size(), 0);
    assert_eq!(deck.total_deck_size(), 4);

    let a = deck.draw_card().unwrap();
    let b = deck.draw_card().unwrap();
    assert_eq!(deck.cards_remaining(), 2);
    deck.discard_card(a);
    deck.discard_card(b);
    assert_eq!(deck.discard_pile_size(), 2);
    assert_eq!(deck.total_deck_size(), 4);

    // Drain the deck; the discard pile folds back in.
    deck.draw_card().unwrap();
    deck.draw_card().unwrap();
    assert_eq!(deck.cards_remaining(), 0);
    let c = deck.draw_card().unwrap();
    let _ = c;
    assert_eq!(deck.discard_pile_size(), 0);
    assert_eq!(deck.total_deck_size(), 1);
}

#[test]
fn test_loot_deck_draw_cards_and_peek() {
    let cards = catalogue(5);
    let mut deck = LootDeck::new(cards);

    let top = deck.peek_top(2);
    assert_eq!(top.len(), 2);
    assert_eq!(deck.cards_remaining(), 5);

    let drawn = deck.draw_cards(3);
    assert_eq!(drawn.len(), 3);
    assert_eq!(deck.cards_remaining(), 2);

    // Asking for more than there is yields what there is.
    let rest = deck.draw_cards(10);
    assert_eq!(rest.len(), 2);
    assert!(deck.draw_card().is_none());
}

#[test]
fn test_turn_order_rotation() {
    let order = TurnOrder::new(vec!["pa".to_string(), "pb".to_string(), "pc".to_string()]);
    assert_eq!(order.get_turn_counter(), 0);
    assert_eq!(order.order.len(), 3);
    assert!(order.is_player_turn(&order.active_player_id.clone()));

    let mut order = order;
    let first = order.active_player_id.clone();
    let second = order.advance_turn();
    assert_ne!(first, second);
    assert_eq!(order.get_turn_counter(), 1);
    order.advance_turn();
    let fourth = order.advance_turn();
    assert_eq!(order.get_turn_counter(), 3);
    // Three seats: after three advances the first player is active again.
    assert_eq!(fourth, first);
}

#[test]
fn test_player_resources() {
    let mut res = PlayerResources::new(2);
    assert_eq!(res.coins, 3);
    assert!(res.is_alive());
    assert!(!res.take_damage(1));
    assert_eq!(res.health, 1);
    assert!(res.take_damage(5));
    assert_eq!(res.health, 0);
    assert!(!res.is_alive());

    res.heal(200);
    assert_eq!(res.health, 2);

    res.gain_coins(200);
    assert_eq!(res.coins, 99);
    assert!(res.can_afford(99));
    assert!(res.spend_coins(90));
    assert_eq!(res.coins, 9);
    assert!(!res.spend_coins(10));

    assert!(!res.gain_souls(3));
    assert!(res.gain_souls(1));
    assert_eq!(res.total_souls(), 4);

    let fresh = PlayerResources::default();
    assert_eq!(fresh.max_health, 2);
}

fn fresh_state(total_cards: u32) -> GameState {
    let order = TurnOrder::new(vec!["pa".to_string(), "pb".to_string()]);
    GameState::new(
        vec!["pa".to_string(), "pb".to_string()],
        order,
        catalogue(total_cards),
    )
}

#[test]
fn test_game_state_phase_table() {
    let state = fresh_state(10);
    assert_eq!(state.current_phase, TurnPhases::UntapStartStep);
    assert_eq!(state.get_next_phase(), TurnPhases::LootStep);
}

#[test]
fn test_priority_pass_rejected_for_wrong_player() {
    let mut state = fresh_state(10);
    state.with_phase_transition(TurnPhases::UntapStartStep);
    assert!(state.waiting_for_priority);
    let holder = state.current_priority_player.clone();
    let other = if holder == "pa" { "pb" } else { "pa" };

    // A pass from a player who does not hold priority fails.
    let result = state.with_priority_pass(other);
    assert!(matches!(result, Err(AppError::InvalidPriorityPass)));
    assert_eq!(state.current_priority_player, holder);

    // The holder may pass; priority moves to the other seat.
    state.with_priority_pass(&holder).unwrap();
    assert_eq!(state.current_priority_player, other);
}

#[test]
fn test_priority_round_advances_phase() {
    let mut state = fresh_state(10);
    state.with_phase_transition(TurnPhases::UntapStartStep);
    let first = state.current_priority_player.clone();
    state.with_priority_pass(&first).unwrap();
    let second = state.current_priority_player.clone();
    state.with_priority_pass(&second).unwrap();
    // Both seats passed: the next phase begins with a fresh round.
    assert_eq!(state.current_phase, TurnPhases::LootStep);
    assert!(state.waiting_for_priority);
    assert_eq!(state.players_passed_priority.len(), 0);
}

#[test]
fn test_turn_end_rolls_over_and_draws() {
    let mut state = fresh_state(20);
    let before = state.turn_order.active_player_id.clone();
    let counter = state.turn_order.turn_counter;
    let deck_before = state.board.loot_deck.len();
    state.with_phase_transition(TurnPhases::TurnEnd);
    assert_eq!(state.current_phase, TurnPhases::UntapStartStep);
    assert_eq!(state.turn_order.turn_counter, counter + 1);
    assert_ne!(state.turn_order.active_player_id, before);
    // The new active player drew one card from the deck's tail.
    assert_eq!(state.board.loot_deck.len(), deck_before - 1);
    let active = state.turn_order.active_player_id.clone();
    assert_eq!(state.board.get_hand_size(&active).unwrap(), 4);
}

fn fresh_actor(total_cards: u32) -> GameActor {
    let mapping = two_player_mapping();
    let order = TurnOrder::new(vec!["pa".to_string(), "pb".to_string()]);
    GameActor::new(
        "game1".to_string(),
        mapping,
        order,
        catalogue(total_cards),
    )
}

#[test]
fn test_game_start_snapshots() {
    let mut actor = fresh_actor(20);
    let deliveries = actor.coordinator.initialize_game();

    // Public snapshot: catalogue minus three dealt per player minus the
    // active player's automatic draw.
    let mut saw_public = false;
    let mut private_hands = Vec::new();
    for d in &deliveries {
        match d {
            Delivery::ToPlayers { response, .. } => {
                if let ServerResponse::PublicBoardState {
                    loot_deck_size,
                    players,
                    ..
                } = response
                {
                    saw_public = true;
                    assert_eq!(*loot_deck_size, 20 - 2 * 3 - 1);
                    assert_eq!(players.len(), 2);
                }
            }
            Delivery::ToPlayer {
                connection_id,
                response,
            } => {
                if let ServerResponse::PrivateBoardState { hand } = response {
                    private_hands.push((connection_id.clone(), hand.len()));
                }
            }
            _ => {}
        }
    }
    assert!(saw_public);
    assert_eq!(private_hands.len(), 2);
    let mut sizes: Vec<usize> = private_hands.iter().map(|p| p.1).collect();
    sizes.sort();
    // Three dealt each; the active player drew one more.
    assert_eq!(sizes, vec![3, 4]);
}

#[test]
fn test_turn_pass_changes_active_player() {
    let mut actor = fresh_actor(20);
    let _ = actor.coordinator.initialize_game();
    let active = actor.coordinator.game_state.turn_order.active_player_id.clone();
    let counter = actor.coordinator.game_state.turn_order.turn_counter;

    let deliveries = actor
        .handle_message(&GameMessage::TurnPass {
            player_id: active.clone(),
        })
        .unwrap();
    assert!(!deliveries.is_empty());
    assert_ne!(
        actor.coordinator.game_state.turn_order.active_player_id,
        active
    );
    assert_eq!(
        actor.coordinator.game_state.turn_order.turn_counter,
        counter + 1
    );
}

#[test]
fn test_turn_pass_rejected_for_non_active_player() {
    let mut actor = fresh_actor(20);
    let _ = actor.coordinator.initialize_game();
    let active = actor.coordinator.game_state.turn_order.active_player_id.clone();
    let other = if active == "pa" { "pb" } else { "pa" };
    let counter = actor.coordinator.game_state.turn_order.turn_counter;

    // The non-active player alone is refused; no state changes.
    let result = actor.handle_message(&GameMessage::TurnPass {
        player_id: other.to_string(),
    });
    assert!(matches!(result, Err(AppError::NotPlayerTurn)));
    assert_eq!(
        actor.coordinator.game_state.turn_order.active_player_id,
        active
    );
    assert_eq!(actor.coordinator.game_state.turn_order.turn_counter, counter);
}

#[test]
fn test_connection_scoped_moves_resolve() {
    let mut actor = fresh_actor(20);
    let _ = actor.coordinator.initialize_game();
    let active = actor.coordinator.game_state.turn_order.active_player_id.clone();
    let active_conn = actor.get_connection_from_player(&active).unwrap();

    let deliveries = actor
        .handle_message(&GameMessage::TurnPassFromConnection {
            connection_id: active_conn,
        })
        .unwrap();
    assert!(!deliveries.is_empty());

    // A connection this game does not know is refused.
    let result = actor.handle_message(&GameMessage::TurnPassFromConnection {
        connection_id: "stranger".to_string(),
    });
    assert!(matches!(result, Err(AppError::ConnectionNotInRoom)));
}

#[test]
fn test_game_conservation_across_moves() {
    let mut actor = fresh_actor(20);
    let _ = actor.coordinator.initialize_game();
    for _ in 0..5 {
        let active = actor.coordinator.game_state.turn_order.active_player_id.clone();
        actor
            .handle_message(&GameMessage::TurnPass { player_id: active })
            .unwrap();
        let board = &actor.coordinator.game_state.board;
        let mut total = board.loot_deck.len() + board.loot_discard.len();
        total += board.get_player_hand("pa").unwrap().len();
        total += board.get_player_hand("pb").unwrap().len();
        assert_eq!(total, 20);
    }
}

#[test]
fn test_private_snapshots_go_to_owners_only() {
    let mapping = two_player_mapping();
    let sb = StateBroadcaster::new(mapping);
    let state = fresh_state(20);
    let deliveries = sb.broadcast_private_states(&state);
    assert_eq!(deliveries.len(), 2);
    for d in deliveries {
        match d {
            Delivery::ToPlayer {
                connection_id,
                response,
            } => {
                if let ServerResponse::PrivateBoardState { hand } = response {
                    // The hand delivered to a connection is exactly the
                    // hand of the player owning that connection.
                    let owner = if connection_id == "conn1" { "pa" } else { "pb" };
                    let expected = state.board.get_player_hand(owner).unwrap();
                    assert_eq!(hand.len(), expected.len());
                    for (a, b) in hand.iter().zip(expected.iter()) {
                        assert_eq!(a.card.entity_id, b.card.entity_id);
                    }
                } else {
                    panic!("Expected a private board state");
                }
            }
            _ => panic!("Private snapshots go to single connections"),
        }
    }
}

#[test]
fn test_public_snapshot_hides_hand_contents() {
    let mapping = two_player_mapping();
    let sb = StateBroadcaster::new(mapping);
    let state = fresh_state(20);
    let delivery = sb.broadcast_public_state(&state);
    match delivery {
        Delivery::ToPlayers { response, .. } => match response {
            ServerResponse::PublicBoardState { players, .. } => {
                assert_eq!(players.get("pa").unwrap().hand_size, 3);
                assert_eq!(players.get("pb").unwrap().hand_size, 3);
            }
            _ => panic!("Expected a public board state"),
        },
        _ => panic!("Public snapshots go to the whole room"),
    }
}

#[test]
fn test_turn_counter_accumulates_over_passes() {
    let mut actor = fresh_actor(20);
    let _ = actor.coordinator.initialize_game();
    for k in 1..=10u32 {
        let active = actor.coordinator.game_state.turn_order.active_player_id.clone();
        actor
            .handle_message(&GameMessage::TurnPass { player_id: active })
            .unwrap();
        assert_eq!(actor.coordinator.game_state.turn_order.turn_counter, k);
    }
}

#[test]
fn test_win_condition_ends_game() {
    let mut actor = fresh_actor(20);
    let _ = actor.coordinator.initialize_game();
    let mut saw_game_ended = false;
    for _ in 0..100 {
        assert!(actor.coordinator.is_running());
        let active = actor.coordinator.game_state.turn_order.active_player_id.clone();
        let deliveries = actor
            .handle_message(&GameMessage::TurnPass { player_id: active })
            .unwrap();
        for d in &deliveries {
            if let Delivery::ToPlayers {
                response: ServerResponse::GameEnded { winner_id },
                ..
            } = d
            {
                saw_game_ended = true;
                // The stand-in winner is the first seat of the order.
                assert_eq!(
                    *winner_id,
                    actor.coordinator.game_state.turn_order.order[0]
                );
            }
        }
    }
    assert!(saw_game_ended);
    assert!(!actor.coordinator.is_running());
    assert_eq!(actor.coordinator.game_state.turn_order.turn_counter, 100);
}

#[test]
fn test_loot_deck_discard_cards() {
    let cards = catalogue(4);
    let mut deck = LootDeck::new(cards);
    let drawn = deck.draw_cards(2);
    assert_eq!(drawn.len(), 2);
    deck.discard_cards(drawn);
    assert_eq!(deck.discard_pile_size(), 2);
    assert_eq!(deck.cards_remaining(), 2);
    assert_eq!(deck.total_deck_size(), 4);
}
