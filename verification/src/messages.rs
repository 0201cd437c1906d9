//! The wire vocabulary: what clients may say, what the server answers,
//! and how a server answer is built from an error.

use vstd::prelude::*;
use crate::cards::LootCard;
use crate::errors::{spec_category, spec_status_code, spec_user_message, spec_variant_name,
    AppError};
use crate::game_state::TurnPhases;
use crate::strmap::{StrMap, StrSet};

verus! {

#[derive(Debug, Clone, Copy, PartialEq, Eq, Structural)]
pub enum ClientMessageCategory {
    LobbyMessage,
    GameMessage,
}

#[derive(Debug, Clone)]
pub enum ClientMessage {
    Ping,
    Chat { message: String },
    CreateRoom { room_name: String, first_player_name: String },
    DestroyRoom { room_id: String },
    JoinRoom { player_name: String, room_id: String },
    LeaveRoom,
    PlayerReady,
    TurnPass,
    PriorityPass,
}

/// Which actor a client message belongs to: the lobby owns everything
/// but the two in-game moves.
pub open spec fn spec_category_of(m: ClientMessage) -> ClientMessageCategory {
    match m {
        ClientMessage::TurnPass => ClientMessageCategory::GameMessage,
        ClientMessage::PriorityPass => ClientMessageCategory::GameMessage,
        _ => ClientMessageCategory::LobbyMessage,
    }
}

impl ClientMessage {
    pub fn category(&self) -> (r: ClientMessageCategory)
        ensures
            r == spec_category_of(*self),
    {
        match self {
            ClientMessage::Ping
            | ClientMessage::Chat { .. }
            | ClientMessage::CreateRoom { .. }
            | ClientMessage::DestroyRoom { .. }
            | ClientMessage::JoinRoom { .. }
            | ClientMessage::LeaveRoom
            | ClientMessage::PlayerReady => ClientMessageCategory::LobbyMessage,
            ClientMessage::TurnPass | ClientMessage::PriorityPass => {
                ClientMessageCategory::GameMessage
            },
        }
    }
}

/// What everyone may see of one player: the size of the hand, never its
/// contents.
#[derive(Debug)]
pub struct PublicPlayerInfo {
    pub hand_size: usize,
    pub max_health: u32,
    pub current_health: u32,
    pub loot_play_turn: bool,
    pub loot_play_char: bool,
}

#[derive(Debug)]
pub enum ServerResponse {
    ConnectionId { connection_id: String },
    Pong,
    ChatMessage { player_name: String, message: String },
    RoomCreatedBroadcast { room_id: String },
    RoomCreated { room_id: String, player_id: String },
    RoomDestroyed { room_id: String },
    SelfJoined { player_name: String, player_id: String },
    PlayerJoined { player_name: String, player_id: String },
    PlayerLeft { player_name: String },
    PlayersReady { players_ready: StrSet },
    LobbyStartedGame { room_id: String },
    RoomGameStart { turn_order: Vec<String> },
    TurnPhaseChange { player_id: String, phase: TurnPhases },
    PublicBoardState {
        loot_deck_size: usize,
        loot_discard: Vec<LootCard>,
        current_phase: TurnPhases,
        active_player: String,
        players: StrMap<PublicPlayerInfo>,
    },
    PrivateBoardState { hand: Vec<LootCard> },
    GameEnded { winner_id: String },
    Error { error_type: String, message: String, code: u16 },
}

impl ServerResponse {
    /// The error answer for an application error: its variant name, its
    /// user-facing message, and its category's status code.
    pub fn from_app_error(error: &AppError) -> (r: ServerResponse)
        ensures
            r matches ServerResponse::Error { error_type, message, code } && error_type@
                == spec_variant_name(*error) && message@ == spec_user_message(*error) && code
                == spec_status_code(spec_category(*error)),
    {
        ServerResponse::Error {
            error_type: error.variant_name().to_owned(),
            message: error.user_friendly_message(),
            code: error.status_code(),
        }
    }
}

} // verus!
