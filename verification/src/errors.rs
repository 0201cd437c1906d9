//! The server's error taxonomy: every failure a handler can report, its
//! category, its wire status code, and the user-facing message, together
//! with the validation rules for player and room names.

use vstd::prelude::*;
use crate::text::{char_alphanumeric, is_alphanumeric_char, is_blank, spec_decimal, str_is_blank,
    u64_to_string};

verus! {

#[derive(Debug, Clone)]
pub enum AppError {
    PlayerAlreadyInRoom { player_name: String },
    ConnectionNotInRoom,
    RoomNotFound { room_id: String },
    RoomFull { room_id: String, max_players: usize },
    RoomInGame { room_id: String },
    RoomNameEmpty,
    PlayersNotReady { ready_count: usize, total_count: usize },
    ConnectionNotFound { connection_id: String },
    MessageSendFailed { connection_id: String },
    GameMessageLoopNotFound { room_id: String },
    GameEventSendFailed { reason: String },
    TurnOrderNotInitialized,
    InvalidPlayerName { reason: String },
    InvalidRoomName { reason: String },
    SerializationError { message: String },
    WebSocketError { message: String },
    UnknownMessage { message: String },
    GameEndedUnexpectedly,
    PlayerNotFound,
    EmptyLootDeck,
    CardNotInHand,
    InvalidPriorityPass,
    InvalidTurnPass,
    GameEnded,
    NotPlayerTurn,
    Internal { message: String },
}

pub type AppResult<T> = Result<T, AppError>;

#[derive(Debug, Clone, Copy, PartialEq, Eq, Structural)]
pub enum ErrorCategory {
    ClientError,
    ServerError,
    ValidationError,
    GameError,
}

/// The category each error belongs to.
pub open spec fn spec_category(e: AppError) -> ErrorCategory {
    match e {
        AppError::RoomNotFound { .. } => ErrorCategory::ClientError,
        AppError::PlayerAlreadyInRoom { .. } => ErrorCategory::ClientError,
        AppError::RoomFull { .. } => ErrorCategory::ClientError,
        AppError::RoomInGame { .. } => ErrorCategory::ClientError,
        AppError::ConnectionNotInRoom => ErrorCategory::ClientError,
        AppError::TurnOrderNotInitialized => ErrorCategory::ClientError,
        AppError::UnknownMessage { .. } => ErrorCategory::ClientError,
        AppError::InvalidPlayerName { .. } => ErrorCategory::ValidationError,
        AppError::InvalidRoomName { .. } => ErrorCategory::ValidationError,
        AppError::RoomNameEmpty => ErrorCategory::ValidationError,
        AppError::ConnectionNotFound { .. } => ErrorCategory::ServerError,
        AppError::MessageSendFailed { .. } => ErrorCategory::ServerError,
        AppError::GameMessageLoopNotFound { .. } => ErrorCategory::ServerError,
        AppError::GameEventSendFailed { .. } => ErrorCategory::ServerError,
        AppError::SerializationError { .. } => ErrorCategory::ServerError,
        AppError::WebSocketError { .. } => ErrorCategory::ServerError,
        AppError::Internal { .. } => ErrorCategory::ServerError,
        AppError::GameEndedUnexpectedly => ErrorCategory::ServerError,
        AppError::PlayersNotReady { .. } => ErrorCategory::GameError,
        AppError::NotPlayerTurn => ErrorCategory::GameError,
        AppError::PlayerNotFound => ErrorCategory::GameError,
        AppError::EmptyLootDeck => ErrorCategory::GameError,
        AppError::CardNotInHand => ErrorCategory::GameError,
        AppError::InvalidPriorityPass => ErrorCategory::GameError,
        AppError::InvalidTurnPass => ErrorCategory::GameError,
        AppError::GameEnded => ErrorCategory::GameError,
    }
}

/// The wire status code of a category: game feedback travels as 200,
/// client mistakes as 400, rejected input as 422, server faults as 500.
pub open spec fn spec_status_code(c: ErrorCategory) -> u16 {
    match c {
        ErrorCategory::GameError => 200,
        ErrorCategory::ClientError => 400,
        ErrorCategory::ValidationError => 422,
        ErrorCategory::ServerError => 500,
    }
}

/// The variant's name, as it is spelled on the wire.
pub open spec fn spec_variant_name(e: AppError) -> Seq<char> {
    match e {
        AppError::PlayerAlreadyInRoom { .. } => "PlayerAlreadyInRoom"@,
        AppError::ConnectionNotInRoom => "ConnectionNotInRoom"@,
        AppError::RoomNotFound { .. } => "RoomNotFound"@,
        AppError::RoomFull { .. } => "RoomFull"@,
        AppError::RoomInGame { .. } => "RoomInGame"@,
        AppError::RoomNameEmpty => "RoomNameEmpty"@,
        AppError::PlayersNotReady { .. } => "PlayersNotReady"@,
        AppError::ConnectionNotFound { .. } => "ConnectionNotFound"@,
        AppError::MessageSendFailed { .. } => "MessageSendFailed"@,
        AppError::GameMessageLoopNotFound { .. } => "GameMessageLoopNotFound"@,
        AppError::GameEventSendFailed { .. } => "GameEventSendFailed"@,
        AppError::TurnOrderNotInitialized => "TurnOrderNotInitialized"@,
        AppError::InvalidPlayerName { .. } => "InvalidPlayerName"@,
        AppError::InvalidRoomName { .. } => "InvalidRoomName"@,
        AppError::SerializationError { .. } => "SerializationError"@,
        AppError::NotPlayerTurn => "NotPlayerTurn"@,
        AppError::GameEndedUnexpectedly => "GameEndedUnexpectedly"@,
        AppError::WebSocketError { .. } => "WebSocketError"@,
        AppError::UnknownMessage { .. } => "UnknownMessage"@,
        AppError::Internal { .. } => "Internal"@,
        AppError::CardNotInHand => "CardNotInHand"@,
        AppError::PlayerNotFound => "PlayerNotFound"@,
        AppError::EmptyLootDeck => "EmptyLootDeck"@,
        AppError::InvalidPriorityPass => "InvalidPriorityPass"@,
        AppError::InvalidTurnPass => "InvalidTurnPass"@,
        AppError::GameEnded => "GameEnded"@,
    }
}

/// The text shown to the user for each error.
pub open spec fn spec_user_message(e: AppError) -> Seq<char> {
    match e {
        AppError::RoomFull { max_players, .. } => "Room is full (maximum "@ + spec_decimal(
            max_players as nat,
        ) + " players)"@,
        AppError::RoomNotFound { .. } => "The room you're looking for doesn't exist"@,
        AppError::ConnectionNotInRoom => "You need to join a room first"@,
        AppError::SerializationError { .. } => "Invalid message format"@,
        AppError::PlayerAlreadyInRoom { player_name } => "Player '"@ + player_name@
            + "' is already in a room"@,
        AppError::RoomInGame { room_id } => "Room '"@ + room_id@ + "' is already in game"@,
        AppError::RoomNameEmpty => "Room name cannot be empty"@,
        AppError::PlayersNotReady { ready_count, total_count } => "Cannot start game - only "@
            + spec_decimal(ready_count as nat) + "/"@ + spec_decimal(total_count as nat)
            + " players ready"@,
        AppError::ConnectionNotFound { connection_id } => "Connection '"@ + connection_id@
            + "' not found"@,
        AppError::MessageSendFailed { connection_id } => "Failed to send message to connection '"@
            + connection_id@ + "'"@,
        AppError::GameMessageLoopNotFound { room_id } => "Game loop for room '"@ + room_id@
            + "' not found"@,
        AppError::GameEventSendFailed { reason } => "Failed to send event to game loop: "@
            + reason@,
        AppError::TurnOrderNotInitialized => "Turn order not initialized"@,
        AppError::InvalidPlayerName { reason } => "Invalid player name: "@ + reason@,
        AppError::InvalidRoomName { reason } => "Invalid room name: "@ + reason@,
        AppError::WebSocketError { message } => "WebSocket error: "@ + message@,
        AppError::UnknownMessage { message } => "Unknown message: "@ + message@,
        AppError::GameEndedUnexpectedly => "Game ended unexpectedly"@,
        AppError::PlayerNotFound => "Player not found"@,
        AppError::EmptyLootDeck => "Empty loot deck with reshuffle"@,
        AppError::CardNotInHand => "Invalid card: not in player's hand"@,
        AppError::InvalidPriorityPass => "Invalid Priority pass"@,
        AppError::InvalidTurnPass => "Invalid Turn Pass"@,
        AppError::GameEnded => "Game ended"@,
        AppError::NotPlayerTurn => "Not player's turn"@,
        AppError::Internal { message } => "Internal server error: "@ + message@,
    }
}

impl AppError {
    pub fn category(&self) -> (r: ErrorCategory)
        ensures
            r == spec_category(*self),
    {
        match self {
            AppError::RoomNotFound { .. }
            | AppError::PlayerAlreadyInRoom { .. }
            | AppError::RoomFull { .. }
            | AppError::RoomInGame { .. }
            | AppError::ConnectionNotInRoom
            | AppError::TurnOrderNotInitialized
            | AppError::UnknownMessage { .. } => ErrorCategory::ClientError,
            AppError::InvalidPlayerName { .. }
            | AppError::InvalidRoomName { .. }
            | AppError::RoomNameEmpty => ErrorCategory::ValidationError,
            AppError::ConnectionNotFound { .. }
            | AppError::MessageSendFailed { .. }
            | AppError::GameMessageLoopNotFound { .. }
            | AppError::GameEventSendFailed { .. }
            | AppError::SerializationError { .. }
            | AppError::WebSocketError { .. }
            | AppError::Internal { .. }
            | AppError::GameEndedUnexpectedly => ErrorCategory::ServerError,
            AppError::PlayersNotReady { .. }
            | AppError::NotPlayerTurn
            | AppError::PlayerNotFound
            | AppError::EmptyLootDeck
            | AppError::CardNotInHand
            | AppError::InvalidPriorityPass
            | AppError::InvalidTurnPass
            | AppError::GameEnded => ErrorCategory::GameError,
        }
    }

    /// Only server-side faults are worth a log line.
    pub fn should_log(&self) -> (r: bool)
        ensures
            r == (spec_category(*self) == ErrorCategory::ServerError),
    {
        matches!(self.category(), ErrorCategory::ServerError)
    }

    pub fn status_code(&self) -> (r: u16)
        ensures
            r == spec_status_code(spec_category(*self)),
    {
        match self.category() {
            ErrorCategory::GameError => 200,
            ErrorCategory::ClientError => 400,
            ErrorCategory::ValidationError => 422,
            ErrorCategory::ServerError => 500,
        }
    }

    pub fn variant_name(&self) -> (r: &'static str)
        ensures
            r@ == spec_variant_name(*self),
    {
        match self {
            AppError::PlayerAlreadyInRoom { .. } => "PlayerAlreadyInRoom",
            AppError::ConnectionNotInRoom => "ConnectionNotInRoom",
            AppError::RoomNotFound { .. } => "RoomNotFound",
            AppError::RoomFull { .. } => "RoomFull",
            AppError::RoomInGame { .. } => "RoomInGame",
            AppError::RoomNameEmpty => "RoomNameEmpty",
            AppError::PlayersNotReady { .. } => "PlayersNotReady",
            AppError::ConnectionNotFound { .. } => "ConnectionNotFound",
            AppError::MessageSendFailed { .. } => "MessageSendFailed",
            AppError::GameMessageLoopNotFound { .. } => "GameMessageLoopNotFound",
            AppError::GameEventSendFailed { .. } => "GameEventSendFailed",
            AppError::TurnOrderNotInitialized => "TurnOrderNotInitialized",
            AppError::InvalidPlayerName { .. } => "InvalidPlayerName",
            AppError::InvalidRoomName { .. } => "InvalidRoomName",
            AppError::SerializationError { .. } => "SerializationError",
            AppError::NotPlayerTurn => "NotPlayerTurn",
            AppError::GameEndedUnexpectedly => "GameEndedUnexpectedly",
            AppError::WebSocketError { .. } => "WebSocketError",
            AppError::UnknownMessage { .. } => "UnknownMessage",
            AppError::Internal { .. } => "Internal",
            AppError::CardNotInHand => "CardNotInHand",
            AppError::PlayerNotFound => "PlayerNotFound",
            AppError::EmptyLootDeck => "EmptyLootDeck",
            AppError::InvalidPriorityPass => "InvalidPriorityPass",
            AppError::InvalidTurnPass => "InvalidTurnPass",
            AppError::GameEnded => "GameEnded",
        }
    }

    pub fn user_friendly_message(&self) -> (r: String)
        ensures
            r@ == spec_user_message(*self),
    {
        match self {
            AppError::RoomFull { max_players, .. } => {
                let mut s = "Room is full (maximum ".to_owned();
                s.append(u64_to_string(*max_players as u64).as_str());
                s.append(" players)");
                s
            },
            AppError::RoomNotFound { .. } => "The room you're looking for doesn't exist".to_owned(),
            AppError::ConnectionNotInRoom => "You need to join a room first".to_owned(),
            AppError::SerializationError { .. } => "Invalid message format".to_owned(),
            AppError::PlayerAlreadyInRoom { player_name } => {
                let mut s = "Player '".to_owned();
                s.append(player_name.as_str());
                s.append("' is already in a room");
                s
            },
            AppError::RoomInGame { room_id } => {
                let mut s = "Room '".to_owned();
                s.append(room_id.as_str());
                s.append("' is already in game");
                s
            },
            AppError::RoomNameEmpty => "Room name cannot be empty".to_owned(),
            AppError::PlayersNotReady { ready_count, total_count } => {
                let mut s = "Cannot start game - only ".to_owned();
                s.append(u64_to_string(*ready_count as u64).as_str());
                s.append("/");
                s.append(u64_to_string(*total_count as u64).as_str());
                s.append(" players ready");
                s
            },
            AppError::ConnectionNotFound { connection_id } => {
                let mut s = "Connection '".to_owned();
                s.append(connection_id.as_str());
                s.append("' not found");
                s
            },
            AppError::MessageSendFailed { connection_id } => {
                let mut s = "Failed to send message to connection '".to_owned();
                s.append(connection_id.as_str());
                s.append("'");
                s
            },
            AppError::GameMessageLoopNotFound { room_id } => {
                let mut s = "Game loop for room '".to_owned();
                s.append(room_id.as_str());
                s.append("' not found");
                s
            },
            AppError::GameEventSendFailed { reason } => {
                let mut s = "Failed to send event to game loop: ".to_owned();
                s.append(reason.as_str());
                s
            },
            AppError::TurnOrderNotInitialized => "Turn order not initialized".to_owned(),
            AppError::InvalidPlayerName { reason } => {
                let mut s = "Invalid player name: ".to_owned();
                s.append(reason.as_str());
                s
            },
            AppError::InvalidRoomName { reason } => {
                let mut s = "Invalid room name: ".to_owned();
                s.append(reason.as_str());
                s
            },
            AppError::WebSocketError { message } => {
                let mut s = "WebSocket error: ".to_owned();
                s.append(message.as_str());
                s
            },
            AppError::UnknownMessage { message } => {
                let mut s = "Unknown message: ".to_owned();
                s.append(message.as_str());
                s
            },
            AppError::GameEndedUnexpectedly => "Game ended unexpectedly".to_owned(),
            AppError::PlayerNotFound => "Player not found".to_owned(),
            AppError::EmptyLootDeck => "Empty loot deck with reshuffle".to_owned(),
            AppError::CardNotInHand => "Invalid card: not in player's hand".to_owned(),
            AppError::InvalidPriorityPass => "Invalid Priority pass".to_owned(),
            AppError::InvalidTurnPass => "Invalid Turn Pass".to_owned(),
            AppError::GameEnded => "Game ended".to_owned(),
            AppError::NotPlayerTurn => "Not player's turn".to_owned(),
            AppError::Internal { message } => {
                let mut s = "Internal server error: ".to_owned();
                s.append(message.as_str());
                s
            },
        }
    }
}

/// A player name is acceptable when it is not blank, at most fifty
/// characters long, and made of alphanumeric characters, underscores and
/// dashes alone.
pub open spec fn valid_player_name(name: Seq<char>) -> bool {
    &&& !is_blank(name)
    &&& name.len() <= 50
    &&& forall|i: int|
        0 <= i < name.len() ==> char_alphanumeric(#[trigger] name[i]) || name[i] == '_'
            || name[i] == '-'
}

/// Accepts exactly the names `valid_player_name` allows, and reports why
/// a name was rejected.
pub fn validate_player_name(name: &str) -> (r: Result<(), AppError>)
    ensures
        r is Ok <==> valid_player_name(name@),
        r matches Err(e) ==> e is InvalidPlayerName,
{
    if str_is_blank(name) {
        return Err(
            AppError::InvalidPlayerName { reason: "Player name cannot be empty".to_owned() },
        );
    }
    let n = name.unicode_len();
    if n > 50 {
        return Err(
            AppError::InvalidPlayerName {
                reason: "Player name cannot exceed 50 characters".to_owned(),
            },
        );
    }
    let mut i: usize = 0;
    while i < n
        invariant
            i <= n,
            n == name@.len(),
            forall|j: int|
                0 <= j < i ==> char_alphanumeric(#[trigger] name@[j]) || name@[j] == '_'
                    || name@[j] == '-',
        decreases n - i,
    {
        let c = name.get_char(i);
        if !is_alphanumeric_char(c) && c != '_' && c != '-' {
            return Err(
                AppError::InvalidPlayerName {
                    reason: "Player name can only contain letters, numbers, underscore, and dash"
                        .to_owned(),
                },
            );
        }
        i = i + 1;
    }
    Ok(())
}

/// A room name is acceptable when it is not blank and at most one hundred
/// characters long.
pub open spec fn valid_room_name(name: Seq<char>) -> bool {
    !is_blank(name) && name.len() <= 100
}

/// Accepts exactly the names `valid_room_name` allows: a blank name is
/// `RoomNameEmpty`, an overlong one `InvalidRoomName`, each if and only
/// if.
pub fn validate_room_name(name: &str) -> (r: Result<(), AppError>)
    ensures
        r is Ok <==> valid_room_name(name@),
        is_blank(name@) <==> (r matches Err(e) && e == AppError::RoomNameEmpty),
        (!is_blank(name@) && name@.len() > 100) <==> (r matches Err(e) && e is InvalidRoomName),
{
    if str_is_blank(name) {
        return Err(AppError::RoomNameEmpty);
    }
    let n = name.unicode_len();
    if n > 100 {
        return Err(
            AppError::InvalidRoomName { reason: "Room name cannot exceed 100 characters".to_owned() },
        );
    }
    Ok(())
}

} // verus!
