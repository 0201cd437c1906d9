//! Core runtime of a real-time multiplayer card-game session server.
//!
//! The crate provides the verified heart of the server: the lobby and room
//! state machine, the per-game turn/priority engine, the registry that binds
//! connections to games, and the pure message-handling logic of each actor.
//! Transport, serialisation and task scheduling live outside the library and
//! drive these state machines through plain values.

pub mod board;
pub mod broadcaster;
pub mod cards;
pub mod components;
pub mod connection;
pub mod deck;
pub mod errors;
pub mod game_state;
pub mod lobby;
pub mod message_handler;
pub mod messages;
pub mod players;
pub mod random;
pub mod recovery;
pub mod registry;
pub mod reliable;
pub mod resources;
pub mod room;
pub mod room_actor;
pub mod room_manager;
pub mod session;
pub mod strmap;
pub mod text;
pub mod turn_order;

pub use errors::{AppError, AppResult};
pub use room::Room;
pub use room_manager::RoomManager;
pub use message_handler::handle_message;
pub use text::str_eq;
pub use turn_order::TurnOrder;
