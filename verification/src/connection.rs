//! The per-connection actor's core: it knows whether its client sits in
//! the lobby or in exactly one game, classifies each client message, and
//! says where it must be forwarded. A connection is never in both
//! worlds at once, and a game-bound message from a lobby connection is
//! refused.

use vstd::prelude::*;
use crate::errors::{AppError, AppResult};
use crate::lobby::LobbyMessage;
use crate::messages::{spec_category_of, ClientMessage, ClientMessageCategory};
use crate::reliable::{MessageAck, MessageReceiver, PendingMessage, ReliableMessage};
use crate::session::GameMessage;
use crate::strmap::StrMap;

verus! {

/// Where a connection stands: in the lobby, or seated as one player in
/// exactly one game. There is no third place and no overlap.
#[derive(Debug)]
pub enum ConnectionState {
    InLobby,
    InGame { game_id: String, player_id: String },
}

/// What a connection actor's inbox can carry.
#[derive(Debug)]
pub enum ConnectionMessage {
    ClientMessage { message: ClientMessage },
    TransitionToGame { game_id: String, player_id: String },
    TransitionToLobby,
    Disconnect,
    ReliableMessage { message: ReliableMessage },
    MessageAck { ack: MessageAck },
}

/// A reliable-layer frame on the wire: a payload or an ack.
#[derive(Debug)]
pub enum ReliableServerResponse {
    Reliable(ReliableMessage),
    Ack(MessageAck),
}

/// Where a classified client message must go.
#[derive(Debug)]
pub enum ConnectionDispatch {
    ToLobby(LobbyMessage),
    ToGame(GameMessage),
}

/// How a lobby-category client message reads once stamped with the
/// sending connection's id.
pub open spec fn spec_lobby_translation(
    conn: Seq<char>,
    m: ClientMessage,
    lm: LobbyMessage,
) -> bool {
    match m {
        ClientMessage::Ping => lm matches LobbyMessage::Ping { connection_id } && connection_id@
            == conn,
        ClientMessage::Chat { message: text } => lm matches LobbyMessage::Chat {
            connection_id,
            message,
        } && connection_id@ == conn && message == text,
        ClientMessage::CreateRoom { room_name, first_player_name } => lm matches
            LobbyMessage::CreateRoom { connection_id, room_name: rn, first_player_name: fp }
            && connection_id@ == conn && rn == room_name && fp == first_player_name,
        ClientMessage::DestroyRoom { room_id } => lm matches LobbyMessage::DestroyRoom {
            connection_id,
            room_id: rid,
        } && connection_id@ == conn && rid == room_id,
        ClientMessage::JoinRoom { player_name, room_id } => lm matches LobbyMessage::JoinRoom {
            connection_id,
            player_name: pn,
            room_id: rid,
        } && connection_id@ == conn && pn == player_name && rid == room_id,
        ClientMessage::LeaveRoom => lm matches LobbyMessage::LeaveRoom { connection_id }
            && connection_id@ == conn,
        ClientMessage::PlayerReady => lm matches LobbyMessage::PlayerReady { connection_id }
            && connection_id@ == conn,
        _ => false,
    }
}

/// How a game-category client message reads as a connection-scoped move.
pub open spec fn spec_game_translation(
    conn: Seq<char>,
    m: ClientMessage,
    gm: GameMessage,
) -> bool {
    match m {
        ClientMessage::TurnPass => gm matches GameMessage::TurnPassFromConnection {
            connection_id,
        } && connection_id@ == conn,
        ClientMessage::PriorityPass => gm matches GameMessage::PriorityPassFromConnection {
            connection_id,
        } && connection_id@ == conn,
        _ => false,
    }
}

#[derive(Debug)]
pub struct ConnectionActor {
    pub connection_id: String,
    pub state: ConnectionState,
    pub message_receiver: MessageReceiver,
    pub pending_messages: StrMap<PendingMessage>,
}

impl ConnectionActor {
    pub open spec fn wf(&self) -> bool {
        &&& self.message_receiver.wf()
        &&& self.pending_messages.wf()
    }

    /// A fresh connection starts in the lobby.
    pub fn new(connection_id: String) -> (r: ConnectionActor)
        ensures
            r.wf(),
            r.connection_id == connection_id,
            r.state is InLobby,
            r.message_receiver.expected() == 1,
            r.pending_messages@ == Map::<Seq<char>, PendingMessage>::empty(),
    {
        ConnectionActor {
            connection_id,
            state: ConnectionState::InLobby,
            message_receiver: MessageReceiver::new(),
            pending_messages: StrMap::new(),
        }
    }

    /// Translates a lobby-category client message into the lobby's
    /// vocabulary, stamping in this connection's id; a game-category
    /// message does not translate.
    pub fn convert_to_lobby_message(&self, message: ClientMessage) -> (r: AppResult<LobbyMessage>)
        ensures
            spec_category_of(message) == ClientMessageCategory::LobbyMessage <==> r is Ok,
            r matches Ok(lm) ==> spec_lobby_translation(self.connection_id@, message, lm),
            r matches Err(e) ==> e matches AppError::Internal { .. },
    {
        let connection_id = self.connection_id.clone();
        match message {
            ClientMessage::Ping => Ok(LobbyMessage::Ping { connection_id }),
            ClientMessage::Chat { message } => Ok(
                LobbyMessage::Chat { connection_id, message },
            ),
            ClientMessage::CreateRoom { room_name, first_player_name } => Ok(
                LobbyMessage::CreateRoom { connection_id, room_name, first_player_name },
            ),
            ClientMessage::DestroyRoom { room_id } => Ok(
                LobbyMessage::DestroyRoom { connection_id, room_id },
            ),
            ClientMessage::JoinRoom { player_name, room_id } => Ok(
                LobbyMessage::JoinRoom { connection_id, player_name, room_id },
            ),
            ClientMessage::LeaveRoom => Ok(LobbyMessage::LeaveRoom { connection_id }),
            ClientMessage::PlayerReady => Ok(LobbyMessage::PlayerReady { connection_id }),
            _ => Err(
                AppError::Internal { message: "Invalid lobby message conversion".to_owned() },
            ),
        }
    }

    /// Translates a game-category client message into a
    /// connection-scoped game move; a lobby-category message does not
    /// translate.
    pub fn convert_to_game_message_with_connection(&self, message: ClientMessage) -> (r: AppResult<
        GameMessage,
    >)
        ensures
            spec_category_of(message) == ClientMessageCategory::GameMessage <==> r is Ok,
            r matches Ok(gm) ==> spec_game_translation(self.connection_id@, message, gm),
            r matches Err(e) ==> e matches AppError::Internal { .. },
    {
        match message {
            ClientMessage::TurnPass => Ok(
                GameMessage::TurnPassFromConnection { connection_id: self.connection_id.clone() },
            ),
            ClientMessage::PriorityPass => Ok(
                GameMessage::PriorityPassFromConnection {
                    connection_id: self.connection_id.clone(),
                },
            ),
            _ => Err(
                AppError::Internal { message: "Invalid game message conversion".to_owned() },
            ),
        }
    }

    /// Classifies one client message and says where it goes. A
    /// lobby-category message is forwarded to the lobby — leaving a room
    /// also puts this connection back in the lobby at once. A
    /// game-category message from a connection still in the lobby is
    /// refused with `ConnectionNotInRoom`; in a game it is forwarded as
    /// a connection-scoped move.
    pub fn handle_client_message(&mut self, message: ClientMessage) -> (r: AppResult<
        ConnectionDispatch,
    >)
        requires
            old(self).wf(),
        ensures
            final(self).wf(),
            final(self).connection_id == old(self).connection_id,
            final(self).message_receiver == old(self).message_receiver,
            final(self).pending_messages == old(self).pending_messages,
            spec_category_of(message) == ClientMessageCategory::LobbyMessage ==> {
                &&& r is Ok
                &&& (message is LeaveRoom ==> final(self).state is InLobby)
                &&& (!(message is LeaveRoom) ==> final(self).state == old(self).state)
                &&& (r matches Ok(d) ==> d matches ConnectionDispatch::ToLobby(lm)
                    && spec_lobby_translation(old(self).connection_id@, message, lm))
            },
            spec_category_of(message) == ClientMessageCategory::GameMessage ==> {
                &&& final(self).state == old(self).state
                &&& (old(self).state is InLobby <==> r
                    == AppResult::<ConnectionDispatch>::Err(AppError::ConnectionNotInRoom))
                &&& (old(self).state is InGame ==> (r matches Ok(d) && (d matches
                    ConnectionDispatch::ToGame(gm) && spec_game_translation(
                    old(self).connection_id@,
                    message,
                    gm,
                ))))
            },
    {
        match message.category() {
            ClientMessageCategory::LobbyMessage => {
                if matches!(message, ClientMessage::LeaveRoom) {
                    self.state = ConnectionState::InLobby;
                }
                match self.convert_to_lobby_message(message) {
                    Ok(lm) => Ok(ConnectionDispatch::ToLobby(lm)),
                    Err(_) => {
                        proof {
                            assert(false);
                        }
                        unreached()
                    },
                }
            },
            ClientMessageCategory::GameMessage => {
                match &self.state {
                    ConnectionState::InGame { .. } => {
                        match self.convert_to_game_message_with_connection(message) {
                            Ok(gm) => Ok(ConnectionDispatch::ToGame(gm)),
                            Err(_) => {
                                proof {
                                    assert(false);
                                }
                                unreached()
                            },
                        }
                    },
                    ConnectionState::InLobby => Err(AppError::ConnectionNotInRoom),
                }
            },
        }
    }

    /// Seats this connection in a game.
    pub fn transition_to_game(&mut self, game_id: String, player_id: String)
        ensures
            final(self).state matches ConnectionState::InGame { game_id: g, player_id: p } && g
                == game_id && p == player_id,
            final(self).connection_id == old(self).connection_id,
            final(self).message_receiver == old(self).message_receiver,
            final(self).pending_messages == old(self).pending_messages,
    {
        self.state = ConnectionState::InGame { game_id, player_id };
    }

    /// Puts this connection back in the lobby.
    pub fn transition_to_lobby(&mut self)
        ensures
            final(self).state is InLobby,
            final(self).connection_id == old(self).connection_id,
            final(self).message_receiver == old(self).message_receiver,
            final(self).pending_messages == old(self).pending_messages,
    {
        self.state = ConnectionState::InLobby;
    }

    pub fn get_state(&self) -> (r: &ConnectionState)
        ensures
            r == &self.state,
    {
        &self.state
    }

    /// Takes an ack: the acknowledged message stops being pending.
    pub fn handle_ack(&mut self, ack: &MessageAck)
        requires
            old(self).wf(),
        ensures
            final(self).wf(),
            final(self).pending_messages@ == old(self).pending_messages@.remove(ack.message_id@),
            final(self).state == old(self).state,
            final(self).connection_id == old(self).connection_id,
            final(self).message_receiver == old(self).message_receiver,
    {
        let _ = self.pending_messages.remove(ack.message_id.as_str());
    }

    /// Takes one reliable frame: acknowledges it and hands back the
    /// messages now deliverable in order, exactly as the receiver's
    /// protocol prescribes.
    pub fn handle_reliable_message(&mut self, message: ReliableMessage) -> (r: (
        MessageAck,
        Vec<ReliableMessage>,
    ))
        requires
            old(self).wf(),
            message.sequence < u64::MAX,
        ensures
            final(self).wf(),
            r.0.message_id == message.id,
            final(self).state == old(self).state,
            final(self).connection_id == old(self).connection_id,
            final(self).pending_messages == old(self).pending_messages,
            message.sequence == old(self).message_receiver.expected() ==> r.1@.len() >= 1
                && r.1@[0] == message,
            message.sequence < old(self).message_receiver.expected() ==> r.1@.len() == 0
                && final(self).message_receiver == old(self).message_receiver,
            message.sequence > old(self).message_receiver.expected() ==> r.1@.len() == 0,
    {
        self.message_receiver.receive_message(message)
    }
}

/// A connection sits in exactly one of the two worlds: the lobby, or
/// one game. The two cannot hold at once and one always does.
pub proof fn lemma_connection_single_owner(s: ConnectionState)
    ensures
        (s is InLobby) <==> !(s is InGame),
{
}

} // verus!
