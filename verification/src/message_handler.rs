//! A direct dispatcher from client messages to room-manager operations,
//! answering with the response the sender should see.

use vstd::prelude::*;
use crate::errors::{AppError, AppResult};
use crate::messages::{ClientMessage, ServerResponse};
use crate::room::RoomState;
use crate::room_manager::RoomManager;
use crate::text::views_of;
use crate::turn_order::TurnOrder;

verus! {

/// Applies one client message to the room directory on behalf of
/// `connection_id` and says what to answer. Game-category moves do not
/// belong here and are refused; each lobby operation answers with its
/// protocol response or its error.
pub fn handle_message(msg: ClientMessage, room_manager: &mut RoomManager, connection_id: &str) -> (
    r: AppResult<ServerResponse>)
    requires
        old(room_manager).wf(),
    ensures
        final(room_manager).wf(),
        msg is Ping ==> (r matches Ok(resp) && resp is Pong && *final(room_manager) == *old(
            room_manager,
        )),
        msg matches ClientMessage::Chat { message } ==> {
            &&& (r is Ok <==> old(room_manager).connection_to_room_info@.dom().contains(
                connection_id@,
            ))
            &&& *final(room_manager) == *old(room_manager)
            &&& (r matches Ok(resp) ==> resp matches ServerResponse::ChatMessage {
                player_name,
                message: m,
            } && player_name@ == old(
                room_manager,
            ).connection_to_room_info@[connection_id@].player_name@ && m == message)
            &&& (r matches Err(e) ==> e == AppError::ConnectionNotInRoom)
        },
        msg matches ClientMessage::CreateRoom { room_name, first_player_name } ==> {
            &&& (r matches Ok(resp) ==> resp matches ServerResponse::RoomCreated {
                room_id,
                player_id,
            } && final(room_manager).rooms@.dom().contains(room_id@) && final(room_manager).connection_to_room_info@.dom().contains(connection_id@) && final(room_manager).connection_to_room_info@[connection_id@].room_id@ == room_id@)
            &&& (crate::text::is_blank(room_name@) ==> (r matches Err(e) && e
                == AppError::RoomNameEmpty))
            &&& (!crate::text::is_blank(room_name@) && !old(
                room_manager,
            ).connection_to_room_info@.dom().contains(connection_id@) ==> (r is Ok || (r matches
                Err(e) && e matches AppError::Internal { .. })))
        },
        msg matches ClientMessage::DestroyRoom { room_id } ==> {
            &&& (r matches Ok(resp) ==> resp matches ServerResponse::RoomDestroyed {
                room_id: rid,
            } && rid@ == room_id@ && !final(room_manager).rooms@.dom().contains(room_id@))
            &&& (!old(room_manager).connection_to_room_info@.dom().contains(connection_id@) ==> (r
                matches Err(e) && e == AppError::ConnectionNotInRoom))
            &&& (old(room_manager).connection_to_room_info@.dom().contains(connection_id@)
                && old(room_manager).rooms@.dom().contains(room_id@) ==> r is Ok)
        },
        msg matches ClientMessage::JoinRoom { player_name, room_id } ==> {
            &&& (r matches Ok(resp) ==> resp matches ServerResponse::PlayerJoined {
                player_name: pn,
                player_id,
            } && pn == player_name && final(room_manager).connection_to_room_info@.dom().contains(connection_id@) && final(room_manager).connection_to_room_info@[connection_id@].room_player_id@ == player_id@)
            &&& (old(room_manager).connection_to_room_info@.dom().contains(connection_id@) ==> (r
                matches Err(e) && e matches AppError::PlayerAlreadyInRoom { .. }))
            &&& (!old(room_manager).connection_to_room_info@.dom().contains(connection_id@)
                && old(room_manager).rooms@.dom().contains(room_id@) && old(
                room_manager,
            ).rooms@[room_id@].players@.dom().len() < old(
                room_manager,
            ).rooms@[room_id@].max_players && old(room_manager).rooms@[room_id@].state
                == RoomState::Lobby ==> (r is Ok || (r matches Err(e) && e matches
                AppError::Internal { .. })))
        },
        msg is LeaveRoom ==> {
            &&& (r matches Ok(resp) ==> resp is PlayerLeft)
            &&& (!old(room_manager).connection_to_room_info@.dom().contains(connection_id@) ==> (r
                matches Err(e) && e == AppError::ConnectionNotInRoom))
            &&& (old(room_manager).connection_to_room_info@.dom().contains(connection_id@)
                && old(room_manager).rooms@.dom().contains(old(
                room_manager,
            ).connection_to_room_info@[connection_id@].room_id@) && old(room_manager).rooms@[old(
                room_manager,
            ).connection_to_room_info@[connection_id@].room_id@].state == RoomState::Lobby && old(
                room_manager,
            ).rooms@[old(
                room_manager,
            ).connection_to_room_info@[connection_id@].room_id@].players@.dom().contains(old(
                room_manager,
            ).connection_to_room_info@[connection_id@].room_player_id@) ==> r is Ok)
        },
        msg is PlayerReady ==> {
            &&& (r matches Ok(resp) ==> resp is PlayersReady || resp is RoomGameStart)
            &&& (r matches Ok(resp) && resp is RoomGameStart ==> (final(room_manager).rooms@.dom().contains(old(
                room_manager,
            ).connection_to_room_info@[connection_id@].room_id@) ==> final(room_manager).rooms@[old(
                room_manager,
            ).connection_to_room_info@[connection_id@].room_id@].state == RoomState::InGame))
            &&& (!old(room_manager).connection_to_room_info@.dom().contains(connection_id@) ==> (r
                matches Err(e) && e == AppError::ConnectionNotInRoom))
            &&& (old(room_manager).connection_to_room_info@.dom().contains(connection_id@)
                && (forall|c: Seq<char>|
                #[trigger] old(room_manager).connection_to_room_info@.dom().contains(c) && old(
                    room_manager,
                ).connection_to_room_info@[c].room_player_id@ == old(
                    room_manager,
                ).connection_to_room_info@[connection_id@].room_player_id@ ==> old(
                    room_manager,
                ).rooms@.dom().contains(old(room_manager).connection_to_room_info@[c].room_id@)
                    && old(room_manager).rooms@[old(
                    room_manager,
                ).connection_to_room_info@[c].room_id@].players@.dom().contains(old(
                    room_manager,
                ).connection_to_room_info@[connection_id@].room_player_id@)) ==> r is Ok)
        },
        msg is TurnPass || msg is PriorityPass ==> (r matches Err(e) && e matches
            AppError::Internal { .. }),
{
    match msg {
        ClientMessage::Ping => Ok(ServerResponse::Pong),
        ClientMessage::Chat { message } => {
            match room_manager.get_player_name_from_connection_id(connection_id) {
                None => Err(AppError::ConnectionNotInRoom),
                Some(player_name) => Ok(ServerResponse::ChatMessage { player_name, message }),
            }
        },
        ClientMessage::CreateRoom { room_name, first_player_name } => {
            match room_manager.create_room(
                room_name,
                connection_id.to_owned(),
                first_player_name,
            ) {
                Ok((room_id, player_id)) => Ok(ServerResponse::RoomCreated { room_id, player_id }),
                Err(e) => Err(e),
            }
        },
        ClientMessage::DestroyRoom { room_id } => {
            match room_manager.destroy_room(room_id.as_str(), connection_id) {
                Ok(rid) => Ok(ServerResponse::RoomDestroyed { room_id: rid }),
                Err(e) => Err(e),
            }
        },
        ClientMessage::JoinRoom { player_name, room_id } => {
            match room_manager.join_room(
                room_id.as_str(),
                connection_id.to_owned(),
                player_name.clone(),
            ) {
                Ok(player_id) => Ok(ServerResponse::PlayerJoined { player_name, player_id }),
                Err(e) => Err(e),
            }
        },
        ClientMessage::LeaveRoom => {
            match room_manager.leave_room(connection_id) {
                Ok(player_name) => Ok(ServerResponse::PlayerLeft { player_name }),
                Err(e) => Err(e),
            }
        },
        ClientMessage::PlayerReady => {
            let player_id = match room_manager.get_player_id_from_connection_id(connection_id) {
                Ok(pid) => pid,
                Err(e) => {
                    return Err(e);
                },
            };
            let ready_result = match room_manager.ready_player(player_id.as_str()) {
                Ok(res) => res,
                Err(e) => {
                    return Err(e);
                },
            };
            if ready_result.game_started {
                let room_id = match room_manager.get_player_room_from_connection_id(connection_id)
                    {
                    Some(rid) => rid,
                    None => {
                        proof {
                            assert(false);
                        }
                        unreached()
                    },
                };
                let players_mapping = match room_manager.get_players_mapping(room_id.as_str()) {
                    Ok(m) => m,
                    Err(_) => {
                        proof {
                            assert(room_manager.connection_to_room_info@.dom().contains(
                                connection_id@,
                            ));
                            assert(false);
                        }
                        unreached()
                    },
                };
                proof {
                    players_mapping.lemma_view();
                    if players_mapping.kseq().len() == 0 {
                        assert(players_mapping@.dom() =~= Set::<Seq<char>>::empty());
                    }
                }
                let player_ids = players_mapping.keys();
                proof {
                    assert(views_of(player_ids@) =~= players_mapping.kseq());
                }
                let turn_order = TurnOrder::new(player_ids);
                room_manager.set_room_in_game(room_id.as_str());
                Ok(ServerResponse::RoomGameStart { turn_order: turn_order.order })
            } else {
                Ok(ServerResponse::PlayersReady { players_ready: ready_result.players_ready })
            }
        },
        ClientMessage::TurnPass => Err(
            AppError::Internal { message: "Invalid lobby message conversion".to_owned() },
        ),
        ClientMessage::PriorityPass => Err(
            AppError::Internal { message: "Invalid lobby message conversion".to_owned() },
        ),
    }
}

} // verus!
