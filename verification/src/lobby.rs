//! The lobby actor's state machine: one process-wide owner of all rooms
//! that takes lobby messages one at a time and answers with the effects
//! to perform — deliveries to write, games to start or tear down, and
//! connection actors to notify.

use vstd::prelude::*;
use crate::broadcaster::Delivery;
use crate::errors::AppError;
use crate::messages::ServerResponse;
use crate::room::RoomState;
use crate::room_manager::{covers_set, RoomManager};
use crate::strmap::StrMap;
use crate::text::{clone_strings, views_of};
use crate::turn_order::TurnOrder;

verus! {

/// A client request as the lobby receives it, stamped with the sending
/// connection.
#[derive(Debug)]
pub enum LobbyMessage {
    Ping { connection_id: String },
    Chat { connection_id: String, message: String },
    CreateRoom { connection_id: String, room_name: String, first_player_name: String },
    DestroyRoom { connection_id: String, room_id: String },
    JoinRoom { connection_id: String, player_name: String, room_id: String },
    LeaveRoom { connection_id: String },
    PlayerReady { connection_id: String },
}

/// What the lobby asks its surroundings to do after a message.
#[derive(Debug)]
pub enum LobbyEffect {
    Deliver(Delivery),
    StartGame {
        game_id: String,
        players_id_to_connection_id: StrMap<String>,
        turn_order: TurnOrder,
    },
    CleanupGame { game_id: String },
    NotifyGameStart { connection_id: String, game_id: String, player_id: String },
    NotifyLobbyReturn { connection_id: String },
}

/// The effect that seats `p` (connected as `c`) into game `rid`.
pub open spec fn spec_is_notify_game_start(
    e: LobbyEffect,
    rid: Seq<char>,
    p: Seq<char>,
    c: Seq<char>,
) -> bool {
    e matches LobbyEffect::NotifyGameStart { connection_id, game_id, player_id } && game_id@ == rid
        && player_id@ == p && connection_id@ == c
}

/// The effect that sends connection `c` back to the lobby.
pub open spec fn spec_is_lobby_return(e: LobbyEffect, c: Seq<char>) -> bool {
    e matches LobbyEffect::NotifyLobbyReturn { connection_id } && connection_id@ == c
}

/// The broadcast announcing that `rid`'s game has begun.
pub open spec fn spec_is_lobby_started(e: LobbyEffect, rid: Seq<char>) -> bool {
    e matches LobbyEffect::Deliver(Delivery::ToAll { response }) && (response matches
    ServerResponse::LobbyStartedGame { room_id } && room_id@ == rid)
}

/// The in-room announcement carrying the game's turn order, addressed
/// to exactly the room's connections.
pub open spec fn spec_is_room_game_start(
    e: LobbyEffect,
    room_conns: Set<Seq<char>>,
    to: TurnOrder,
) -> bool {
    e matches LobbyEffect::Deliver(Delivery::ToPlayers { connections_id, response })
        && covers_set(connections_id@, room_conns) && (response matches
    ServerResponse::RoomGameStart { turn_order } && turn_order@ == to.order@)
}

/// The delivery answering the creator: the new room's id and their
/// player id, both as the directory now records them.
pub open spec fn spec_is_room_created(
    e: LobbyEffect,
    conn: Seq<char>,
    rid: Seq<char>,
    pid: Seq<char>,
) -> bool {
    e matches LobbyEffect::Deliver(Delivery::ToPlayer { connection_id, response })
        && connection_id@ == conn && (response matches ServerResponse::RoomCreated {
        room_id,
        player_id,
    } && room_id@ == rid && player_id@ == pid)
}

/// The broadcast announcing a newly created room.
pub open spec fn spec_is_room_created_broadcast(e: LobbyEffect, rid: Seq<char>) -> bool {
    e matches LobbyEffect::Deliver(Delivery::ToAll { response }) && (response matches
    ServerResponse::RoomCreatedBroadcast { room_id } && room_id@ == rid)
}

/// The broadcast announcing a destroyed room.
pub open spec fn spec_is_room_destroyed(e: LobbyEffect, rid: Seq<char>) -> bool {
    e matches LobbyEffect::Deliver(Delivery::ToAll { response }) && (response matches
    ServerResponse::RoomDestroyed { room_id } && room_id@ == rid)
}

/// The delivery answering the joiner with their name and new player id.
pub open spec fn spec_is_self_joined(
    e: LobbyEffect,
    conn: Seq<char>,
    name: Seq<char>,
    pid: Seq<char>,
) -> bool {
    e matches LobbyEffect::Deliver(Delivery::ToPlayer { connection_id, response })
        && connection_id@ == conn && (response matches ServerResponse::SelfJoined {
        player_name,
        player_id,
    } && player_name@ == name && player_id@ == pid)
}

/// The in-room announcement of a joined player, addressed to exactly
/// the given connections.
pub open spec fn spec_is_player_joined(
    e: LobbyEffect,
    room_conns: Set<Seq<char>>,
    name: Seq<char>,
    pid: Seq<char>,
) -> bool {
    e matches LobbyEffect::Deliver(Delivery::ToPlayers { connections_id, response })
        && covers_set(connections_id@, room_conns) && (response matches
    ServerResponse::PlayerJoined { player_name, player_id } && player_name@ == name && player_id@
        == pid)
}

/// The in-room announcement of a departed player, addressed to exactly
/// the given connections.
pub open spec fn spec_is_player_left(
    e: LobbyEffect,
    room_conns: Set<Seq<char>>,
    name: Seq<char>,
) -> bool {
    e matches LobbyEffect::Deliver(Delivery::ToPlayers { connections_id, response })
        && covers_set(connections_id@, room_conns) && (response matches
    ServerResponse::PlayerLeft { player_name } && player_name@ == name)
}

/// The in-room chat echo under the sender's name, addressed to exactly
/// the given connections.
pub open spec fn spec_is_chat_message(
    e: LobbyEffect,
    room_conns: Set<Seq<char>>,
    name: Seq<char>,
    msg: Seq<char>,
) -> bool {
    e matches LobbyEffect::Deliver(Delivery::ToPlayers { connections_id, response })
        && covers_set(connections_id@, room_conns) && (response matches
    ServerResponse::ChatMessage { player_name, message } && player_name@ == name && message@
        == msg)
}

/// The broadcast of a room's current ready set.
pub open spec fn spec_is_players_ready(e: LobbyEffect, ready: Set<Seq<char>>) -> bool {
    e matches LobbyEffect::Deliver(Delivery::ToAll { response }) && (response matches
    ServerResponse::PlayersReady { players_ready } && players_ready@ == ready)
}

/// The start-game effect at position `si`, together with everything the
/// protocol owes around it: the turn order seats exactly the mapping's
/// players, every indexed member of the room is in the mapping, every
/// mapped player's connection is notified of the game start, and the
/// room's connections receive the turn order.
pub open spec fn spec_start_game_effect(
    effects: Seq<LobbyEffect>,
    si: int,
    rid: Seq<char>,
    conn_info: Map<Seq<char>, crate::room_manager::PlayerRoomInfo>,
    room_conns: Set<Seq<char>>,
) -> bool {
    &&& effects[si] is StartGame
    &&& spec_start_game_payload(
        effects,
        effects[si]->StartGame_game_id,
        effects[si]->StartGame_players_id_to_connection_id,
        effects[si]->StartGame_turn_order,
        rid,
        conn_info,
        room_conns,
    )
}

/// What must hold of a start-game effect's payload against the rest of
/// the effect list.
pub open spec fn spec_start_game_payload(
    effects: Seq<LobbyEffect>,
    game_id: String,
    m: StrMap<String>,
    to: TurnOrder,
    rid: Seq<char>,
    conn_info: Map<Seq<char>, crate::room_manager::PlayerRoomInfo>,
    room_conns: Set<Seq<char>>,
) -> bool {
    &&& game_id@ == rid
    &&& m.wf()
    &&& to.wf()
    &&& to.order@.len() == m.kseq().len()
    &&& forall|k: Seq<char>| #[trigger] to.order_views().contains(k) == m@.dom().contains(k)
    &&& forall|c: Seq<char>|
        #[trigger] conn_info.dom().contains(c) && conn_info[c].room_id@ == rid
            ==> m@.dom().contains(conn_info[c].room_player_id@)
    &&& forall|p: Seq<char>| #[trigger] m@.dom().contains(p) ==> exists|i: int|
        0 <= i < effects.len() && #[trigger] spec_is_notify_game_start(effects[i], rid, p, m@[p]@)
    &&& exists|i: int|
        0 <= i < effects.len() && #[trigger] spec_is_room_game_start(effects[i], room_conns, to)
}

#[derive(Debug)]
pub struct LobbyActor {
    pub manager: RoomManager,
}

impl LobbyActor {
    pub open spec fn wf(&self) -> bool {
        self.manager.wf()
    }

    pub fn new() -> (r: LobbyActor)
        ensures
            r.wf(),
            r.manager.rooms@ == Map::<Seq<char>, crate::room::Room>::empty(),
            r.manager.connection_to_room_info@ == Map::<
                Seq<char>,
                crate::room_manager::PlayerRoomInfo,
            >::empty(),
    {
        LobbyActor { manager: RoomManager::new() }
    }

    /// Takes one lobby message and answers with the effects to perform.
    /// A failing message leaves the lobby unchanged and reports why, so
    /// the caller can answer the sender with the error; a successful one
    /// updates the room directory exactly as the manager operation says
    /// and emits the announcements the protocol prescribes.
    pub fn handle_message(&mut self, message: LobbyMessage) -> (r: Result<
        Vec<LobbyEffect>,
        AppError,
    >)
        requires
            old(self).wf(),
        ensures
            final(self).wf(),
            r is Err ==> final(self).manager.rooms@ == old(self).manager.rooms@ && final(self).manager.connection_to_room_info == old(self).manager.connection_to_room_info
                && final(self).manager.rooms_connections_map == old(
                self,
            ).manager.rooms_connections_map,
            message matches LobbyMessage::Ping { connection_id } ==> (r matches Ok(effects)
                && effects@.len() == 1 && (effects@[0] matches LobbyEffect::Deliver(d) && (d
                matches Delivery::ToPlayer { connection_id: c, response } && c@ == connection_id@
                && response is Pong)) && *final(self) == *old(self)),
            message matches LobbyMessage::Chat { connection_id, message: text } ==> {
                &&& (r is Ok <==> old(self).manager.connection_to_room_info@.dom().contains(
                    connection_id@,
                ))
                &&& (r matches Err(e) ==> e == AppError::ConnectionNotInRoom)
                &&& (r matches Ok(effects) ==> *final(self) == *old(self) && effects@.len() == 1
                    && spec_is_chat_message(
                    effects@[0],
                    old(self).manager.rooms_connections_map@[old(
                        self,
                    ).manager.connection_to_room_info@[connection_id@].room_id@]@,
                    old(self).manager.connection_to_room_info@[connection_id@].player_name@,
                    text@,
                ))
            },
            message matches LobbyMessage::CreateRoom { connection_id, room_name, first_player_name }
                ==> {
                &&& (r matches Ok(effects) ==> effects@.len() == 2 && exists|
                    rid2: Seq<char>,
                    pid2: Seq<char>,
                |
                    {
                        &&& #[trigger] spec_is_room_created(
                            effects@[0],
                            connection_id@,
                            rid2,
                            pid2,
                        )
                        &&& spec_is_room_created_broadcast(effects@[1], rid2)
                        &&& final(self).manager.rooms@.dom().contains(rid2)
                        &&& final(self).manager.connection_to_room_info@.dom().contains(
                            connection_id@,
                        )
                        &&& final(self).manager.connection_to_room_info@[connection_id@].room_id@
                            == rid2
                        &&& final(self).manager.connection_to_room_info@[
                            connection_id@
                        ].room_player_id@ == pid2
                    })
                &&& (crate::text::is_blank(room_name@) ==> (r matches Err(e) && e
                    == AppError::RoomNameEmpty))
                &&& (!crate::text::is_blank(room_name@) && old(
                    self,
                ).manager.connection_to_room_info@.dom().contains(connection_id@) ==> (r matches
                    Err(e) && e matches AppError::PlayerAlreadyInRoom { .. }))
                &&& (!crate::text::is_blank(room_name@) && !old(
                    self,
                ).manager.connection_to_room_info@.dom().contains(connection_id@) ==> (r is Ok || (
                r matches Err(e) && e matches AppError::Internal { .. })))
            },
            message matches LobbyMessage::DestroyRoom { connection_id, room_id } ==> {
                &&& (!old(self).manager.connection_to_room_info@.dom().contains(connection_id@)
                    ==> r == Result::<Vec<LobbyEffect>, AppError>::Err(
                    AppError::ConnectionNotInRoom,
                ))
                &&& (old(self).manager.connection_to_room_info@.dom().contains(connection_id@)
                    && old(self).manager.rooms@.dom().contains(room_id@) ==> r is Ok)
                &&& (r matches Ok(effects) ==> {
                    &&& effects@.len() >= 2
                    &&& (effects@[0] matches LobbyEffect::CleanupGame { game_id } && game_id@
                        == room_id@)
                    &&& spec_is_room_destroyed(effects@[effects@.len() - 1], room_id@)
                    &&& !final(self).manager.rooms@.dom().contains(room_id@)
                    &&& (old(self).manager.rooms_connections_map@.dom().contains(room_id@)
                        ==> forall|c: Seq<char>|
                        #[trigger] old(self).manager.rooms_connections_map@[room_id@]@.contains(c)
                            ==> exists|i: int|
                            0 <= i < effects@.len() && #[trigger] spec_is_lobby_return(
                                effects@[i],
                                c,
                            ))
                    &&& forall|c: Seq<char>|
                        #[trigger] final(self).manager.connection_to_room_info@.dom().contains(c)
                            ==> old(self).manager.connection_to_room_info@[c].room_id@ != room_id@
                })
            },
            message matches LobbyMessage::JoinRoom { connection_id, player_name, room_id } ==> {
                &&& (r matches Ok(effects) ==> effects@.len() == 2 && exists|pid2: Seq<char>|
                    {
                        &&& #[trigger] spec_is_self_joined(
                            effects@[0],
                            connection_id@,
                            player_name@,
                            pid2,
                        )
                        &&& spec_is_player_joined(
                            effects@[1],
                            final(self).manager.rooms_connections_map@[room_id@]@,
                            player_name@,
                            pid2,
                        )
                        &&& final(self).manager.connection_to_room_info@.dom().contains(
                            connection_id@,
                        )
                        &&& final(self).manager.connection_to_room_info@[
                            connection_id@
                        ].room_player_id@ == pid2
                    })
                &&& (old(self).manager.connection_to_room_info@.dom().contains(connection_id@)
                    ==> (r matches Err(e) && e matches AppError::PlayerAlreadyInRoom { .. }))
                &&& (!old(self).manager.connection_to_room_info@.dom().contains(connection_id@)
                    && !old(self).manager.rooms@.dom().contains(room_id@) ==> (r matches Err(e)
                    && e matches AppError::RoomNotFound { .. }))
                &&& (!old(self).manager.connection_to_room_info@.dom().contains(connection_id@)
                    && old(self).manager.rooms@.dom().contains(room_id@) && old(
                    self,
                ).manager.rooms@[room_id@].players@.dom().len() < old(
                    self,
                ).manager.rooms@[room_id@].max_players && old(self).manager.rooms@[room_id@].state
                    == RoomState::Lobby ==> (r is Ok || (r matches Err(e) && e matches
                    AppError::Internal { .. })))
            },
            message matches LobbyMessage::LeaveRoom { connection_id } ==> {
                &&& (!old(self).manager.connection_to_room_info@.dom().contains(connection_id@)
                    ==> r == Result::<Vec<LobbyEffect>, AppError>::Err(
                    AppError::ConnectionNotInRoom,
                ))
                &&& (old(self).manager.connection_to_room_info@.dom().contains(connection_id@)
                    && old(self).manager.rooms@.dom().contains(old(
                    self,
                ).manager.connection_to_room_info@[connection_id@].room_id@) && old(
                    self,
                ).manager.rooms@[old(self).manager.connection_to_room_info@[connection_id@].room_id@].state
                    == RoomState::Lobby && old(self).manager.rooms@[old(
                    self,
                ).manager.connection_to_room_info@[connection_id@].room_id@].players@.dom().contains(
                    old(self).manager.connection_to_room_info@[connection_id@].room_player_id@,
                ) ==> r is Ok)
                &&& (r matches Ok(effects) ==> ({
                    let rid = old(self).manager.connection_to_room_info@[connection_id@].room_id@;
                    let pid = old(
                        self,
                    ).manager.connection_to_room_info@[connection_id@].room_player_id@;
                    effects@.len() == 1 && spec_is_player_left(
                        effects@[0],
                        old(self).manager.rooms_connections_map@[rid]@.remove(connection_id@),
                        old(self).manager.rooms@[rid].players@[pid]@,
                    ) && final(self).manager.connection_to_room_info@ == old(
                        self,
                    ).manager.connection_to_room_info@.remove(connection_id@)
                }))
            },
            message matches LobbyMessage::PlayerReady { connection_id } ==> {
                &&& (!old(self).manager.connection_to_room_info@.dom().contains(connection_id@)
                    ==> r == Result::<Vec<LobbyEffect>, AppError>::Err(
                    AppError::ConnectionNotInRoom,
                ))
                &&& (old(self).manager.connection_to_room_info@.dom().contains(connection_id@)
                    && (forall|c: Seq<char>|
                    #[trigger] old(self).manager.connection_to_room_info@.dom().contains(c) && old(
                        self,
                    ).manager.connection_to_room_info@[c].room_player_id@ == old(
                        self,
                    ).manager.connection_to_room_info@[connection_id@].room_player_id@ ==> old(
                        self,
                    ).manager.rooms@.dom().contains(old(
                        self,
                    ).manager.connection_to_room_info@[c].room_id@) && old(self).manager.rooms@[old(
                        self,
                    ).manager.connection_to_room_info@[c].room_id@].players@.dom().contains(old(
                        self,
                    ).manager.connection_to_room_info@[connection_id@].room_player_id@)) ==> r
                    is Ok)
                &&& (r matches Ok(effects) ==> ({
                    let rid = old(self).manager.connection_to_room_info@[connection_id@].room_id@;
                    ||| (effects@.len() == 1 && exists|rid2: Seq<char>|
                        #[trigger] final(self).manager.rooms@.dom().contains(rid2)
                            && spec_is_players_ready(
                            effects@[0],
                            final(self).manager.rooms@[rid2].players_ready@,
                        ))
                    ||| {
                        &&& exists|si: int|
                            0 <= si < effects@.len() && #[trigger] spec_start_game_effect(
                                effects@,
                                si,
                                rid,
                                old(self).manager.connection_to_room_info@,
                                old(self).manager.rooms_connections_map@[rid]@,
                            )
                        &&& exists|i: int|
                            0 <= i < effects@.len() && #[trigger] spec_is_lobby_started(
                                effects@[i],
                                rid,
                            )
                        &&& (final(self).manager.rooms@.dom().contains(rid) ==> final(self).manager.rooms@[rid].state == RoomState::InGame)
                    }
                }))
            },
    {
        match message {
            LobbyMessage::Ping { connection_id } => {
                let mut effects: Vec<LobbyEffect> = Vec::new();
                effects.push(
                    LobbyEffect::Deliver(
                        Delivery::ToPlayer { connection_id, response: ServerResponse::Pong },
                    ),
                );
                Ok(effects)
            },
            LobbyMessage::Chat { connection_id, message } => {
                let room_id = match self.manager.get_player_room_from_connection_id(
                    connection_id.as_str(),
                ) {
                    Some(rid) => rid,
                    None => {
                        return Err(AppError::ConnectionNotInRoom);
                    },
                };
                let player_name = match self.manager.get_player_name_from_connection_id(
                    connection_id.as_str(),
                ) {
                    Some(name) => name,
                    None => {
                        proof {
                            assert(false);
                        }
                        unreached()
                    },
                };
                let connections_id = match self.manager.get_connections_id_from_room_id(
                    room_id.as_str(),
                ) {
                    Ok(conns) => conns,
                    Err(_) => {
                        proof {
                            assert(false);
                        }
                        unreached()
                    },
                };
                let mut effects: Vec<LobbyEffect> = Vec::new();
                effects.push(
                    LobbyEffect::Deliver(
                        Delivery::ToPlayers {
                            connections_id,
                            response: ServerResponse::ChatMessage { player_name, message },
                        },
                    ),
                );
                Ok(effects)
            },
            LobbyMessage::CreateRoom { connection_id, room_name, first_player_name } => {
                let (room_id, new_player_id) = match self.manager.create_room(
                    room_name,
                    connection_id.clone(),
                    first_player_name,
                ) {
                    Ok(ids) => ids,
                    Err(e) => {
                        return Err(e);
                    },
                };
                let ghost conn_v = connection_id@;
                let ghost rid_v = room_id@;
                let ghost pid_v = new_player_id@;
                let mut effects: Vec<LobbyEffect> = Vec::new();
                effects.push(
                    LobbyEffect::Deliver(
                        Delivery::ToPlayer {
                            connection_id,
                            response: ServerResponse::RoomCreated {
                                room_id: room_id.clone(),
                                player_id: new_player_id,
                            },
                        },
                    ),
                );
                effects.push(
                    LobbyEffect::Deliver(
                        Delivery::ToAll {
                            response: ServerResponse::RoomCreatedBroadcast { room_id },
                        },
                    ),
                );
                proof {
                    assert(spec_is_room_created(effects@[0], conn_v, rid_v, pid_v));
                    assert(spec_is_room_created_broadcast(effects@[1], rid_v));
                }
                Ok(effects)
            },
            LobbyMessage::DestroyRoom { connection_id, room_id } => {
                let members_result = self.manager.get_connections_id_from_room_id(
                    room_id.as_str(),
                );
                let destroyed = match self.manager.destroy_room(
                    room_id.as_str(),
                    connection_id.as_str(),
                ) {
                    Ok(rid) => rid,
                    Err(e) => {
                        return Err(e);
                    },
                };
                let mut effects: Vec<LobbyEffect> = Vec::new();
                effects.push(LobbyEffect::CleanupGame { game_id: destroyed.clone() });
                let ghost head = effects@[0];
                match members_result {
                    Ok(members) => {
                        let n = members.len();
                        let mut i: usize = 0;
                        while i < n
                            invariant
                                i <= n,
                                n == members@.len(),
                                effects@.len() == 1 + i,
                                effects@[0] == head,
                                forall|q: int|
                                    0 <= q < i ==> spec_is_lobby_return(
                                        #[trigger] effects@[1 + q],
                                        members@[q]@,
                                    ),
                            decreases n - i,
                        {
                            effects.push(
                                LobbyEffect::NotifyLobbyReturn {
                                    connection_id: members[i].clone(),
                                },
                            );
                            i = i + 1;
                        }
                        proof {
                            assert forall|c: Seq<char>|
                                #[trigger] old(
                                    self,
                                ).manager.rooms_connections_map@[room_id@]@.contains(
                                    c,
                                ) implies exists|q: int|
                                0 <= q < effects@.len() && #[trigger] spec_is_lobby_return(
                                    effects@[q],
                                    c,
                                ) by {
                                let j = choose|j: int|
                                    0 <= j < members@.len() && (#[trigger] members@[j])@ == c;
                                assert(spec_is_lobby_return(effects@[1 + j], c));
                            }
                        }
                    },
                    Err(_) => {
                        proof {
                            assert(false);
                        }
                    },
                }
                let ghost with_notifies = effects@;
                let ghost destroyed_v = destroyed@;
                effects.push(
                    LobbyEffect::Deliver(
                        Delivery::ToAll {
                            response: ServerResponse::RoomDestroyed { room_id: destroyed },
                        },
                    ),
                );
                proof {
                    assert(spec_is_room_destroyed(effects@[effects@.len() - 1], destroyed_v));
                    assert forall|c: Seq<char>|
                        #[trigger] old(self).manager.rooms_connections_map@[room_id@]@.contains(
                            c,
                        ) implies exists|q: int|
                        0 <= q < effects@.len() && #[trigger] spec_is_lobby_return(
                            effects@[q],
                            c,
                        ) by {
                        let q = choose|q: int|
                            0 <= q < with_notifies.len() && #[trigger] spec_is_lobby_return(
                                with_notifies[q],
                                c,
                            );
                        assert(effects@[q] == with_notifies[q]);
                        assert(spec_is_lobby_return(effects@[q], c));
                    }
                }
                Ok(effects)
            },
            LobbyMessage::JoinRoom { connection_id, player_name, room_id } => {
                let new_player_id = match self.manager.join_room(
                    room_id.as_str(),
                    connection_id.clone(),
                    player_name.clone(),
                ) {
                    Ok(pid) => pid,
                    Err(e) => {
                        return Err(e);
                    },
                };
                let connections_id = match self.manager.get_connections_id_from_room_id(
                    room_id.as_str(),
                ) {
                    Ok(conns) => conns,
                    Err(_) => {
                        proof {
                            assert(false);
                        }
                        unreached()
                    },
                };
                let ghost conn_v = connection_id@;
                let ghost name_v = player_name@;
                let ghost pid_v = new_player_id@;
                let mut effects: Vec<LobbyEffect> = Vec::new();
                effects.push(
                    LobbyEffect::Deliver(
                        Delivery::ToPlayer {
                            connection_id,
                            response: ServerResponse::SelfJoined {
                                player_name: player_name.clone(),
                                player_id: new_player_id.clone(),
                            },
                        },
                    ),
                );
                effects.push(
                    LobbyEffect::Deliver(
                        Delivery::ToPlayers {
                            connections_id,
                            response: ServerResponse::PlayerJoined {
                                player_name,
                                player_id: new_player_id,
                            },
                        },
                    ),
                );
                proof {
                    assert(spec_is_self_joined(effects@[0], conn_v, name_v, pid_v));
                    assert(spec_is_player_joined(
                        effects@[1],
                        self.manager.rooms_connections_map@[room_id@]@,
                        name_v,
                        pid_v,
                    ));
                }
                Ok(effects)
            },
            LobbyMessage::LeaveRoom { connection_id } => {
                let room_id = match self.manager.get_player_room_from_connection_id(
                    connection_id.as_str(),
                ) {
                    Some(rid) => rid,
                    None => {
                        return Err(AppError::ConnectionNotInRoom);
                    },
                };
                let player_name = match self.manager.leave_room(connection_id.as_str()) {
                    Ok(name) => name,
                    Err(e) => {
                        return Err(e);
                    },
                };
                let connections_id = match self.manager.get_connections_id_from_room_id(
                    room_id.as_str(),
                ) {
                    Ok(conns) => conns,
                    Err(_) => {
                        proof {
                            assert(false);
                        }
                        unreached()
                    },
                };
                let mut effects: Vec<LobbyEffect> = Vec::new();
                effects.push(
                    LobbyEffect::Deliver(
                        Delivery::ToPlayers {
                            connections_id,
                            response: ServerResponse::PlayerLeft { player_name },
                        },
                    ),
                );
                Ok(effects)
            },
            LobbyMessage::PlayerReady { connection_id } => {
                let room_id = match self.manager.get_player_room_from_connection_id(
                    connection_id.as_str(),
                ) {
                    Some(rid) => rid,
                    None => {
                        return Err(AppError::ConnectionNotInRoom);
                    },
                };
                let player_id = match self.manager.get_player_id_from_connection_id(
                    connection_id.as_str(),
                ) {
                    Ok(pid) => pid,
                    Err(e) => {
                        return Err(e);
                    },
                };
                let ready_result = match self.manager.ready_player(player_id.as_str()) {
                    Ok(res) => res,
                    Err(e) => {
                        return Err(e);
                    },
                };
                let mut effects: Vec<LobbyEffect> = Vec::new();
                if ready_result.game_started {
                    let players_mapping = match self.manager.get_players_mapping(room_id.as_str()) {
                        Ok(m) => m,
                        Err(_) => {
                            proof {
                                assert(self.manager.connection_to_room_info@.dom().contains(
                                    connection_id@,
                                ));
                                assert(false);
                            }
                            unreached()
                        },
                    };
                    proof {
                        players_mapping.lemma_view();
                        if players_mapping.kseq().len() == 0 {
                            assert(players_mapping@.dom() =~= Set::<Seq<char>>::empty());
                        }
                    }
                    let player_ids = players_mapping.keys();
                    proof {
                        assert(views_of(player_ids@) =~= players_mapping.kseq());
                    }
                    let turn_order = TurnOrder::new(player_ids);
                    let ghost m_snap = players_mapping;
                    let ghost to_snap = turn_order;
                    let ghost rid_view = room_id@;
                    let n = players_mapping.len();
                    let mut i: usize = 0;
                    while i < n
                        invariant
                            i <= n,
                            players_mapping.wf(),
                            players_mapping == m_snap,
                            room_id@ == rid_view,
                            n == players_mapping.kseq().len(),
                            n == players_mapping.vseq().len(),
                            effects@.len() == i,
                            forall|q: int|
                                0 <= q < i ==> spec_is_notify_game_start(
                                    #[trigger] effects@[q],
                                    rid_view,
                                    m_snap.kseq()[q],
                                    m_snap.vseq()[q]@,
                                ),
                        decreases n - i,
                    {
                        proof {
                            players_mapping.lemma_view();
                        }
                        effects.push(
                            LobbyEffect::NotifyGameStart {
                                connection_id: players_mapping.value_at(i).clone(),
                                game_id: room_id.clone(),
                                player_id: players_mapping.key_at(i).clone(),
                            },
                        );
                        i = i + 1;
                    }
                    proof {
                        m_snap.lemma_view();
                        assert forall|p: Seq<char>| #[trigger] m_snap@.dom().contains(
                            p,
                        ) implies exists|q: int|
                            0 <= q < effects@.len() && #[trigger] spec_is_notify_game_start(
                                effects@[q],
                                rid_view,
                                p,
                                m_snap@[p]@,
                            ) by {
                            let j = choose|j: int|
                                0 <= j < m_snap.kseq().len() && m_snap.kseq()[j] == p;
                            assert(spec_is_notify_game_start(
                                effects@[j],
                                rid_view,
                                p,
                                m_snap@[p]@,
                            ));
                        }
                        assert forall|k: Seq<char>| #[trigger] to_snap.order_views().contains(k)
                            == m_snap@.dom().contains(k) by {
                            if m_snap@.dom().contains(k) {
                                assert(m_snap.kseq().contains(k));
                            }
                            if m_snap.kseq().contains(k) {
                                let j = choose|j: int|
                                    0 <= j < m_snap.kseq().len() && m_snap.kseq()[j] == k;
                                assert(m_snap@.dom().contains(m_snap.kseq()[j]));
                            }
                        }
                    }
                    let ghost notifies_done = effects@;
                    let connections_id = match self.manager.get_connections_id_from_room_id(
                        room_id.as_str(),
                    ) {
                        Ok(conns) => conns,
                        Err(_) => {
                            proof {
                                assert(self.manager.connection_to_room_info@.dom().contains(
                                    connection_id@,
                                ));
                                assert(false);
                            }
                            unreached()
                        },
                    };
                    let order_copy = clone_strings(&turn_order.order);
                    effects.push(
                        LobbyEffect::Deliver(
                            Delivery::ToPlayers {
                                connections_id,
                                response: ServerResponse::RoomGameStart { turn_order: order_copy },
                            },
                        ),
                    );
                    effects.push(
                        LobbyEffect::Deliver(
                            Delivery::ToAll {
                                response: ServerResponse::LobbyStartedGame {
                                    room_id: room_id.clone(),
                                },
                            },
                        ),
                    );
                    self.manager.set_room_in_game(room_id.as_str());
                    effects.push(
                        LobbyEffect::StartGame {
                            game_id: room_id,
                            players_id_to_connection_id: players_mapping,
                            turn_order,
                        },
                    );
                    proof {
                        let le = effects@.len() as int;
                        assert(forall|q: int|
                            0 <= q < notifies_done.len() ==> #[trigger] effects@[q]
                                == notifies_done[q]);
                        assert forall|p: Seq<char>| #[trigger] m_snap@.dom().contains(
                            p,
                        ) implies exists|q: int|
                            0 <= q < effects@.len() && #[trigger] spec_is_notify_game_start(
                                effects@[q],
                                rid_view,
                                p,
                                m_snap@[p]@,
                            ) by {
                            let q = choose|q: int|
                                0 <= q < notifies_done.len()
                                    && #[trigger] spec_is_notify_game_start(
                                    notifies_done[q],
                                    rid_view,
                                    p,
                                    m_snap@[p]@,
                                );
                            assert(spec_is_notify_game_start(
                                effects@[q],
                                rid_view,
                                p,
                                m_snap@[p]@,
                            ));
                        }
                        assert(spec_is_room_game_start(
                            effects@[le - 3],
                            old(self).manager.rooms_connections_map@[rid_view]@,
                            to_snap,
                        ));
                        assert(spec_is_lobby_started(effects@[le - 2], rid_view));
                        assert(effects@[le - 1] is StartGame);
                        assert(effects@[le - 1]->StartGame_players_id_to_connection_id == m_snap);
                        assert(effects@[le - 1]->StartGame_turn_order == to_snap);
                        assert(effects@[le - 1]->StartGame_game_id@ == rid_view);
                        assert(spec_start_game_payload(
                            effects@,
                            effects@[le - 1]->StartGame_game_id,
                            m_snap,
                            to_snap,
                            rid_view,
                            old(self).manager.connection_to_room_info@,
                            old(self).manager.rooms_connections_map@[rid_view]@,
                        ));
                        assert(spec_start_game_effect(
                            effects@,
                            le - 1,
                            rid_view,
                            old(self).manager.connection_to_room_info@,
                            old(self).manager.rooms_connections_map@[rid_view]@,
                        ));
                    }
                } else {
                    let ghost ready_v = ready_result.players_ready@;
                    effects.push(
                        LobbyEffect::Deliver(
                            Delivery::ToAll {
                                response: ServerResponse::PlayersReady {
                                    players_ready: ready_result.players_ready,
                                },
                            },
                        ),
                    );
                    proof {
                        let rid2 = choose|rid2: Seq<char>|
                            {
                                &&& #[trigger] old(self).manager.rooms@.dom().contains(rid2)
                                &&& self.manager.rooms@ == old(self).manager.rooms@.insert(
                                    rid2,
                                    self.manager.rooms@[rid2],
                                )
                                &&& ready_v == self.manager.rooms@[rid2].players_ready@
                            };
                        assert(self.manager.rooms@.dom().contains(rid2));
                        assert(spec_is_players_ready(
                            effects@[0],
                            self.manager.rooms@[rid2].players_ready@,
                        ));
                    }
                }
                Ok(effects)
            },
        }
    }
}

} // verus!
