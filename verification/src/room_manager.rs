//! The lobby's bookkeeping: every room, which connection sits in which
//! room under which player id, and each room's set of connections.
//!
//! The governing invariant is membership consistency: a room's
//! connection set and the per-connection room index always agree.

use vstd::prelude::*;
use crate::errors::{AppError, AppResult};
use crate::room::{Room, RoomState};
use crate::strmap::{StrMap, StrSet};
use crate::text::str_is_blank;

verus! {

/// Where one connection sits: its room, its player id there, and the
/// name it plays under.
#[derive(Debug)]
pub struct PlayerRoomInfo {
    pub room_id: String,
    pub room_player_id: String,
    pub player_name: String,
}

/// A vector of id strings that lists exactly the members of a set.
pub open spec fn covers_set(ids: Seq<String>, s: Set<Seq<char>>) -> bool {
    &&& ids.len() == s.len()
    &&& forall|i: int| 0 <= i < ids.len() ==> s.contains(#[trigger] ids[i]@)
    &&& forall|k: Seq<char>| #[trigger] s.contains(k) ==> exists|i: int|
        0 <= i < ids.len() && #[trigger] ids[i]@ == k
}

/// A vector of id strings that lists exactly the members of a set other
/// than one excluded id.
pub open spec fn covers_set_except(ids: Seq<String>, s: Set<Seq<char>>, except: Seq<char>) -> bool {
    &&& forall|i: int|
        0 <= i < ids.len() ==> s.contains(#[trigger] ids[i]@) && ids[i]@ != except
    &&& forall|k: Seq<char>| #[trigger] s.contains(k) && k != except ==> exists|i: int|
        0 <= i < ids.len() && #[trigger] ids[i]@ == k
}

/// What marking a player ready came to: the room's ready set and
/// whether the game may now start.
#[derive(Debug)]
pub struct ReadyPlayerResult {
    pub players_ready: StrSet,
    pub game_started: bool,
}

#[derive(Debug)]
pub struct RoomManager {
    pub rooms: StrMap<Room>,
    pub connection_to_room_info: StrMap<PlayerRoomInfo>,
    pub rooms_connections_map: StrMap<StrSet>,
}

impl RoomManager {
    /// Membership consistency: each indexed connection is listed in its
    /// room's connection set, and each listed connection is indexed to
    /// exactly that room; every room has a connection set; every stored
    /// room and set is itself sound.
    pub open spec fn wf(&self) -> bool {
        &&& self.rooms.wf()
        &&& self.connection_to_room_info.wf()
        &&& self.rooms_connections_map.wf()
        &&& forall|k: Seq<char>| #[trigger] self.rooms@.dom().contains(k) ==> self.rooms@[k].wf()
        &&& forall|k: Seq<char>| #[trigger] self.rooms_connections_map@.dom().contains(k)
            ==> self.rooms_connections_map@[k].wf()
        &&& forall|k: Seq<char>| #[trigger] self.rooms@.dom().contains(k)
            ==> self.rooms_connections_map@.dom().contains(k)
        &&& forall|c: Seq<char>| #[trigger] self.connection_to_room_info@.dom().contains(c)
            ==> self.rooms_connections_map@.dom().contains(self.connection_to_room_info@[c].room_id@)
                && self.rooms_connections_map@[self.connection_to_room_info@[c].room_id@]@.contains(
                c,
            )
        &&& forall|rid: Seq<char>, c: Seq<char>|
            #[trigger] self.rooms_connections_map@.dom().contains(rid)
                && #[trigger] self.rooms_connections_map@[rid]@.contains(c)
                ==> self.connection_to_room_info@.dom().contains(c)
                    && self.connection_to_room_info@[c].room_id@ == rid
    }

    pub fn new() -> (r: RoomManager)
        ensures
            r.wf(),
            r.rooms@ == Map::<Seq<char>, Room>::empty(),
            r.connection_to_room_info@ == Map::<Seq<char>, PlayerRoomInfo>::empty(),
            r.rooms_connections_map@ == Map::<Seq<char>, StrSet>::empty(),
            r.connection_to_room_info.kseq().len() == 0,
    {
        RoomManager {
            rooms: StrMap::new(),
            connection_to_room_info: StrMap::new(),
            rooms_connections_map: StrMap::new(),
        }
    }

    /// Opens a room under a fresh id with its first player seated, and
    /// indexes the creating connection there. A blank room name is
    /// refused with `RoomNameEmpty`; a connection already sitting in a
    /// room is refused with `PlayerAlreadyInRoom`; on the freak chance
    /// that a fresh id collides with a live room, nothing is touched and
    /// an internal error is reported.
    pub fn create_room(
        &mut self,
        room_name: String,
        first_player_connection_id: String,
        first_player_name: String,
    ) -> (r: AppResult<(String, String)>)
        requires
            old(self).wf(),
        ensures
            final(self).wf(),
            r is Err ==> *final(self) == *old(self),
            crate::text::is_blank(room_name@) <==> (r matches Err(e) && e
                == AppError::RoomNameEmpty),
            !crate::text::is_blank(room_name@) && old(self).connection_to_room_info@.dom().contains(
                first_player_connection_id@,
            ) <==> (r matches Err(e) && (e matches AppError::PlayerAlreadyInRoom { player_name }
                && player_name == first_player_name)),
            (r matches Err(e) && e matches AppError::Internal { .. }) ==> (!crate::text::is_blank(
                room_name@,
            ) && !old(self).connection_to_room_info@.dom().contains(first_player_connection_id@)
                && (old(self).rooms@.dom() != Set::<Seq<char>>::empty() || old(self).rooms_connections_map@.dom() != Set::<Seq<char>>::empty())),
            old(self).rooms@.dom() == Set::<Seq<char>>::empty() && old(self).rooms_connections_map@.dom() == Set::<Seq<char>>::empty() && !crate::text::is_blank(
                room_name@,
            ) && !old(self).connection_to_room_info@.dom().contains(first_player_connection_id@)
                ==> r is Ok,
            r matches Err(e) ==> (e == AppError::RoomNameEmpty || e matches
                AppError::PlayerAlreadyInRoom { .. } || e matches AppError::Internal { .. }),
            (r matches Err(e) && e matches AppError::PlayerAlreadyInRoom { .. }) ==> old(
                self,
            ).connection_to_room_info@.dom().contains(first_player_connection_id@),
            r matches Ok(ids) ==> {
                &&& ids.0@.len() == 36 && ids.1@.len() == 36
                &&& !old(self).rooms@.dom().contains(ids.0@)
                &&& final(self).rooms@.dom() == old(self).rooms@.dom().insert(ids.0@)
                &&& final(self).rooms@[ids.0@].name == room_name
                &&& final(self).rooms@[ids.0@].state == RoomState::Lobby
                &&& final(self).rooms@[ids.0@].players@ == Map::<Seq<char>, String>::empty().insert(
                    ids.1@,
                    first_player_name,
                )
                &&& final(self).rooms@[ids.0@].players_ready@ == Set::<Seq<char>>::empty()
                &&& forall|k: Seq<char>|
                    #[trigger] old(self).rooms@.dom().contains(k) ==> final(self).rooms@[k] == old(self).rooms@[k]
                &&& final(self).connection_to_room_info@.dom() == old(self).connection_to_room_info@.dom().insert(first_player_connection_id@)
                &&& final(self).connection_to_room_info@[first_player_connection_id@].room_id@
                    == ids.0@
                &&& final(self).connection_to_room_info@[
                    first_player_connection_id@
                ].room_player_id@ == ids.1@
                &&& final(self).connection_to_room_info@[first_player_connection_id@].player_name
                    == first_player_name
                &&& forall|c: Seq<char>|
                    #[trigger] old(self).connection_to_room_info@.dom().contains(c) ==> final(self).connection_to_room_info@[c] == old(self).connection_to_room_info@[c]
                &&& final(self).rooms_connections_map@.dom().contains(ids.0@)
                &&& final(self).rooms_connections_map@[ids.0@]@
                    == Set::<Seq<char>>::empty().insert(first_player_connection_id@)
            },
    {
        if str_is_blank(room_name.as_str()) {
            return Err(AppError::RoomNameEmpty);
        }
        if self.connection_to_room_info.contains_key(first_player_connection_id.as_str()) {
            return Err(AppError::PlayerAlreadyInRoom { player_name: first_player_name });
        }
        let mut room = Room::new(room_name);
        let room_id = room.get_id();
        if self.rooms.contains_key(room_id.as_str()) || self.rooms_connections_map.contains_key(
            room_id.as_str(),
        ) {
            return Err(
                AppError::Internal { message: "Fresh room id collided with a live room".to_owned() },
            );
        }
        let new_player_id = match room.add_player(first_player_name.clone()) {
            Ok(pid) => pid,
            Err(_) => {
                proof {
                    assert(false);
                }
                unreached()
            },
        };
        let info = PlayerRoomInfo {
            room_id: room_id.clone(),
            room_player_id: new_player_id.clone(),
            player_name: first_player_name,
        };
        self.connection_to_room_info.insert(first_player_connection_id.clone(), info);
        let mut member_set = StrSet::new();
        member_set.insert(first_player_connection_id);
        self.rooms_connections_map.insert(room_id.clone(), member_set);
        self.rooms.insert(room_id.clone(), room);
        proof {
            assert(self.rooms@.dom() =~= old(self).rooms@.dom().insert(room_id@));
            assert(self.connection_to_room_info@.dom() =~= old(self).connection_to_room_info@.dom().insert(first_player_connection_id@));
        }
        Ok((room_id, new_player_id))
    }

    /// Seats a new player in the room and indexes the joining
    /// connection there. Refusals: `PlayerAlreadyInRoom` when the
    /// connection already sits somewhere, `RoomNotFound` when no such
    /// room is open, and the room's own refusals when it is full or its
    /// game has begun; nothing changes on refusal.
    pub fn join_room(&mut self, room_id: &str, connection_id: String, player_name: String) -> (r:
        AppResult<String>)
        requires
            old(self).wf(),
        ensures
            final(self).wf(),
            r is Err ==> final(self).rooms@ == old(self).rooms@ && final(self).connection_to_room_info == old(self).connection_to_room_info && final(self).rooms_connections_map == old(self).rooms_connections_map,
            old(self).connection_to_room_info@.dom().contains(connection_id@) <==> (r matches Err(e)
                && (e matches AppError::PlayerAlreadyInRoom { player_name: pn } && pn
                == player_name)),
            !old(self).connection_to_room_info@.dom().contains(connection_id@) && !old(self).rooms@.dom().contains(room_id@) <==> (r matches Err(e) && (e matches
                AppError::RoomNotFound { room_id: rid } && rid@ == room_id@)),
            !old(self).connection_to_room_info@.dom().contains(connection_id@) && old(self).rooms@.dom().contains(room_id@) && old(self).rooms@[room_id@].players@.dom().len()
                >= old(self).rooms@[room_id@].max_players ==> (r matches Err(e) && e matches
                AppError::RoomFull { .. }),
            !old(self).connection_to_room_info@.dom().contains(connection_id@) && old(self).rooms@.dom().contains(room_id@) && old(self).rooms@[room_id@].players@.dom().len()
                < old(self).rooms@[room_id@].max_players && old(self).rooms@[room_id@].state
                != RoomState::Lobby ==> (r matches Err(e) && e matches AppError::RoomInGame { .. }),
            !old(self).connection_to_room_info@.dom().contains(connection_id@) && old(self).rooms@.dom().contains(room_id@) && old(self).rooms@[room_id@].players@.dom().len()
                < old(self).rooms@[room_id@].max_players && old(self).rooms@[room_id@].state
                == RoomState::Lobby ==> (r is Ok || (r matches Err(e) && e matches
                AppError::Internal { .. })),
            (r matches Err(e) && e matches AppError::Internal { .. }) ==> (old(self).rooms@.dom().contains(room_id@) && old(self).rooms@[room_id@].players@.dom().len()
                > 0),
            r matches Ok(pid) ==> {
                &&& pid@.len() == 36
                &&& old(self).rooms@.dom().contains(room_id@)
                &&& final(self).rooms@.dom() == old(self).rooms@.dom()
                &&& final(self).rooms@[room_id@].players@ == old(self).rooms@[room_id@].players@.insert(pid@, player_name)
                &&& final(self).rooms@[room_id@].state == old(self).rooms@[room_id@].state
                &&& final(self).rooms@[room_id@].name == old(self).rooms@[room_id@].name
                &&& final(self).rooms@[room_id@].id == old(self).rooms@[room_id@].id
                &&& final(self).rooms@[room_id@].players_ready@ == old(self).rooms@[room_id@].players_ready@
                &&& forall|k: Seq<char>|
                    #[trigger] old(self).rooms@.dom().contains(k) && k != room_id@ ==> final(self).rooms@[k] == old(self).rooms@[k]
                &&& final(self).connection_to_room_info@.dom() == old(self).connection_to_room_info@.dom().insert(connection_id@)
                &&& final(self).connection_to_room_info@[connection_id@].room_id@ == room_id@
                &&& final(self).connection_to_room_info@[connection_id@].room_player_id@ == pid@
                &&& final(self).connection_to_room_info@[connection_id@].player_name == player_name
                &&& forall|c: Seq<char>|
                    #[trigger] old(self).connection_to_room_info@.dom().contains(c) ==> final(self).connection_to_room_info@[c] == old(self).connection_to_room_info@[c]
                &&& final(self).rooms_connections_map@[room_id@]@ == old(self).rooms_connections_map@[room_id@]@.insert(connection_id@)
            },
    {
        if self.connection_to_room_info.contains_key(connection_id.as_str()) {
            return Err(AppError::PlayerAlreadyInRoom { player_name });
        }
        match self.rooms.get(room_id) {
            None => {
                return Err(AppError::RoomNotFound { room_id: room_id.to_owned() });
            },
            Some(room_ref) => {
                proof {
                    room_ref.players.lemma_view();
                }
                if room_ref.players.len() >= room_ref.max_players {
                    return Err(
                        AppError::RoomFull {
                            room_id: room_ref.get_id(),
                            max_players: room_ref.max_players,
                        },
                    );
                }
                if !matches!(room_ref.state, RoomState::Lobby) {
                    return Err(AppError::RoomInGame { room_id: room_ref.get_id() });
                }
            },
        }
        let mut room = match self.rooms.remove(room_id) {
            Some(room) => room,
            None => {
                proof {
                    assert(false);
                }
                unreached()
            },
        };
        let new_player_id = match room.add_player(player_name.clone()) {
            Ok(pid) => pid,
            Err(e) => {
                self.rooms.insert(room_id.to_owned(), room);
                proof {
                    assert(self.rooms@ =~= old(self).rooms@);
                }
                return Err(e);
            },
        };
        self.rooms.insert(room_id.to_owned(), room);
        let info = PlayerRoomInfo {
            room_id: room_id.to_owned(),
            room_player_id: new_player_id.clone(),
            player_name,
        };
        self.connection_to_room_info.insert(connection_id.clone(), info);
        let mut member_set = match self.rooms_connections_map.remove(room_id) {
            Some(s) => s,
            None => {
                proof {
                    assert(false);
                }
                unreached()
            },
        };
        member_set.insert(connection_id);
        self.rooms_connections_map.insert(room_id.to_owned(), member_set);
        proof {
            assert(self.rooms@.dom() =~= old(self).rooms@.dom());
            assert(self.connection_to_room_info@.dom() =~= old(self).connection_to_room_info@.dom().insert(connection_id@));
        }
        Ok(new_player_id)
    }

    pub fn get_room(&self, room_id: &str) -> (r: Option<&Room>)
        requires
            self.wf(),
        ensures
            match r {
                Some(room) => self.rooms@.dom().contains(room_id@) && *room
                    == self.rooms@[room_id@],
                None => !self.rooms@.dom().contains(room_id@),
            },
    {
        self.rooms.get(room_id)
    }

    pub fn get_player_id_from_connection_id(&self, connection_id: &str) -> (r: AppResult<String>)
        requires
            self.wf(),
        ensures
            match r {
                Ok(pid) => self.connection_to_room_info@.dom().contains(connection_id@) && pid@
                    == self.connection_to_room_info@[connection_id@].room_player_id@,
                Err(e) => !self.connection_to_room_info@.dom().contains(connection_id@) && e
                    == AppError::ConnectionNotInRoom,
            },
    {
        match self.connection_to_room_info.get(connection_id) {
            Some(info) => Ok(info.room_player_id.clone()),
            None => Err(AppError::ConnectionNotInRoom),
        }
    }

    pub fn get_player_room_from_connection_id(&self, connection_id: &str) -> (r: Option<String>)
        requires
            self.wf(),
        ensures
            match r {
                Some(rid) => self.connection_to_room_info@.dom().contains(connection_id@) && rid@
                    == self.connection_to_room_info@[connection_id@].room_id@,
                None => !self.connection_to_room_info@.dom().contains(connection_id@),
            },
    {
        match self.connection_to_room_info.get(connection_id) {
            Some(info) => Some(info.room_id.clone()),
            None => None,
        }
    }

    pub fn get_player_name_from_connection_id(&self, connection_id: &str) -> (r: Option<String>)
        requires
            self.wf(),
        ensures
            match r {
                Some(name) => self.connection_to_room_info@.dom().contains(connection_id@) && name@
                    == self.connection_to_room_info@[connection_id@].player_name@,
                None => !self.connection_to_room_info@.dom().contains(connection_id@),
            },
    {
        match self.connection_to_room_info.get(connection_id) {
            Some(info) => Some(info.player_name.clone()),
            None => None,
        }
    }

    /// The room a player id is seated in, found through the connection
    /// index.
    pub fn get_player_room_from_player_id(&self, player_id: &str) -> (r: AppResult<String>)
        requires
            self.wf(),
        ensures
            r matches Ok(rid) ==> exists|c: Seq<char>|
                #[trigger] self.connection_to_room_info@.dom().contains(c)
                    && self.connection_to_room_info@[c].room_player_id@ == player_id@
                    && self.connection_to_room_info@[c].room_id@ == rid@,
            r is Err ==> (forall|c: Seq<char>|
                #[trigger] self.connection_to_room_info@.dom().contains(c)
                    ==> self.connection_to_room_info@[c].room_player_id@ != player_id@),
            r matches Err(e) ==> e == AppError::ConnectionNotInRoom,
    {
        proof {
            self.connection_to_room_info.lemma_view();
        }
        let n = self.connection_to_room_info.len();
        let mut i: usize = 0;
        while i < n
            invariant
                i <= n,
                self.wf(),
                n == self.connection_to_room_info.kseq().len(),
                forall|j: int|
                    0 <= j < i ==> (#[trigger] self.connection_to_room_info.vseq()[
                        j
                    ]).room_player_id@ != player_id@,
            decreases n - i,
        {
            proof {
                self.connection_to_room_info.lemma_view();
            }
            let info = self.connection_to_room_info.value_at(i);
            if crate::text::str_eq(info.room_player_id.as_str(), player_id) {
                proof {
                    assert(self.connection_to_room_info@.dom().contains(
                        self.connection_to_room_info.kseq()[i as int],
                    ));
                }
                return Ok(info.room_id.clone());
            }
            i = i + 1;
        }
        proof {
            self.connection_to_room_info.lemma_view();
            assert forall|c: Seq<char>| #[trigger] self.connection_to_room_info@.dom().contains(
                c,
            ) implies self.connection_to_room_info@[c].room_player_id@ != player_id@ by {
                let j = choose|j: int|
                    0 <= j < self.connection_to_room_info.kseq().len()
                        && self.connection_to_room_info.kseq()[j] == c;
                assert(self.connection_to_room_info.vseq()[j].room_player_id@ != player_id@);
            }
        }
        Err(AppError::ConnectionNotInRoom)
    }

    /// Marks the player ready in their room and reports whether the
    /// game may now start; nothing changes on refusal.
    pub fn ready_player(&mut self, player_id: &str) -> (r: AppResult<ReadyPlayerResult>)
        requires
            old(self).wf(),
        ensures
            final(self).wf(),
            r is Err ==> *final(self) == *old(self),
            r matches Err(e) ==> (e == AppError::ConnectionNotInRoom || e matches
                AppError::RoomNotFound { .. }),
            (forall|c: Seq<char>|
                #[trigger] old(self).connection_to_room_info@.dom().contains(c) ==> old(self).connection_to_room_info@[c].room_player_id@ != player_id@) ==> r
                == AppResult::<ReadyPlayerResult>::Err(AppError::ConnectionNotInRoom),
            (exists|c: Seq<char>|
                #[trigger] old(self).connection_to_room_info@.dom().contains(c) && old(self).connection_to_room_info@[c].room_player_id@ == player_id@) && (forall|
                c: Seq<char>,
            |
                #[trigger] old(self).connection_to_room_info@.dom().contains(c) && old(self).connection_to_room_info@[c].room_player_id@ == player_id@ ==> old(self).rooms@.dom().contains(old(self).connection_to_room_info@[c].room_id@) && old(self).rooms@[old(self).connection_to_room_info@[c].room_id@].players@.dom().contains(
                    player_id@,
                )) ==> r is Ok,
            r matches Ok(res) ==> exists|rid: Seq<char>|
                {
                    &&& #[trigger] old(self).rooms@.dom().contains(rid)
                    &&& old(self).rooms@[rid].players@.dom().contains(player_id@)
                    &&& final(self).rooms@ == old(self).rooms@.insert(rid, final(self).rooms@[rid])
                    &&& final(self).rooms@[rid].players_ready@ == old(self).rooms@[rid].players_ready@.insert(player_id@)
                    &&& final(self).rooms@[rid].players@ == old(self).rooms@[rid].players@
                    &&& final(self).rooms@[rid].state == old(self).rooms@[rid].state
                    &&& final(self).rooms@[rid].min_players == old(self).rooms@[rid].min_players
                    &&& res.players_ready@ == final(self).rooms@[rid].players_ready@
                    &&& res.game_started == (final(self).rooms@[rid].players_ready@.len() == final(self).rooms@[rid].players@.dom().len() && final(self).rooms@[rid].state
                        == RoomState::Lobby && final(self).rooms@[rid].players@.dom().len()
                        >= final(self).rooms@[rid].min_players)
                    &&& final(self).connection_to_room_info == old(self).connection_to_room_info
                    &&& final(self).rooms_connections_map == old(self).rooms_connections_map
                },
    {
        let room_id = match self.get_player_room_from_player_id(player_id) {
            Ok(rid) => rid,
            Err(e) => {
                return Err(e);
            },
        };
        match self.rooms.get(room_id.as_str()) {
            None => {
                return Err(AppError::RoomNotFound { room_id });
            },
            Some(room_ref) => {
                if !room_ref.players.contains_key(player_id) {
                    return Err(AppError::ConnectionNotInRoom);
                }
            },
        }
        let mut room = match self.rooms.remove(room_id.as_str()) {
            Some(room) => room,
            None => {
                proof {
                    assert(false);
                }
                unreached()
            },
        };
        let players_ready = match room.add_player_ready(player_id) {
            Ok(s) => s,
            Err(_) => {
                proof {
                    assert(false);
                }
                unreached()
            },
        };
        let game_started = room.can_start_game();
        self.rooms.insert(room_id.clone(), room);
        proof {
            assert(self.rooms@ =~= old(self).rooms@.insert(room_id@, self.rooms@[room_id@]));
        }
        Ok(ReadyPlayerResult { players_ready, game_started })
    }

    /// Unseats the leaving connection from its room, dropping the room
    /// once it empties; nothing changes on refusal.
    pub fn leave_room(&mut self, connection_id: &str) -> (r: AppResult<String>)
        requires
            old(self).wf(),
        ensures
            final(self).wf(),
            r is Err ==> *final(self) == *old(self),
            !old(self).connection_to_room_info@.dom().contains(connection_id@) ==> r
                == AppResult::<String>::Err(AppError::ConnectionNotInRoom),
            old(self).connection_to_room_info@.dom().contains(connection_id@) && old(self).rooms@.dom().contains(old(self).connection_to_room_info@[connection_id@].room_id@)
                && old(self).rooms@[old(self).connection_to_room_info@[connection_id@].room_id@].state == RoomState::Lobby && old(self).rooms@[old(self).connection_to_room_info@[connection_id@].room_id@].players@.dom().contains(
                old(self).connection_to_room_info@[connection_id@].room_player_id@,
            ) ==> r is Ok,
            r is Ok ==> old(self).connection_to_room_info@.dom().contains(connection_id@),
            r matches Ok(name) ==> ({
                let rid = old(self).connection_to_room_info@[connection_id@].room_id@;
                let pid = old(self).connection_to_room_info@[connection_id@].room_player_id@;
                &&& old(self).rooms@.dom().contains(rid)
                &&& old(self).rooms@[rid].players@.dom().contains(pid)
                &&& name == old(self).rooms@[rid].players@[pid]
                &&& final(self).connection_to_room_info@ == old(self).connection_to_room_info@.remove(connection_id@)
                &&& final(self).rooms_connections_map@.dom() == old(self).rooms_connections_map@.dom()
                &&& final(self).rooms_connections_map@[rid]@ == old(self).rooms_connections_map@[rid]@.remove(connection_id@)
                &&& (old(self).rooms@[rid].players@.dom().len() > 1 ==> final(self).rooms@.dom()
                    == old(self).rooms@.dom() && final(self).rooms@[rid].players@ == old(self).rooms@[rid].players@.remove(pid) && final(self).rooms@[rid].players_ready@ == old(self).rooms@[rid].players_ready@.remove(pid))
                &&& (old(self).rooms@[rid].players@.dom().len() <= 1 ==> final(self).rooms@.dom()
                    == old(self).rooms@.dom().remove(rid))
            }),
    {
        let info_room_id;
        let info_player_id;
        match self.connection_to_room_info.get(connection_id) {
            None => {
                return Err(AppError::ConnectionNotInRoom);
            },
            Some(info) => {
                info_room_id = info.room_id.clone();
                info_player_id = info.room_player_id.clone();
            },
        }
        match self.rooms.get(info_room_id.as_str()) {
            None => {
                return Err(AppError::RoomNotFound { room_id: info_room_id });
            },
            Some(room_ref) => {
                if !matches!(room_ref.state, RoomState::Lobby) {
                    return Err(AppError::RoomInGame { room_id: info_room_id });
                }
                if !room_ref.players.contains_key(info_player_id.as_str()) {
                    return Err(AppError::ConnectionNotInRoom);
                }
            },
        }
        let mut room = match self.rooms.remove(info_room_id.as_str()) {
            Some(room) => room,
            None => {
                proof {
                    assert(false);
                }
                unreached()
            },
        };
        let removed_player_name = match room.remove_player(info_player_id.as_str()) {
            Ok(name) => name,
            Err(_) => {
                proof {
                    assert(false);
                }
                unreached()
            },
        };
        self.connection_to_room_info.remove(connection_id);
        let mut member_set = match self.rooms_connections_map.remove(info_room_id.as_str()) {
            Some(s) => s,
            None => {
                proof {
                    assert(false);
                }
                unreached()
            },
        };
        member_set.remove(connection_id);
        self.rooms_connections_map.insert(info_room_id.clone(), member_set);
        proof {
            assert(self.rooms_connections_map@ =~= old(self).rooms_connections_map@.insert(
                old(self).connection_to_room_info@[connection_id@].room_id@,
                self.rooms_connections_map@[old(self).connection_to_room_info@[connection_id@].room_id@],
            ));
            assert(self.rooms_connections_map@.dom() =~= old(self).rooms_connections_map@.dom());
        }
        proof {
            let rid = old(self).connection_to_room_info@[connection_id@].room_id@;
            let pid = old(self).connection_to_room_info@[connection_id@].room_player_id@;
            old(self).rooms@[rid].players.lemma_view();
            room.players.lemma_view();
            assert(room.players@.dom() =~= old(self).rooms@[rid].players@.dom().remove(pid));
        }
        if room.player_count() == 0 {
            proof {
                assert(self.rooms@ =~= old(self).rooms@.remove(
                    old(self).connection_to_room_info@[connection_id@].room_id@,
                ));
                assert(self.rooms@.dom() =~= old(self).rooms@.dom().remove(
                    old(self).connection_to_room_info@[connection_id@].room_id@,
                ));
            }
        } else {
            self.rooms.insert(info_room_id, room);
            proof {
                assert(self.rooms@.dom() =~= old(self).rooms@.dom());
            }
        }
        Ok(removed_player_name)
    }

    /// Tears a room down on behalf of a connection: the room leaves the
    /// directory, and the caller's own membership is dropped. Other
    /// members stay indexed until they leave themselves; nothing changes
    /// on refusal.
    pub fn destroy_room(&mut self, room_id: &str, connection_id: &str) -> (r: AppResult<String>)
        requires
            old(self).wf(),
        ensures
            final(self).wf(),
            r is Err ==> *final(self) == *old(self),
            !old(self).connection_to_room_info@.dom().contains(connection_id@) <==> r
                == AppResult::<String>::Err(AppError::ConnectionNotInRoom),
            old(self).connection_to_room_info@.dom().contains(connection_id@) && !old(self).rooms@.dom().contains(room_id@) ==> (r matches Err(e) && e matches
                AppError::RoomNotFound { .. }),
            old(self).connection_to_room_info@.dom().contains(connection_id@) && old(self).rooms@.dom().contains(room_id@) ==> (r matches Ok(rid) && rid@ == room_id@),
            r is Ok ==> ({
                let own = old(self).connection_to_room_info@[connection_id@].room_id@;
                &&& final(self).rooms@ == old(self).rooms@.remove(room_id@)
                &&& !final(self).rooms_connections_map@.dom().contains(room_id@)
                &&& forall|c: Seq<char>|
                    #[trigger] final(self).connection_to_room_info@.dom().contains(c) == (old(self).connection_to_room_info@.dom().contains(c) && old(self).connection_to_room_info@[c].room_id@ != room_id@ && c != connection_id@)
                &&& forall|c: Seq<char>|
                    #[trigger] final(self).connection_to_room_info@.dom().contains(c) ==> final(self).connection_to_room_info@[c] == old(self).connection_to_room_info@[c]
                &&& forall|k: Seq<char>|
                    #[trigger] final(self).rooms_connections_map@.dom().contains(k) == (old(self).rooms_connections_map@.dom().contains(k) && k != room_id@)
                &&& (own != room_id@ ==> final(self).rooms_connections_map@[own]@ == old(self).rooms_connections_map@[own]@.remove(connection_id@))
                &&& forall|k: Seq<char>|
                    #[trigger] final(self).rooms_connections_map@.dom().contains(k) && k != own
                        ==> final(self).rooms_connections_map@[k] == old(self).rooms_connections_map@[k]
            }),
    {
        let own_room_id;
        match self.connection_to_room_info.get(connection_id) {
            None => {
                return Err(AppError::ConnectionNotInRoom);
            },
            Some(info) => {
                own_room_id = info.room_id.clone();
            },
        }
        if !self.rooms.contains_key(room_id) {
            return Err(AppError::RoomNotFound { room_id: room_id.to_owned() });
        }
        proof {
            self.connection_to_room_info.lemma_view();
        }
        let n = self.connection_to_room_info.len();
        let mut members: Vec<String> = Vec::new();
        let mut i: usize = 0;
        while i < n
            invariant
                i <= n,
                self.wf(),
                *self == *old(self),
                n == self.connection_to_room_info.kseq().len(),
                forall|q: int|
                    0 <= q < members@.len() ==> self.connection_to_room_info@.dom().contains(
                        (#[trigger] members@[q])@,
                    ) && self.connection_to_room_info@[members@[q]@].room_id@ == room_id@,
                forall|j: int|
                    0 <= j < i && (#[trigger] self.connection_to_room_info.vseq()[j]).room_id@
                        == room_id@ ==> exists|q: int|
                        0 <= q < members@.len() && (#[trigger] members@[q])@
                            == self.connection_to_room_info.kseq()[j],
            decreases n - i,
        {
            proof {
                self.connection_to_room_info.lemma_view();
            }
            let ghost members_before = members@;
            let ghost key_view = self.connection_to_room_info.kseq()[i as int];
            let hit = crate::text::str_eq(
                self.connection_to_room_info.value_at(i).room_id.as_str(),
                room_id,
            );
            let mut listed = false;
            if hit {
                let key = self.connection_to_room_info.key_at(i).clone();
                proof {
                    assert(self.connection_to_room_info@.dom().contains(key_view));
                    assert(key@ == key_view);
                }
                listed = crate::text::vec_contains_str(&members, key.as_str());
                if !listed {
                    members.push(key);
                }
            }
            proof {
                assert forall|j: int|
                    0 <= j < i + 1 && (#[trigger] self.connection_to_room_info.vseq()[j]).room_id@
                        == room_id@ implies exists|q: int|
                    0 <= q < members@.len() && (#[trigger] members@[q])@
                        == self.connection_to_room_info.kseq()[j] by {
                    if j < i {
                        let q = choose|q: int|
                            0 <= q < members_before.len() && (#[trigger] members_before[q])@
                                == self.connection_to_room_info.kseq()[j];
                        assert(members@[q]@ == self.connection_to_room_info.kseq()[j]);
                    } else {
                        if listed {
                            let q = choose|q: int|
                                0 <= q < members_before.len() && (#[trigger] members_before[q])@
                                    == key_view;
                            assert(members@[q]@ == key_view);
                        } else {
                            assert(members@[members@.len() - 1]@ == key_view);
                        }
                    }
                }
            }
            i = i + 1;
        }
        let ghost before_purge = self.connection_to_room_info;
        let m = members.len();
        let mut j: usize = 0;
        while j < m
            invariant
                j <= m,
                m == members@.len(),
                self.rooms == old(self).rooms,
                self.rooms_connections_map == old(self).rooms_connections_map,
                before_purge == old(self).connection_to_room_info,
                self.connection_to_room_info.wf(),
                forall|q: int|
                    0 <= q < members@.len() ==> before_purge@.dom().contains(
                        (#[trigger] members@[q])@,
                    ) && before_purge@[members@[q]@].room_id@ == room_id@,
                forall|c: Seq<char>|
                    #[trigger] old(self).connection_to_room_info@.dom().contains(c) && old(self).connection_to_room_info@[c].room_id@ == room_id@ ==> exists|q: int|
                        0 <= q < members@.len() && (#[trigger] members@[q])@ == c,
                forall|c: Seq<char>|
                    #[trigger] self.connection_to_room_info@.dom().contains(c) == (
                    before_purge@.dom().contains(c) && !exists|q: int|
                        0 <= q < j && (#[trigger] members@[q])@ == c),
                forall|c: Seq<char>|
                    #[trigger] self.connection_to_room_info@.dom().contains(c)
                        ==> self.connection_to_room_info@[c] == before_purge@[c],
            decreases m - j,
        {
            let ghost pre = self.connection_to_room_info@;
            self.connection_to_room_info.remove(members[j].as_str());
            proof {
                assert forall|c: Seq<char>|
                    #[trigger] self.connection_to_room_info@.dom().contains(c) == (
                before_purge@.dom().contains(c) && !exists|q: int|
                    0 <= q < j + 1 && (#[trigger] members@[q])@ == c) by {
                    if self.connection_to_room_info@.dom().contains(c) {
                        assert(pre.dom().contains(c) && c != members@[j as int]@);
                        if exists|q: int| 0 <= q < j + 1 && (#[trigger] members@[q])@ == c {
                            let q = choose|q: int|
                                0 <= q < j + 1 && (#[trigger] members@[q])@ == c;
                            assert(q < j);
                            assert(!pre.dom().contains(c));
                        }
                    } else {
                        if before_purge@.dom().contains(c) && !exists|q: int|
                            0 <= q < j + 1 && (#[trigger] members@[q])@ == c {
                            assert(!exists|q: int| 0 <= q < j && (#[trigger] members@[q])@ == c);
                            assert(pre.dom().contains(c));
                            assert(c != members@[j as int]@);
                            assert(false);
                        }
                    }
                }
            }
            j = j + 1;
        }
        self.rooms_connections_map.remove(room_id);
        if self.connection_to_room_info.contains_key(connection_id) {
            self.connection_to_room_info.remove(connection_id);
            let mut member_set = match self.rooms_connections_map.remove(own_room_id.as_str()) {
                Some(s) => s,
                None => {
                    proof {
                        assert(false);
                    }
                    unreached()
                },
            };
            member_set.remove(connection_id);
            self.rooms_connections_map.insert(own_room_id.clone(), member_set);
            proof {
                let own = old(self).connection_to_room_info@[connection_id@].room_id@;
                assert(self.rooms_connections_map@ =~= old(self).rooms_connections_map@.remove(room_id@).insert(
                    own,
                    self.rooms_connections_map@[own],
                ));
            }
        }
        self.rooms.remove(room_id);
        proof {
            let own = old(self).connection_to_room_info@[connection_id@].room_id@;
            assert forall|c: Seq<char>|
                #[trigger] self.connection_to_room_info@.dom().contains(c) == (old(self).connection_to_room_info@.dom().contains(c) && old(self).connection_to_room_info@[c].room_id@ != room_id@ && c != connection_id@) by {
                if old(self).connection_to_room_info@.dom().contains(c) && old(self).connection_to_room_info@[c].room_id@ == room_id@ {
                    assert(exists|q: int|
                        0 <= q < members@.len() && (#[trigger] members@[q])@ == c);
                }
                if self.connection_to_room_info@.dom().contains(c) {
                    if exists|q: int| 0 <= q < members@.len() && (#[trigger] members@[q])@ == c {
                        let q = choose|q: int|
                            0 <= q < members@.len() && (#[trigger] members@[q])@ == c;
                        assert(old(self).connection_to_room_info@[c].room_id@ == room_id@);
                    }
                }
            }
        }
        Ok(room_id.to_owned())
    }

    /// The player-to-connection mapping of one room's members; a room
    /// nobody sits in yields `RoomNotFound`.
    pub fn get_players_mapping(&self, room_id: &str) -> (r: AppResult<StrMap<String>>)
        requires
            self.wf(),
        ensures
            r matches Ok(m) ==> {
                &&& m.wf()
                &&& forall|c: Seq<char>|
                    #[trigger] self.connection_to_room_info@.dom().contains(c)
                        && self.connection_to_room_info@[c].room_id@ == room_id@ ==> m@.dom().contains(
                        self.connection_to_room_info@[c].room_player_id@,
                    )
                &&& forall|p: Seq<char>| #[trigger] m@.dom().contains(p) ==> exists|c: Seq<char>|
                    #[trigger] self.connection_to_room_info@.dom().contains(c)
                        && self.connection_to_room_info@[c].room_id@ == room_id@
                        && self.connection_to_room_info@[c].room_player_id@ == p && m@[p]@ == c
                &&& m@.dom() != Set::<Seq<char>>::empty()
            },
            r is Err ==> (forall|c: Seq<char>|
                #[trigger] self.connection_to_room_info@.dom().contains(c)
                    ==> self.connection_to_room_info@[c].room_id@ != room_id@),
            r matches Err(e) ==> (e matches AppError::RoomNotFound { room_id: rid } && rid@
                == room_id@),
    {
        proof {
            self.connection_to_room_info.lemma_view();
        }
        let n = self.connection_to_room_info.len();
        let mut mapping: StrMap<String> = StrMap::new();
        let mut i: usize = 0;
        while i < n
            invariant
                i <= n,
                self.wf(),
                n == self.connection_to_room_info.kseq().len(),
                mapping.wf(),
                forall|j: int|
                    0 <= j < i && (#[trigger] self.connection_to_room_info.vseq()[j]).room_id@
                        == room_id@ ==> mapping@.dom().contains(
                        self.connection_to_room_info.vseq()[j].room_player_id@,
                    ),
                forall|p: Seq<char>| #[trigger] mapping@.dom().contains(p) ==> exists|j: int|
                    0 <= j < i && (#[trigger] self.connection_to_room_info.vseq()[j]).room_id@
                        == room_id@ && self.connection_to_room_info.vseq()[j].room_player_id@ == p
                        && mapping@[p]@ == self.connection_to_room_info.kseq()[j],
            decreases n - i,
        {
            proof {
                self.connection_to_room_info.lemma_view();
            }
            let info = self.connection_to_room_info.value_at(i);
            if crate::text::str_eq(info.room_id.as_str(), room_id) {
                let conn = self.connection_to_room_info.key_at(i).clone();
                mapping.insert(info.room_player_id.clone(), conn);
            }
            i = i + 1;
        }
        proof {
            mapping.lemma_view();
            self.connection_to_room_info.lemma_view();
        }
        if mapping.is_empty() {
            proof {
                assert forall|c: Seq<char>| #[trigger] self.connection_to_room_info@.dom().contains(
                    c,
                ) implies self.connection_to_room_info@[c].room_id@ != room_id@ by {
                    let j = choose|j: int|
                        0 <= j < self.connection_to_room_info.kseq().len()
                            && self.connection_to_room_info.kseq()[j] == c;
                    if self.connection_to_room_info.vseq()[j].room_id@ == room_id@ {
                        assert(mapping@.dom().contains(
                            self.connection_to_room_info.vseq()[j].room_player_id@,
                        ));
                    }
                }
            }
            Err(AppError::RoomNotFound { room_id: room_id.to_owned() })
        } else {
            proof {
                assert forall|c: Seq<char>| #[trigger] self.connection_to_room_info@.dom().contains(
                    c,
                ) && self.connection_to_room_info@[c].room_id@ == room_id@ implies mapping@.dom().contains(
                    self.connection_to_room_info@[c].room_player_id@,
                ) by {
                    let j = choose|j: int|
                        0 <= j < self.connection_to_room_info.kseq().len()
                            && self.connection_to_room_info.kseq()[j] == c;
                }
                assert forall|p: Seq<char>| #[trigger] mapping@.dom().contains(p) implies exists|
                    c: Seq<char>,
                |
                    #[trigger] self.connection_to_room_info@.dom().contains(c)
                        && self.connection_to_room_info@[c].room_id@ == room_id@
                        && self.connection_to_room_info@[c].room_player_id@ == p && mapping@[p]@
                        == c by {
                    let j = choose|j: int|
                        0 <= j < n && (#[trigger] self.connection_to_room_info.vseq()[j]).room_id@
                            == room_id@ && self.connection_to_room_info.vseq()[j].room_player_id@
                            == p && mapping@[p]@ == self.connection_to_room_info.kseq()[j];
                    assert(self.connection_to_room_info@.dom().contains(
                        self.connection_to_room_info.kseq()[j],
                    ));
                }
                if mapping@.dom() =~= Set::<Seq<char>>::empty() {
                    assert(mapping@.dom().len() == 0);
                    assert(false);
                }
            }
            Ok(mapping)
        }
    }

    /// Every connection sitting in the room.
    pub fn get_connections_id_from_room_id(&self, room_id: &str) -> (r: AppResult<Vec<String>>)
        requires
            self.wf(),
        ensures
            r is Ok <==> self.rooms_connections_map@.dom().contains(room_id@),
            r matches Ok(conns) ==> {
                &&& conns@.len() == self.rooms_connections_map@[room_id@]@.len()
                &&& forall|i: int|
                    0 <= i < conns@.len() ==> self.rooms_connections_map@[room_id@]@.contains(
                        #[trigger] conns@[i]@,
                    )
                &&& forall|k: Seq<char>|
                    #[trigger] self.rooms_connections_map@[room_id@]@.contains(k) ==> exists|i: int|
                        0 <= i < conns@.len() && #[trigger] conns@[i]@ == k
            },
            r matches Err(e) ==> (e matches AppError::RoomNotFound { room_id: rid } && rid@
                == room_id@),
    {
        match self.rooms_connections_map.get(room_id) {
            None => Err(AppError::RoomNotFound { room_id: room_id.to_owned() }),
            Some(set) => {
                proof {
                    set.lemma_view();
                }
                let conns = set.to_vec();
                proof {
                    set.lemma_view();
                    assert forall|i: int| 0 <= i < conns@.len() implies self.rooms_connections_map@[
                        room_id@
                    ]@.contains(#[trigger] conns@[i]@) by {
                        assert(conns@[i]@ == set.iseq()[i]);
                        assert(set@.contains(set.iseq()[i]));
                    }
                    assert forall|k: Seq<char>|
                        #[trigger] self.rooms_connections_map@[room_id@]@.contains(
                            k,
                        ) implies exists|i: int| 0 <= i < conns@.len() && #[trigger] conns@[i]@
                        == k by {
                        let i = choose|i: int| 0 <= i < set.iseq().len() && set.iseq()[i] == k;
                        assert(conns@[i]@ == k);
                    }
                }
                Ok(conns)
            },
        }
    }

    /// Every connection sitting in the room but the given one.
    pub fn get_connections_id_from_room_id_except_player(
        &self,
        room_id: &str,
        connection_id: &str,
    ) -> (r: AppResult<Vec<String>>)
        requires
            self.wf(),
        ensures
            r is Ok <==> self.rooms_connections_map@.dom().contains(room_id@),
            r matches Ok(conns) ==> covers_set_except(
                conns@,
                self.rooms_connections_map@[room_id@]@,
                connection_id@,
            ),
            r matches Err(e) ==> e == AppError::ConnectionNotInRoom,
    {
        match self.rooms_connections_map.get(room_id) {
            None => Err(AppError::ConnectionNotInRoom),
            Some(set) => {
                proof {
                    set.lemma_view();
                }
                let n = set.len();
                let mut conns: Vec<String> = Vec::new();
                let mut i: usize = 0;
                while i < n
                    invariant
                        i <= n,
                        set.wf(),
                        self.wf(),
                        self.rooms_connections_map@.dom().contains(room_id@),
                        set == self.rooms_connections_map@[room_id@],
                        n == set.iseq().len(),
                        forall|j: int|
                            0 <= j < conns@.len() ==> set@.contains(#[trigger] conns@[j]@)
                                && conns@[j]@ != connection_id@,
                        forall|j: int|
                            0 <= j < i && set.iseq()[j] != connection_id@ ==> exists|q: int|
                                0 <= q < conns@.len() && #[trigger] conns@[q]@ == set.iseq()[j],
                    decreases n - i,
                {
                    proof {
                        set.lemma_view();
                    }
                    let ghost conns_before = conns@;
                    let item = set.item_at(i);
                    let skip = crate::text::str_eq(item.as_str(), connection_id);
                    if !skip {
                        conns.push(item.clone());
                    }
                    proof {
                        assert forall|j: int|
                            0 <= j < i + 1 && set.iseq()[j] != connection_id@ implies exists|
                            q: int,
                        | 0 <= q < conns@.len() && #[trigger] conns@[q]@ == set.iseq()[j] by {
                            if j < i {
                                let q = choose|q: int|
                                    0 <= q < conns_before.len() && #[trigger] conns_before[q]@
                                        == set.iseq()[j];
                                assert(conns@[q]@ == set.iseq()[j]);
                            } else {
                                assert(conns@[conns@.len() - 1]@ == set.iseq()[j]);
                            }
                        }
                    }
                    i = i + 1;
                }
                proof {
                    set.lemma_view();
                    assert forall|i: int| 0 <= i < conns@.len() implies self.rooms_connections_map@[
                        room_id@
                    ]@.contains(#[trigger] conns@[i]@) && conns@[i]@ != connection_id@ by {
                        assert(set@.contains(conns@[i]@));
                    }
                    assert forall|k: Seq<char>|
                        #[trigger] self.rooms_connections_map@[room_id@]@.contains(k) && k
                            != connection_id@ implies exists|q: int|
                        0 <= q < conns@.len() && #[trigger] conns@[q]@ == k by {
                        assert(set@.contains(k));
                        let j = choose|j: int| 0 <= j < set.iseq().len() && set.iseq()[j] == k;
                        assert(set.iseq()[j] != connection_id@);
                        let q = choose|q: int|
                            0 <= q < conns@.len() && #[trigger] conns@[q]@ == set.iseq()[j];
                        assert(conns@[q]@ == k);
                    }
                    assert(covers_set_except(
                        conns@,
                        self.rooms_connections_map@[room_id@]@,
                        connection_id@,
                    ));
                }
                Ok(conns)
            },
        }
    }

    /// Marks a room's game as begun; a missing room changes nothing.
    pub fn set_room_in_game(&mut self, room_id: &str)
        requires
            old(self).wf(),
        ensures
            final(self).wf(),
            !old(self).rooms@.dom().contains(room_id@) ==> *final(self) == *old(self),
            old(self).rooms@.dom().contains(room_id@) ==> {
                &&& final(self).rooms@.dom() == old(self).rooms@.dom()
                &&& final(self).rooms@[room_id@].state == RoomState::InGame
                &&& final(self).rooms@[room_id@].players@ == old(self).rooms@[room_id@].players@
                &&& final(self).rooms@[room_id@].players_ready@ == old(self).rooms@[room_id@].players_ready@
                &&& final(self).rooms@[room_id@].id == old(self).rooms@[room_id@].id
                &&& forall|k: Seq<char>|
                    #[trigger] old(self).rooms@.dom().contains(k) && k != room_id@ ==> final(self).rooms@[k] == old(self).rooms@[k]
                &&& final(self).connection_to_room_info == old(self).connection_to_room_info
                &&& final(self).rooms_connections_map == old(self).rooms_connections_map
            },
    {
        match self.rooms.remove(room_id) {
            None => {
            },
            Some(room) => {
                let mut room = room;
                room.set_state_in_game();
                self.rooms.insert(room_id.to_owned(), room);
                proof {
                    assert(self.rooms@.dom() =~= old(self).rooms@.dom());
                }
            },
        }
    }

    /// The player ids seated in a room.
    pub fn get_player_list(&self, room_id: &str) -> (r: Option<Vec<String>>)
        requires
            self.wf(),
        ensures
            r is Some <==> self.rooms@.dom().contains(room_id@),
            r matches Some(pids) ==> covers_set(pids@, self.rooms@[room_id@].players@.dom()),
    {
        match self.rooms.get(room_id) {
            None => None,
            Some(room) => {
                proof {
                    room.players.lemma_view();
                }
                let pids = room.get_players_id();
                proof {
                    room.players.lemma_view();
                    assert(pids@.len() == self.rooms@[room_id@].players@.dom().len());
                    assert forall|i: int| 0 <= i < pids@.len() implies self.rooms@[
                        room_id@
                    ].players@.dom().contains(#[trigger] pids@[i]@) by {
                        assert(room.players@.dom().contains(pids@[i]@));
                    }
                    assert forall|k: Seq<char>| #[trigger] self.rooms@[
                        room_id@
                    ].players@.dom().contains(k) implies exists|i: int|
                        0 <= i < pids@.len() && #[trigger] pids@[i]@ == k by {
                        assert(room.players@.dom().contains(k));
                        let i = choose|i: int| 0 <= i < pids@.len() && #[trigger] pids@[i]@ == k;
                    }
                    assert(covers_set(pids@, self.rooms@[room_id@].players@.dom()));
                }
                Some(pids)
            },
        }
    }
}

/// Room membership consistency: every connection a room's connection
/// set lists is indexed in the connection directory, and indexed to
/// exactly that room — the forward and reverse indices agree.
pub proof fn lemma_room_membership_consistency(m: RoomManager, room_id: Seq<char>)
    requires
        m.wf(),
        m.rooms_connections_map@.dom().contains(room_id),
    ensures
        forall|c: Seq<char>| #[trigger] m.rooms_connections_map@[room_id]@.contains(c)
            ==> m.connection_to_room_info@.dom().contains(c)
                && m.connection_to_room_info@[c].room_id@ == room_id,
{
}

} // verus!
