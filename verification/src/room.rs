//! A lobby room: who sits in it, who is ready, and whether its game has
//! begun. Membership only changes while the room is still in the lobby.

use vstd::prelude::*;
use crate::errors::{AppError, AppResult};
use crate::random::fresh_id;
use crate::strmap::{StrMap, StrSet};

verus! {

#[derive(Debug, Clone, Copy, PartialEq, Eq, Structural)]
pub enum RoomState {
    Lobby,
    InGame,
}

/// A public summary of one room.
#[derive(Debug)]
pub struct RoomInfo {
    pub id: String,
    pub name: String,
    pub player_count: usize,
    pub max_players: usize,
    pub state: RoomState,
}

#[derive(Debug)]
pub struct Room {
    pub id: String,
    pub name: String,
    pub players: StrMap<String>,
    pub state: RoomState,
    pub max_players: usize,
    pub min_players: usize,
    pub players_ready: StrSet,
}

impl Room {
    /// Sound member and ready directories, every ready player a member,
    /// and never more members than seats.
    pub open spec fn wf(&self) -> bool {
        &&& self.players.wf()
        &&& self.players_ready.wf()
        &&& forall|k: Seq<char>| #[trigger] self.players_ready@.contains(k)
            ==> self.players@.dom().contains(k)
        &&& self.players@.dom().len() <= self.max_players
        &&& self.min_players >= 1
    }

    /// An empty room in the lobby, under a fresh id, seating at most
    /// four players and needing at least two to start.
    pub fn new(name: String) -> (r: Room)
        ensures
            r.wf(),
            r.id@.len() == 36,
            r.name == name,
            r.players@ == Map::<Seq<char>, String>::empty(),
            r.players_ready@ == Set::<Seq<char>>::empty(),
            r.state == RoomState::Lobby,
            r.max_players == 4,
            r.min_players == 2,
    {
        let r = Room {
            id: fresh_id(),
            name,
            players: StrMap::new(),
            players_ready: StrSet::new(),
            state: RoomState::Lobby,
            max_players: 4,
            min_players: 2,
        };
        proof {
            r.players.lemma_view();
        }
        r
    }

    /// Seats a new player under a fresh id, never one already seated: on
    /// the freak chance that a fresh id collides with a seated player's,
    /// the seat is refused with an internal error rather than taken over.
    /// A full room refuses with `RoomFull`; a room whose game has begun
    /// refuses with `RoomInGame`; nothing changes on refusal.
    pub fn add_player(&mut self, player_name: String) -> (r: AppResult<String>)
        requires
            old(self).wf(),
        ensures
            final(self).wf(),
            r is Err ==> *final(self) == *old(self),
            old(self).players@.dom().len() >= old(self).max_players ==> (r matches Err(e) && e
                matches AppError::RoomFull { room_id, max_players } && room_id@ == old(self).id@
                && max_players == old(self).max_players),
            old(self).players@.dom().len() < old(self).max_players && old(self).state
                != RoomState::Lobby ==> (r matches Err(e) && e matches AppError::RoomInGame {
                room_id,
            } && room_id@ == old(self).id@),
            old(self).players@.dom().len() < old(self).max_players && old(self).state
                == RoomState::Lobby ==> (r is Ok || (r matches Err(e) && e matches
                AppError::Internal { .. })),
            (r matches Err(e) && e matches AppError::Internal { .. }) ==> old(
                self,
            ).players@.dom().len() > 0,
            old(self).players@.dom().len() == 0 && old(self).state == RoomState::Lobby && old(
                self,
            ).max_players > 0 ==> r is Ok,
            r matches Ok(pid) ==> {
                &&& pid@.len() == 36
                &&& !old(self).players@.dom().contains(pid@)
                &&& final(self).players@ == old(self).players@.insert(pid@, player_name)
                &&& final(self).players_ready == old(self).players_ready
                &&& final(self).state == old(self).state
                &&& final(self).id == old(self).id
                &&& final(self).name == old(self).name
                &&& final(self).max_players == old(self).max_players
                &&& final(self).min_players == old(self).min_players
            },
    {
        proof {
            self.players.lemma_view();
        }
        if self.players.len() >= self.max_players {
            return Err(
                AppError::RoomFull { room_id: self.get_id(), max_players: self.max_players },
            );
        }
        if !matches!(self.state, RoomState::Lobby) {
            return Err(AppError::RoomInGame { room_id: self.get_id() });
        }
        let new_player_id = fresh_id();
        if self.players.contains_key(new_player_id.as_str()) {
            proof {
                self.players.lemma_view();
                let j = choose|j: int|
                    0 <= j < self.players.kseq().len() && self.players.kseq()[j]
                        == new_player_id@;
                assert(self.players@.dom().len() > 0);
            }
            return Err(
                AppError::Internal {
                    message: "Fresh player id collided with a seated player".to_owned(),
                },
            );
        }
        self.players.insert(new_player_id.clone(), player_name);
        proof {
            self.players.lemma_view();
        }
        Ok(new_player_id)
    }

    /// Unseats a player and forgets their readiness. Refused with
    /// `RoomInGame` once the game has begun, and with
    /// `ConnectionNotInRoom` when no such player sits here — so removing
    /// an absent player changes nothing.
    pub fn remove_player(&mut self, player_id: &str) -> (r: AppResult<String>)
        requires
            old(self).wf(),
        ensures
            final(self).wf(),
            r is Err ==> *final(self) == *old(self),
            old(self).state != RoomState::Lobby ==> (r matches Err(e) && e matches
                AppError::RoomInGame { room_id } && room_id@ == old(self).id@),
            old(self).state == RoomState::Lobby && !old(self).players@.dom().contains(player_id@)
                ==> r == AppResult::<String>::Err(AppError::ConnectionNotInRoom),
            old(self).state == RoomState::Lobby && old(self).players@.dom().contains(player_id@)
                ==> (r matches Ok(name) && name == old(self).players@[player_id@]),
            r is Ok ==> {
                &&& final(self).players@ == old(self).players@.remove(player_id@)
                &&& final(self).players_ready@ == old(self).players_ready@.remove(player_id@)
                &&& final(self).state == old(self).state
                &&& final(self).id == old(self).id
                &&& final(self).name == old(self).name
                &&& final(self).max_players == old(self).max_players
                &&& final(self).min_players == old(self).min_players
            },
    {
        if !matches!(self.state, RoomState::Lobby) {
            return Err(AppError::RoomInGame { room_id: self.get_id() });
        }
        proof {
            self.players.lemma_view();
        }
        match self.players.remove(player_id) {
            None => Err(AppError::ConnectionNotInRoom),
            Some(player_name) => {
                self.players_ready.remove(player_id);
                Ok(player_name)
            },
        }
    }

    /// Marks a seated player ready and reports the ready set. Readying
    /// an already-ready player changes nothing: the set is a set. An
    /// unseated player is refused with `ConnectionNotInRoom`.
    pub fn add_player_ready(&mut self, player_id: &str) -> (r: AppResult<StrSet>)
        requires
            old(self).wf(),
        ensures
            final(self).wf(),
            r is Err ==> *final(self) == *old(self),
            !old(self).players@.dom().contains(player_id@) ==> r == AppResult::<
                StrSet,
            >::Err(AppError::ConnectionNotInRoom),
            old(self).players@.dom().contains(player_id@) ==> r is Ok,
            r matches Ok(ready) ==> {
                &&& final(self).players_ready@ == old(self).players_ready@.insert(player_id@)
                &&& ready@ == final(self).players_ready@
                &&& final(self).players == old(self).players
                &&& final(self).state == old(self).state
                &&& final(self).id == old(self).id
                &&& final(self).name == old(self).name
                &&& final(self).max_players == old(self).max_players
                &&& final(self).min_players == old(self).min_players
            },
    {
        if !self.players.contains_key(player_id) {
            return Err(AppError::ConnectionNotInRoom);
        }
        self.players_ready.insert(player_id.to_owned());
        Ok(self.players_ready.duplicate())
    }

    /// The game may start once everyone seated is ready, the room is
    /// still in the lobby, and at least the minimum number of players
    /// sit here.
    pub fn can_start_game(&self) -> (r: bool)
        requires
            self.wf(),
        ensures
            r == (self.players_ready@.len() == self.players@.dom().len() && self.state
                == RoomState::Lobby && self.players@.dom().len() >= self.min_players),
    {
        self.players_ready.len() == self.players.len() && matches!(self.state, RoomState::Lobby)
            && self.players.len() >= self.min_players
    }

    /// Starts the game: the room leaves the lobby and the ready set is
    /// cleared. Refused with `PlayersNotReady` while the start
    /// conditions do not hold.
    pub fn start_game(&mut self) -> (r: AppResult<()>)
        requires
            old(self).wf(),
        ensures
            final(self).wf(),
            r is Ok <==> (old(self).players_ready@.len() == old(self).players@.dom().len() && old(
                self,
            ).state == RoomState::Lobby && old(self).players@.dom().len() >= old(
                self,
            ).min_players),
            r matches Err(e) ==> *final(self) == *old(self) && (e matches
                AppError::PlayersNotReady { ready_count, total_count } && ready_count == old(
                self,
            ).players_ready@.len() && total_count == old(self).players@.dom().len()),
            r is Ok ==> {
                &&& final(self).state == RoomState::InGame
                &&& final(self).players_ready@ == Set::<Seq<char>>::empty()
                &&& final(self).players == old(self).players
                &&& final(self).id == old(self).id
                &&& final(self).name == old(self).name
                &&& final(self).max_players == old(self).max_players
                &&& final(self).min_players == old(self).min_players
            },
    {
        if self.can_start_game() {
            self.state = RoomState::InGame;
            self.players_ready = StrSet::new();
            Ok(())
        } else {
            Err(
                AppError::PlayersNotReady {
                    ready_count: self.players_ready.len(),
                    total_count: self.players.len(),
                },
            )
        }
    }

    /// Marks the room as in game, whatever state it was in.
    pub fn set_state_in_game(&mut self)
        ensures
            final(self).state == RoomState::InGame,
            final(self).players == old(self).players,
            final(self).players_ready == old(self).players_ready,
            final(self).id == old(self).id,
            final(self).name == old(self).name,
            final(self).max_players == old(self).max_players,
            final(self).min_players == old(self).min_players,
    {
        self.state = RoomState::InGame;
    }

    pub fn player_count(&self) -> (r: usize)
        requires
            self.wf(),
        ensures
            r == self.players@.dom().len(),
    {
        self.players.len()
    }

    pub fn player_ready_count(&self) -> (r: usize)
        requires
            self.wf(),
        ensures
            r == self.players_ready@.len(),
    {
        self.players_ready.len()
    }

    pub fn get_id(&self) -> (r: String)
        ensures
            r@ == self.id@,
    {
        self.id.clone()
    }

    /// The seated player ids, in seating order.
    pub fn get_players_id(&self) -> (r: Vec<String>)
        requires
            self.wf(),
        ensures
            r@.len() == self.players.kseq().len(),
            forall|i: int| 0 <= i < r@.len() ==> r@[i]@ == self.players.kseq()[i],
            forall|i: int|
                0 <= i < r@.len() ==> self.players@.dom().contains(#[trigger] r@[i]@),
            forall|k: Seq<char>|
                #[trigger] self.players@.dom().contains(k) ==> exists|i: int|
                    0 <= i < r@.len() && r@[i]@ == k,
    {
        let r = self.players.keys();
        proof {
            self.players.lemma_view();
            assert forall|i: int| 0 <= i < r@.len() implies self.players@.dom().contains(
                r@[i]@,
            ) by {
                assert(r@[i]@ == self.players.kseq()[i]);
            }
            assert forall|k: Seq<char>| #[trigger] self.players@.dom().contains(k) implies exists|
                i: int,
            | 0 <= i < r@.len() && r@[i]@ == k by {
                let i = choose|i: int|
                    0 <= i < self.players.kseq().len() && self.players.kseq()[i] == k;
                assert(r@[i]@ == k);
            }
        }
        r
    }

    /// The name under which a player sits here.
    pub fn get_player(&self, player_id: &str) -> (r: Option<&String>)
        requires
            self.wf(),
        ensures
            match r {
                Some(name) => self.players@.dom().contains(player_id@) && *name
                    == self.players@[player_id@],
                None => !self.players@.dom().contains(player_id@),
            },
    {
        self.players.get(player_id)
    }

    /// A summary of the room for listings.
    pub fn get_room_info(&self) -> (r: RoomInfo)
        requires
            self.wf(),
        ensures
            r.id@ == self.id@,
            r.name@ == self.name@,
            r.player_count == self.players@.dom().len(),
            r.max_players == self.max_players,
            r.state == self.state,
    {
        RoomInfo {
            id: self.id.clone(),
            name: self.name.clone(),
            player_count: self.players.len(),
            max_players: self.max_players,
            state: self.state,
        }
    }
}

/// Re-readying a player is idempotent: the ready directory is a set, so
/// marking the same player ready twice leaves exactly what marking them
/// once leaves.
pub proof fn lemma_reready_idempotent(ready: Set<Seq<char>>, player: Seq<char>)
    ensures
        ready.insert(player).insert(player) == ready.insert(player),
{
    assert(ready.insert(player).insert(player) =~= ready.insert(player));
}

} // verus!
