//! A room bundled with its turn order: a self-contained actor for a
//! synchronous server, offering the start and pass moves directly.

use vstd::prelude::*;
use crate::errors::{AppError, AppResult};
use crate::room::{Room, RoomState};
use crate::turn_order::TurnOrder;

verus! {

#[derive(Debug)]
pub struct RoomActor {
    pub room: Room,
    pub turn_order: TurnOrder,
}

impl RoomActor {
    pub open spec fn wf(&self) -> bool {
        &&& self.room.wf()
        &&& self.turn_order.wf()
    }

    /// A fresh room with a placeholder single-seat order until the game
    /// starts.
    pub fn new(room_name: &str) -> (r: RoomActor)
        ensures
            r.wf(),
            r.room.name@ == room_name@,
            r.room.state == RoomState::Lobby,
            r.room.players@ == Map::<Seq<char>, String>::empty(),
    {
        let mut seats: Vec<String> = Vec::new();
        seats.push("Undefined".to_owned());
        proof {
            assert(crate::text::views_of(seats@).no_duplicates());
        }
        RoomActor { room: Room::new(room_name.to_owned()), turn_order: TurnOrder::new(seats) }
    }

    /// Starts the game when the room may start: the room leaves the
    /// lobby and a fresh random order over its players takes over.
    /// Refused with `PlayersNotReady` otherwise.
    pub fn start_game(&mut self) -> (r: AppResult<TurnOrder>)
        requires
            old(self).wf(),
        ensures
            final(self).wf(),
            r is Ok <==> (old(self).room.players_ready@.len() == old(
                self,
            ).room.players@.dom().len() && old(self).room.state == RoomState::Lobby && old(
                self,
            ).room.players@.dom().len() >= old(self).room.min_players),
            r is Err ==> *final(self) == *old(self),
            r matches Err(e) ==> e matches AppError::PlayersNotReady { .. },
            r matches Ok(to) ==> {
                &&& final(self).room.state == RoomState::InGame
                &&& to.wf()
                &&& to.order@.len() == old(self).room.players@.dom().len()
                &&& forall|k: Seq<char>| #[trigger] to.order_views().contains(k) == old(
                    self,
                ).room.players@.dom().contains(k)
                &&& final(self).turn_order.order@ == to.order@
                &&& final(self).turn_order.active_player_id == to.active_player_id
                &&& final(self).turn_order.turn_counter == to.turn_counter
            },
    {
        if self.room.can_start_game() {
            self.room.set_state_in_game();
            proof {
                self.room.players.lemma_view();
            }
            let player_ids = self.room.get_players_id();
            proof {
                assert(crate::text::views_of(player_ids@) =~= self.room.players.kseq());
                assert forall|k: Seq<char>| #[trigger] crate::text::views_of(
                    player_ids@,
                ).contains(k) == self.room.players@.dom().contains(k) by {
                    if self.room.players@.dom().contains(k) {
                        assert(self.room.players.kseq().contains(k));
                    }
                    if self.room.players.kseq().contains(k) {
                        let j = choose|j: int|
                            0 <= j < self.room.players.kseq().len() && self.room.players.kseq()[j]
                                == k;
                        assert(self.room.players@.dom().contains(self.room.players.kseq()[j]));
                    }
                }
            }
            let turn_order = TurnOrder::new(player_ids);
            self.turn_order = turn_order.duplicate();
            Ok(turn_order)
        } else {
            Err(
                AppError::PlayersNotReady {
                    ready_count: self.room.player_ready_count(),
                    total_count: self.room.player_count(),
                },
            )
        }
    }

    /// The active player ends their turn and the next seat takes over;
    /// anyone else is refused with `NotPlayerTurn`.
    pub fn pass_turn(&mut self, player_id: &str) -> (r: AppResult<String>)
        requires
            old(self).wf(),
            old(self).turn_order.turn_counter < u32::MAX,
        ensures
            final(self).wf(),
            r is Ok <==> old(self).turn_order.active_player_id@ == player_id@,
            r is Err ==> *final(self) == *old(self),
            r matches Err(e) ==> e == AppError::NotPlayerTurn,
            r matches Ok(next) ==> {
                &&& next@ == final(self).turn_order.active_player_id@
                &&& final(self).turn_order.turn_counter == old(self).turn_order.turn_counter + 1
                &&& final(self).turn_order.order == old(self).turn_order.order
                &&& final(self).room == old(self).room
            },
    {
        if self.turn_order.is_player_turn(player_id) {
            let next_player_id = self.turn_order.advance_turn();
            Ok(next_player_id)
        } else {
            Err(AppError::NotPlayerTurn)
        }
    }
}

} // verus!
