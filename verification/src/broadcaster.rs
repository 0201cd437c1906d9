//! Outbound deliveries and the state broadcaster: it derives the public
//! snapshot everyone may see and the private snapshot each player alone
//! may see from a game state.

use vstd::prelude::*;
use crate::board::clone_cards;
use crate::errors::AppError;
use crate::game_state::GameState;
use crate::messages::{PublicPlayerInfo, ServerResponse};
use crate::strmap::StrMap;

verus! {

/// One outbound write: who receives a response.
#[derive(Debug)]
pub enum Delivery {
    ToPlayer { connection_id: String, response: ServerResponse },
    ToPlayers { connections_id: Vec<String>, response: ServerResponse },
    ToAll { response: ServerResponse },
}

/// Every private-state delivery in `r` is addressed to the connection
/// of the player whose hand it carries: `sb`'s player-to-connection
/// mapping owns the address, and the hand is exactly that player's.
pub open spec fn private_deliveries_sound(
    r: Seq<Delivery>,
    sb: StateBroadcaster,
    gs: GameState,
) -> bool {
    forall|i: int|
        0 <= i < r.len() ==> ((#[trigger] r[i]) matches Delivery::ToPlayer {
            connection_id,
            response,
        } && (response matches ServerResponse::PrivateBoardState { hand } ==> exists|p: Seq<char>|
            {
                &&& #[trigger] sb.players_id_to_connection_id@.dom().contains(p)
                &&& sb.players_id_to_connection_id@[p]@ == connection_id@
                &&& gs.board.players@.dom().contains(p)
                &&& hand@ == gs.board.players@[p].hand@
            }))
}

/// The public snapshot of `gs`, addressed to the room: deck size, the
/// open discard pile, phase, active player, and per player the hand
/// size — never hand contents.
pub open spec fn spec_public_snapshot_delivery(
    d: Delivery,
    sb: StateBroadcaster,
    gs: GameState,
) -> bool {
    d matches Delivery::ToPlayers { connections_id, response } && connections_id@
        == sb.room_connections_id@ && (response matches ServerResponse::PublicBoardState {
        loot_deck_size,
        loot_discard,
        current_phase,
        active_player,
        players,
    } && {
        &&& loot_deck_size == gs.board.loot_deck@.len()
        &&& loot_discard@ == gs.board.loot_discard@
        &&& current_phase == gs.current_phase
        &&& active_player@ == gs.turn_order.active_player_id@
        &&& players.wf()
        &&& players@.dom() == gs.board.players@.dom()
        &&& forall|k: Seq<char>|
            #[trigger] players@.dom().contains(k) ==> players@[k].hand_size
                == gs.board.players@[k].hand@.len() && players@[k].max_health
                == gs.board.players@[k].max_health && players@[k].current_health
                == gs.board.players@[k].current_health
    })
}

/// The phase-start notice of `gs`, addressed to the room.
pub open spec fn spec_phase_notice_delivery(
    d: Delivery,
    sb: StateBroadcaster,
    gs: GameState,
) -> bool {
    d matches Delivery::ToPlayers { connections_id, response } && connections_id@
        == sb.room_connections_id@ && (response matches ServerResponse::TurnPhaseChange {
        player_id,
        phase,
    } && player_id@ == gs.current_priority_player@ && phase == gs.current_phase)
}

/// The game-end notice naming the winner, addressed to the room.
pub open spec fn spec_game_ended_delivery(
    d: Delivery,
    sb: StateBroadcaster,
    winner: Seq<char>,
) -> bool {
    d matches Delivery::ToPlayers { connections_id, response } && connections_id@
        == sb.room_connections_id@ && (response matches ServerResponse::GameEnded { winner_id }
        && winner_id@ == winner)
}

#[derive(Debug)]
pub struct StateBroadcaster {
    pub players_id_to_connection_id: StrMap<String>,
    pub room_connections_id: Vec<String>,
}

impl StateBroadcaster {
    /// The connection list mirrors the mapping's values.
    pub open spec fn wf(&self) -> bool {
        &&& self.players_id_to_connection_id.wf()
        &&& self.room_connections_id@.len() == self.players_id_to_connection_id.vseq().len()
        &&& forall|i: int|
            0 <= i < self.room_connections_id@.len() ==> (#[trigger] self.room_connections_id@[i])@
                == self.players_id_to_connection_id.vseq()[i]@
    }

    pub fn new(players_id_to_connection_id: StrMap<String>) -> (r: StateBroadcaster)
        requires
            players_id_to_connection_id.wf(),
        ensures
            r.wf(),
            r.players_id_to_connection_id@ == players_id_to_connection_id@,
            r.players_id_to_connection_id.kseq() == players_id_to_connection_id.kseq(),
            r.players_id_to_connection_id.vseq() == players_id_to_connection_id.vseq(),
    {
        proof {
            players_id_to_connection_id.lemma_view();
        }
        let n = players_id_to_connection_id.len();
        let mut room_connections_id: Vec<String> = Vec::new();
        let mut i: usize = 0;
        while i < n
            invariant
                i <= n,
                players_id_to_connection_id.wf(),
                n == players_id_to_connection_id.vseq().len(),
                room_connections_id@.len() == i,
                forall|j: int|
                    0 <= j < i ==> (#[trigger] room_connections_id@[j])@
                        == players_id_to_connection_id.vseq()[j]@,
            decreases n - i,
        {
            proof {
                players_id_to_connection_id.lemma_view();
            }
            room_connections_id.push(players_id_to_connection_id.value_at(i).clone());
            i = i + 1;
        }
        StateBroadcaster { players_id_to_connection_id, room_connections_id }
    }

    /// The public snapshot: deck size, the open discard pile, phase,
    /// active player, and per player only the size of the hand — never
    /// its contents.
    pub fn broadcast_public_state(&self, state: &GameState) -> (r: Delivery)
        requires
            self.wf(),
            state.board.wf(),
        ensures
            spec_public_snapshot_delivery(r, *self, *state),
    {
        proof {
            state.board.players.lemma_view();
        }
        let n = state.board.players.len();
        let mut players: StrMap<PublicPlayerInfo> = StrMap::new();
        let mut i: usize = 0;
        while i < n
            invariant
                i <= n,
                state.board.players.wf(),
                n == state.board.players.kseq().len(),
                players.wf(),
                players.kseq() == state.board.players.kseq().take(i as int),
                forall|j: int|
                    0 <= j < i ==> (#[trigger] players.vseq()[j]).hand_size == state.board.players.vseq()[j].hand@.len()
                        && players.vseq()[j].max_health == state.board.players.vseq()[j].max_health
                        && players.vseq()[j].current_health
                        == state.board.players.vseq()[j].current_health,
            decreases n - i,
        {
            proof {
                state.board.players.lemma_view();
                players.lemma_view();
                if players@.dom().contains(state.board.players.kseq()[i as int]) {
                    let w = choose|w: int|
                        0 <= w < players.kseq().len() && players.kseq()[w]
                            == state.board.players.kseq()[i as int];
                    assert(state.board.players.kseq()[w] == state.board.players.kseq()[i as int]);
                    assert(false);
                }
            }
            let p = state.board.players.value_at(i);
            let info = PublicPlayerInfo {
                hand_size: p.hand.len(),
                max_health: p.max_health,
                current_health: p.current_health,
                loot_play_turn: p.loot_play_turn,
                loot_play_char: p.loot_play_char,
            };
            players.insert(state.board.players.key_at(i).clone(), info);
            proof {
                assert(players.kseq() =~= state.board.players.kseq().take(i as int + 1));
            }
            i = i + 1;
        }
        proof {
            assert(players.kseq() =~= state.board.players.kseq());
            players.lemma_view();
            state.board.players.lemma_view();
            assert forall|k: Seq<char>| #[trigger] players@.dom().contains(k) implies state.board.players@.dom().contains(
                k,
            ) by {
                let j = choose|j: int| 0 <= j < players.kseq().len() && players.kseq()[j] == k;
                assert(state.board.players@.dom().contains(state.board.players.kseq()[j]));
            }
            assert forall|k: Seq<char>| #[trigger] state.board.players@.dom().contains(
                k,
            ) implies players@.dom().contains(k) by {
                let j = choose|j: int|
                    0 <= j < state.board.players.kseq().len() && state.board.players.kseq()[j] == k;
                assert(players@.dom().contains(players.kseq()[j]));
            }
            assert(players@.dom() =~= state.board.players@.dom());
            assert forall|k: Seq<char>| #[trigger] players@.dom().contains(k) implies players@[k].hand_size
                == state.board.players@[k].hand@.len() && players@[k].max_health
                == state.board.players@[k].max_health && players@[k].current_health
                == state.board.players@[k].current_health by {
                let j = choose|j: int| 0 <= j < players.kseq().len() && players.kseq()[j] == k;
                assert(players@[k] == players.vseq()[j]);
                assert(state.board.players@[k] == state.board.players.vseq()[j]);
            }
        }
        let mut conns: Vec<String> = Vec::new();
        let m = self.room_connections_id.len();
        let mut j: usize = 0;
        while j < m
            invariant
                j <= m,
                m == self.room_connections_id@.len(),
                conns@.len() == j,
                forall|q: int| 0 <= q < j ==> #[trigger] conns@[q] == self.room_connections_id@[q],
            decreases m - j,
        {
            conns.push(self.room_connections_id[j].clone());
            j = j + 1;
        }
        proof {
            assert(conns@ =~= self.room_connections_id@);
        }
        Delivery::ToPlayers {
            connections_id: conns,
            response: ServerResponse::PublicBoardState {
                loot_deck_size: state.board.loot_deck.len(),
                loot_discard: clone_cards(&state.board.loot_discard),
                current_phase: state.current_phase,
                active_player: state.turn_order.active_player_id.clone(),
                players,
            },
        }
    }

    /// The private snapshots: each player's connection receives that
    /// player's full hand and nobody else's.
    pub fn broadcast_private_states(&self, state: &GameState) -> (r: Vec<Delivery>)
        requires
            self.wf(),
            state.board.wf(),
        ensures
            private_deliveries_sound(r@, *self, *state),
            r@.len() == self.players_id_to_connection_id.kseq().len(),
    {
        proof {
            self.players_id_to_connection_id.lemma_view();
        }
        let n = self.players_id_to_connection_id.len();
        let mut out: Vec<Delivery> = Vec::new();
        let mut i: usize = 0;
        while i < n
            invariant
                i <= n,
                self.wf(),
                state.board.wf(),
                n == self.players_id_to_connection_id.kseq().len(),
                out@.len() == i,
                private_deliveries_sound(out@, *self, *state),
            decreases n - i,
        {
            proof {
                self.players_id_to_connection_id.lemma_view();
                state.board.players.lemma_view();
            }
            let ghost out_before = out@;
            let player_id = self.players_id_to_connection_id.key_at(i).clone();
            let conn_id = self.players_id_to_connection_id.value_at(i).clone();
            match state.board.players.get(player_id.as_str()) {
                Some(player) => {
                    let hand = clone_cards(&player.hand);
                    out.push(
                        Delivery::ToPlayer {
                            connection_id: conn_id,
                            response: ServerResponse::PrivateBoardState { hand },
                        },
                    );
                    proof {
                        assert(self.players_id_to_connection_id@.dom().contains(player_id@));
                        assert(self.players_id_to_connection_id@[player_id@]@ == conn_id@);
                        assert forall|q: int| 0 <= q < out@.len() implies ((#[trigger] out@[q])
                            matches Delivery::ToPlayer { connection_id, response } && (response
                            matches ServerResponse::PrivateBoardState { hand } ==> exists|
                            p: Seq<char>,
                        |
                            {
                                &&& #[trigger] self.players_id_to_connection_id@.dom().contains(p)
                                &&& self.players_id_to_connection_id@[p]@ == connection_id@
                                &&& state.board.players@.dom().contains(p)
                                &&& hand@ == state.board.players@[p].hand@
                            })) by {
                            if q < out@.len() - 1 {
                                assert(out@[q] == out_before[q]);
                            }
                        }
                    }
                },
                None => {
                    out.push(
                        Delivery::ToPlayer {
                            connection_id: conn_id,
                            response: ServerResponse::from_app_error(&AppError::PlayerNotFound),
                        },
                    );
                    proof {
                        assert forall|q: int| 0 <= q < out@.len() implies ((#[trigger] out@[q])
                            matches Delivery::ToPlayer { connection_id, response } && (response
                            matches ServerResponse::PrivateBoardState { hand } ==> exists|
                            p: Seq<char>,
                        |
                            {
                                &&& #[trigger] self.players_id_to_connection_id@.dom().contains(p)
                                &&& self.players_id_to_connection_id@[p]@ == connection_id@
                                &&& state.board.players@.dom().contains(p)
                                &&& hand@ == state.board.players@[p].hand@
                            })) by {
                            if q < out@.len() - 1 {
                                assert(out@[q] == out_before[q]);
                            }
                        }
                    }
                },
            }
            i = i + 1;
        }
        out
    }

    /// The phase-start notice: who holds priority in which phase.
    pub fn broadcast_phase_start(&self, state: &GameState) -> (r: Delivery)
        requires
            self.wf(),
        ensures
            spec_phase_notice_delivery(r, *self, *state),
    {
        let mut conns: Vec<String> = Vec::new();
        let m = self.room_connections_id.len();
        let mut j: usize = 0;
        while j < m
            invariant
                j <= m,
                m == self.room_connections_id@.len(),
                conns@.len() == j,
                forall|q: int| 0 <= q < j ==> #[trigger] conns@[q] == self.room_connections_id@[q],
            decreases m - j,
        {
            conns.push(self.room_connections_id[j].clone());
            j = j + 1;
        }
        proof {
            assert(conns@ =~= self.room_connections_id@);
        }
        Delivery::ToPlayers {
            connections_id: conns,
            response: ServerResponse::TurnPhaseChange {
                player_id: state.current_priority_player.clone(),
                phase: state.current_phase,
            },
        }
    }

    /// The game-end notice with the winner.
    pub fn broadcast_game_ended(&self, winner_id: String) -> (r: Delivery)
        requires
            self.wf(),
        ensures
            spec_game_ended_delivery(r, *self, winner_id@),
    {
        let mut conns: Vec<String> = Vec::new();
        let m = self.room_connections_id.len();
        let mut j: usize = 0;
        while j < m
            invariant
                j <= m,
                m == self.room_connections_id@.len(),
                conns@.len() == j,
                forall|q: int| 0 <= q < j ==> #[trigger] conns@[q] == self.room_connections_id@[q],
            decreases m - j,
        {
            conns.push(self.room_connections_id[j].clone());
            j = j + 1;
        }
        proof {
            assert(conns@ =~= self.room_connections_id@);
        }
        Delivery::ToPlayers {
            connections_id: conns,
            response: ServerResponse::GameEnded { winner_id },
        }
    }
}

/// Private-state confidentiality: among sound private deliveries, any
/// snapshot addressed to one player's connection carries that player's
/// hand — never another player's, as long as the two players' connections
/// differ.
pub proof fn lemma_private_state_confidentiality(
    r: Seq<Delivery>,
    sb: StateBroadcaster,
    gs: GameState,
    p: Seq<char>,
    q: Seq<char>,
    i: int,
)
    requires
        private_deliveries_sound(r, sb, gs),
        sb.players_id_to_connection_id.wf(),
        sb.players_id_to_connection_id@.dom().contains(p),
        sb.players_id_to_connection_id@.dom().contains(q),
        p != q,
        sb.players_id_to_connection_id@[p]@ != sb.players_id_to_connection_id@[q]@,
        forall|a: Seq<char>, b: Seq<char>|
            #[trigger] sb.players_id_to_connection_id@.dom().contains(a)
                && #[trigger] sb.players_id_to_connection_id@.dom().contains(b) && a != b
                ==> sb.players_id_to_connection_id@[a]@ != sb.players_id_to_connection_id@[b]@,
        0 <= i < r.len(),
        r[i] matches Delivery::ToPlayer { connection_id, response } && connection_id@
            == sb.players_id_to_connection_id@[p]@ && response is PrivateBoardState,
    ensures
        r[i] matches Delivery::ToPlayer { response, .. } && (response matches
            ServerResponse::PrivateBoardState { hand } ==> gs.board.players@.dom().contains(p)
            && hand@ == gs.board.players@[p].hand@),
{
    let d = r[i];
    match d {
        Delivery::ToPlayer { connection_id, response } => {
            match response {
                ServerResponse::PrivateBoardState { hand } => {
                    let owner = choose|o: Seq<char>|
                        {
                            &&& #[trigger] sb.players_id_to_connection_id@.dom().contains(o)
                            &&& sb.players_id_to_connection_id@[o]@ == connection_id@
                            &&& gs.board.players@.dom().contains(o)
                            &&& hand@ == gs.board.players@[o].hand@
                        };
                    if owner != p {
                        assert(sb.players_id_to_connection_id@[owner]@
                            != sb.players_id_to_connection_id@[p]@);
                    }
                },
                _ => {},
            }
        },
        _ => {},
    }
}

} // verus!
