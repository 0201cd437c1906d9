//! The per-game actor's core: it owns a game state and its broadcaster,
//! maps connections to players, applies turn and priority moves, and
//! hands back the deliveries each move produces.

use vstd::prelude::*;
use crate::broadcaster::{private_deliveries_sound, spec_game_ended_delivery,
    spec_phase_notice_delivery, spec_public_snapshot_delivery, Delivery, StateBroadcaster};
use crate::cards::LootCard;
use crate::errors::{AppError, AppResult};
use crate::game_state::{spec_drew_for, spec_next_phase, spec_transitioned, GameState,
    TurnPhases};
use crate::strmap::StrMap;
use crate::turn_order::TurnOrder;

verus! {

/// The turn counter at which the stand-in win condition ends the game.
pub const WIN_TURN_COUNT: u32 = 100;

/// What one turn-pass attempt by `pid` leaves behind: accepted exactly
/// when `pid` was active, in which case the turn rolled over, the
/// counter rose by one and the game keeps running until the win
/// threshold; a refused attempt changes nothing.
pub open spec fn spec_turn_pass_outcome(
    pre: GameState,
    post: GameState,
    pid: Seq<char>,
    accepted: bool,
) -> bool {
    &&& (accepted <==> pre.turn_order.active_player_id@ == pid)
    &&& (accepted ==> spec_transitioned(
        pre,
        TurnPhases::TurnEnd,
        GameState { game_running: true, ..post },
    ) && post.turn_order.turn_counter == pre.turn_order.turn_counter + 1 && post.game_running == (
    post.turn_order.turn_counter < WIN_TURN_COUNT))
    &&& (!accepted ==> post == pre)
}

/// What one priority-pass attempt by `pid` leaves behind: accepted
/// exactly when priority was waited for and held by `pid`; when the
/// last seat passes the next phase begins, otherwise priority moves on
/// and everything else stands; a refused attempt changes nothing.
pub open spec fn spec_priority_pass_outcome(
    pre: GameState,
    post: GameState,
    pid: Seq<char>,
    accepted: bool,
) -> bool {
    &&& (accepted <==> (pre.waiting_for_priority && pre.current_priority_player@ == pid))
    &&& (!accepted ==> post == pre)
    &&& (accepted ==> ({
        let passed2 = pre.players_passed_priority@.insert(pid);
        &&& post.game_running == (post.turn_order.turn_counter < WIN_TURN_COUNT)
        &&& if passed2.len() == pre.turn_order.order@.len() {
            spec_transitioned(
                pre,
                spec_next_phase(pre.current_phase),
                GameState { game_running: true, ..post },
            )
        } else {
            &&& post.players_passed_priority@ == passed2
            &&& post.current_phase == pre.current_phase
            &&& post.turn_order == pre.turn_order
            &&& post.board == pre.board
            &&& !passed2.contains(post.current_priority_player@)
        }
    }))
}

/// A move arriving at a game actor, either already resolved to a player
/// or still naming the connection it came from.
#[derive(Debug)]
pub enum GameMessage {
    TurnPass { player_id: String },
    PriorityPass { player_id: String },
    TurnPassFromConnection { connection_id: String },
    PriorityPassFromConnection { connection_id: String },
}

/// A move resolved to the player who makes it.
#[derive(Debug)]
pub enum GameEvent {
    TurnPass { player_id: String },
    PriorityPass { player_id: String },
}

/// A failure of the in-game rules, as the free-standing game loop reports it.
#[derive(Debug, Clone, Copy, PartialEq, Eq, Structural)]
pub enum GameError {
    GameEndedUnexpectedly,
    NotPlayerTurn,
}

/// An outcome a game announces to the room.
#[derive(Debug)]
pub enum GameOutboundEvent {
    TurnChanged { next_player_id: String },
    GameEnded { winner_id: String },
    GameError { error: GameError },
}

/// Holds the player-to-connection mapping a game was started with, for
/// routing moves and addressing error replies.
#[derive(Debug)]
pub struct EventHandler {
    pub players_id_to_connection_id: StrMap<String>,
}

impl EventHandler {
    pub fn new(players_id_to_connection_id: StrMap<String>) -> (r: EventHandler)
        ensures
            r.players_id_to_connection_id == players_id_to_connection_id,
    {
        EventHandler { players_id_to_connection_id }
    }
}

/// Owns one game's state and broadcaster and advances them move by move.
#[derive(Debug)]
pub struct GameCoordinator {
    pub game_state: GameState,
    pub state_broadcaster: StateBroadcaster,
}

impl GameCoordinator {
    pub open spec fn wf(&self) -> bool {
        &&& self.game_state.wf()
        &&& self.state_broadcaster.wf()
    }

    /// Sets up the game: a state over the mapping's players and the
    /// given deck, and a broadcaster over the mapping's connections.
    pub fn new(
        players_id_to_connection_id: StrMap<String>,
        turn_order: TurnOrder,
        loot_deck: Vec<LootCard>,
    ) -> (r: GameCoordinator)
        requires
            players_id_to_connection_id.wf(),
            turn_order.wf(),
            forall|k: Seq<char>| #[trigger] turn_order.order_views().contains(k)
                == players_id_to_connection_id@.dom().contains(k),
            loot_deck@.len() >= 3 * players_id_to_connection_id.kseq().len(),
        ensures
            r.wf(),
            r.game_state.turn_order == turn_order,
            r.game_state.current_phase == TurnPhases::UntapStartStep,
            r.game_state.game_running,
            !r.game_state.waiting_for_priority,
            r.game_state.board.cards() == loot_deck@.to_multiset(),
            r.state_broadcaster.players_id_to_connection_id@ == players_id_to_connection_id@,
    {
        proof {
            players_id_to_connection_id.lemma_view();
        }
        let player_ids = players_id_to_connection_id.keys();
        proof {
            assert(crate::text::views_of(player_ids@) =~= players_id_to_connection_id.kseq());
            assert forall|k: Seq<char>| #[trigger] turn_order.order_views().contains(
                k,
            ) == crate::text::views_of(player_ids@).contains(k) by {
                if players_id_to_connection_id@.dom().contains(k) {
                    assert(players_id_to_connection_id.kseq().contains(k));
                }
                if players_id_to_connection_id.kseq().contains(k) {
                    let j = choose|j: int|
                        0 <= j < players_id_to_connection_id.kseq().len()
                            && players_id_to_connection_id.kseq()[j] == k;
                    assert(players_id_to_connection_id@.dom().contains(
                        players_id_to_connection_id.kseq()[j],
                    ));
                }
            }
        }
        let game_state = GameState::new(player_ids, turn_order, loot_deck);
        let state_broadcaster = StateBroadcaster::new(players_id_to_connection_id);
        GameCoordinator { game_state, state_broadcaster }
    }

    /// Starts the game: the active player draws one card, everyone gets
    /// the full state, and the first phase begins with its notice.
    pub fn initialize_game(&mut self) -> (r: Vec<Delivery>)
        requires
            old(self).wf(),
            old(self).game_state.turn_order.turn_counter < u32::MAX,
            old(self).game_state.current_phase == TurnPhases::UntapStartStep,
        ensures
            final(self).wf(),
            final(self).game_state.board.cards() == old(self).game_state.board.cards(),
            final(self).game_state.waiting_for_priority,
            final(self).game_state.game_running == old(self).game_state.game_running,
            final(self).state_broadcaster == old(self).state_broadcaster,
            final(self).game_state.turn_order == old(self).game_state.turn_order,
            final(self).game_state.current_phase == TurnPhases::UntapStartStep,
            final(self).game_state.players_passed_priority@ == Set::<Seq<char>>::empty(),
            final(self).game_state.current_priority_player@ == final(self).game_state.turn_order.active_player_id@,
            spec_drew_for(
                old(self).game_state.board,
                old(self).game_state.turn_order.active_player_id@,
                final(self).game_state.board,
            ),
            ({
                let n = final(self).state_broadcaster.players_id_to_connection_id.kseq().len();
                &&& r@.len() == 2 + n
                &&& spec_public_snapshot_delivery(
                    r@[0],
                    final(self).state_broadcaster,
                    final(self).game_state,
                )
                &&& private_deliveries_sound(
                    r@.subrange(1, 1 + n as int),
                    final(self).state_broadcaster,
                    final(self).game_state,
                )
                &&& spec_phase_notice_delivery(
                    r@[r@.len() - 1],
                    final(self).state_broadcaster,
                    final(self).game_state,
                )
            }),
    {
        let _ = self.game_state.board.draw_loot_for_player(
            self.game_state.turn_order.active_player_id.as_str(),
        );
        proof {
            assert(self.game_state.wf());
            assert(spec_drew_for(
                old(self).game_state.board,
                old(self).game_state.turn_order.active_player_id@,
                self.game_state.board,
            ));
        }
        let mut out: Vec<Delivery> = Vec::new();
        out.push(self.state_broadcaster.broadcast_public_state(&self.game_state));
        let mut privates = self.state_broadcaster.broadcast_private_states(&self.game_state);
        let ghost head = out@[0];
        let ghost priv_v = privates@;
        out.append(&mut privates);
        proof {
            assert(out@[0] == head);
            assert(out@.subrange(1, out@.len() as int) =~= priv_v);
        }
        let ghost pre_transition = out@;
        let phase = self.game_state.current_phase;
        self.transition_to_phase(phase, &mut out);
        proof {
            let n = self.state_broadcaster.players_id_to_connection_id.kseq().len() as int;
            assert(out@[0] == pre_transition[0]);
            assert(spec_public_snapshot_delivery(
                out@[0],
                self.state_broadcaster,
                self.game_state,
            ));
            assert(out@.subrange(1, 1 + n) =~= pre_transition.subrange(1, 1 + n));
            assert(private_deliveries_sound(
                out@.subrange(1, 1 + n),
                self.state_broadcaster,
                self.game_state,
            ));
        }
        out
    }

    /// Enters a phase: a landing in the loot step draws one card for
    /// the active player, and any phase short of the turn's end is
    /// announced.
    fn transition_to_phase(&mut self, new_phase: TurnPhases, out: &mut Vec<Delivery>)
        requires
            old(self).wf(),
            old(self).game_state.turn_order.turn_counter < u32::MAX,
        ensures
            final(self).wf(),
            final(self).game_state.board.cards() == old(self).game_state.board.cards(),
            final(self).game_state.waiting_for_priority,
            final(self).game_state.game_running == old(self).game_state.game_running,
            final(self).state_broadcaster == old(self).state_broadcaster,
            new_phase != TurnPhases::TurnEnd ==> {
                &&& final(self).game_state.turn_order == old(self).game_state.turn_order
                &&& final(self).game_state.current_phase == new_phase
                &&& final(self).game_state.players_passed_priority@ == Set::<Seq<char>>::empty()
                &&& final(self).game_state.current_priority_player@ == final(self).game_state.turn_order.active_player_id@
                &&& (new_phase != TurnPhases::LootStep ==> final(self).game_state.board == old(self).game_state.board)
            },
            final(out)@.len() == old(out)@.len() + 1,
            forall|q: int| 0 <= q < old(out)@.len() ==> #[trigger] final(out)@[q] == old(out)@[q],
            spec_phase_notice_delivery(
                final(out)@[final(out)@.len() - 1],
                final(self).state_broadcaster,
                final(self).game_state,
            ),
    {
        self.game_state.with_phase_transition(new_phase);
        if matches!(self.game_state.current_phase, TurnPhases::LootStep) {
            let _ = self.game_state.board.draw_loot_for_player(
                self.game_state.turn_order.active_player_id.as_str(),
            );
        }
        if !matches!(self.game_state.current_phase, TurnPhases::TurnEnd) {
            out.push(self.state_broadcaster.broadcast_phase_start(&self.game_state));
        }
    }

    /// Applies one resolved move. A turn pass from anyone but the
    /// active player fails `NotPlayerTurn`; a priority pass from anyone
    /// but the priority holder fails `InvalidPriorityPass`; on failure
    /// nothing changes and nothing is sent. An accepted move advances
    /// the state, broadcasts it in full, and ends the game when the
    /// turn counter reaches the win threshold.
    pub fn handle_event(&mut self, event: GameEvent) -> (r: Result<Vec<Delivery>, AppError>)
        requires
            old(self).wf(),
            old(self).game_state.turn_order.turn_counter < u32::MAX,
            old(self).game_state.game_running,
        ensures
            final(self).wf(),
            final(self).game_state.board.cards() == old(self).game_state.board.cards(),
            final(self).state_broadcaster == old(self).state_broadcaster,
            r is Err ==> *final(self) == *old(self),
            event matches GameEvent::TurnPass { player_id } ==> {
                &&& (r is Ok <==> old(self).game_state.turn_order.active_player_id@ == player_id@)
                &&& (r matches Err(e) ==> e == AppError::NotPlayerTurn)
                &&& (r is Ok ==> spec_transitioned(
                    old(self).game_state,
                    TurnPhases::TurnEnd,
                    GameState { game_running: true, ..final(self).game_state },
                ) && final(self).game_state.turn_order.turn_counter == old(self).game_state.turn_order.turn_counter + 1)
            },
            event matches GameEvent::PriorityPass { player_id } ==> {
                &&& (r is Ok <==> (old(self).game_state.waiting_for_priority && old(self).game_state.current_priority_player@ == player_id@))
                &&& (r matches Err(e) ==> e == AppError::InvalidPriorityPass)
                &&& (r is Ok ==> ({
                    let passed2 = old(self).game_state.players_passed_priority@.insert(player_id@);
                    if passed2.len() == old(self).game_state.turn_order.order@.len() {
                        spec_transitioned(
                            old(self).game_state,
                            spec_next_phase(old(self).game_state.current_phase),
                            GameState { game_running: true, ..final(self).game_state },
                        )
                    } else {
                        &&& final(self).game_state.players_passed_priority@ == passed2
                        &&& final(self).game_state.current_phase == old(self).game_state.current_phase
                        &&& final(self).game_state.turn_order == old(self).game_state.turn_order
                        &&& final(self).game_state.board == old(self).game_state.board
                        &&& !passed2.contains(final(self).game_state.current_priority_player@)
                    }
                }))
            },
            r is Ok ==> final(self).game_state.game_running == (final(self).game_state.turn_order.turn_counter < WIN_TURN_COUNT),
    {
        match event {
            GameEvent::TurnPass { player_id } => {
                if !self.game_state.can_player_pass_turn(player_id.as_str()) {
                    return Err(AppError::NotPlayerTurn);
                }
                let mut out: Vec<Delivery> = Vec::new();
                self.game_state.with_phase_transition(TurnPhases::TurnEnd);
                out.push(self.state_broadcaster.broadcast_phase_start(&self.game_state));
                out.push(self.state_broadcaster.broadcast_public_state(&self.game_state));
                let mut privates = self.state_broadcaster.broadcast_private_states(
                    &self.game_state,
                );
                out.append(&mut privates);
                if self.check_win_condition() {
                    match self.get_winner() {
                        Some(winner) => {
                            self.game_state.game_running = false;
                            out.push(self.state_broadcaster.broadcast_game_ended(winner));
                        },
                        None => {
                            proof {
                                assert(false);
                            }
                        },
                    }
                }
                Ok(out)
            },
            GameEvent::PriorityPass { player_id } => {
                match self.game_state.with_priority_pass(player_id.as_str()) {
                    Err(e) => Err(e),
                    Ok(()) => {
                        let mut out: Vec<Delivery> = Vec::new();
                        out.push(self.state_broadcaster.broadcast_phase_start(&self.game_state));
                        out.push(self.state_broadcaster.broadcast_public_state(&self.game_state));
                        let mut privates = self.state_broadcaster.broadcast_private_states(
                            &self.game_state,
                        );
                        out.append(&mut privates);
                        if self.check_win_condition() {
                            match self.get_winner() {
                                Some(winner) => {
                                    self.game_state.game_running = false;
                                    out.push(self.state_broadcaster.broadcast_game_ended(winner));
                                },
                                None => {
                                    proof {
                                        assert(false);
                                    }
                                },
                            }
                        }
                        Ok(out)
                    },
                }
            },
        }
    }

    /// The stand-in win condition: the game ends once the turn counter
    /// reaches the threshold.
    pub fn check_win_condition(&self) -> (r: bool)
        ensures
            r == (self.game_state.turn_order.turn_counter >= WIN_TURN_COUNT),
    {
        self.game_state.turn_order.turn_counter >= WIN_TURN_COUNT
    }

    /// The stand-in winner: the first seat of the turn order.
    pub fn get_winner(&self) -> (r: Option<String>)
        ensures
            self.game_state.turn_order.order@.len() > 0 <==> r is Some,
            r matches Some(w) ==> w@ == self.game_state.turn_order.order_views()[0],
    {
        if self.game_state.turn_order.order.len() > 0 {
            Some(self.game_state.turn_order.order[0].clone())
        } else {
            None
        }
    }

    pub fn is_running(&self) -> (r: bool)
        ensures
            r == self.game_state.game_running,
    {
        self.game_state.game_running
    }
}

/// One game's actor state: the coordinator plus the bimap between
/// connections and players.
#[derive(Debug)]
pub struct GameActor {
    pub game_id: String,
    pub coordinator: GameCoordinator,
    pub connection_to_player_mapping: StrMap<String>,
    pub player_to_connection_mapping: StrMap<String>,
}

impl GameActor {
    pub open spec fn wf(&self) -> bool {
        &&& self.coordinator.wf()
        &&& self.connection_to_player_mapping.wf()
        &&& self.player_to_connection_mapping.wf()
    }

    /// Builds the actor for a game: the forward map is the given
    /// player-to-connection mapping, the reverse map is computed from
    /// it, and the coordinator is set up over the same players.
    pub fn new(
        game_id: String,
        players_id_to_connection_id: StrMap<String>,
        turn_order: TurnOrder,
        loot_deck: Vec<LootCard>,
    ) -> (r: GameActor)
        requires
            players_id_to_connection_id.wf(),
            turn_order.wf(),
            forall|k: Seq<char>| #[trigger] turn_order.order_views().contains(k)
                == players_id_to_connection_id@.dom().contains(k),
            loot_deck@.len() >= 3 * players_id_to_connection_id.kseq().len(),
        ensures
            r.wf(),
            r.game_id == game_id,
            r.player_to_connection_mapping@ == players_id_to_connection_id@,
            forall|c: Seq<char>| #[trigger] r.connection_to_player_mapping@.dom().contains(c)
                ==> exists|p: Seq<char>|
                    #[trigger] players_id_to_connection_id@.dom().contains(p)
                        && players_id_to_connection_id@[p]@ == c
                        && r.connection_to_player_mapping@[c]@ == p,
            r.coordinator.game_state.turn_order == turn_order,
            r.coordinator.game_state.game_running,
    {
        proof {
            players_id_to_connection_id.lemma_view();
        }
        let n = players_id_to_connection_id.len();
        let mut reverse: StrMap<String> = StrMap::new();
        let mut i: usize = 0;
        while i < n
            invariant
                i <= n,
                players_id_to_connection_id.wf(),
                n == players_id_to_connection_id.kseq().len(),
                reverse.wf(),
                forall|c: Seq<char>| #[trigger] reverse@.dom().contains(c) ==> exists|p: Seq<char>|
                    #[trigger] players_id_to_connection_id@.dom().contains(p)
                        && players_id_to_connection_id@[p]@ == c && reverse@[c]@ == p,
            decreases n - i,
        {
            proof {
                players_id_to_connection_id.lemma_view();
            }
            let player_id = players_id_to_connection_id.key_at(i).clone();
            let conn_id = players_id_to_connection_id.value_at(i).clone();
            proof {
                assert(players_id_to_connection_id@.dom().contains(
                    players_id_to_connection_id.kseq()[i as int],
                ));
            }
            reverse.insert(conn_id, player_id);
            i = i + 1;
        }
        let forward = players_id_to_connection_id.duplicate();
        let coordinator = GameCoordinator::new(players_id_to_connection_id, turn_order, loot_deck);
        GameActor {
            game_id,
            coordinator,
            connection_to_player_mapping: reverse,
            player_to_connection_mapping: forward,
        }
    }

    /// Resolves a move to the player making it. A connection-scoped
    /// move from a connection this game does not know fails
    /// `ConnectionNotInRoom`.
    pub fn resolve_message(&self, message: &GameMessage) -> (r: AppResult<GameEvent>)
        requires
            self.wf(),
        ensures
            match message {
                GameMessage::TurnPass { player_id } => r matches Ok(ev) && ev matches
                    GameEvent::TurnPass { player_id: p } && p@ == player_id@,
                GameMessage::PriorityPass { player_id } => r matches Ok(ev) && ev matches
                    GameEvent::PriorityPass { player_id: p } && p@ == player_id@,
                GameMessage::TurnPassFromConnection { connection_id } => match r {
                    Ok(ev) => self.connection_to_player_mapping@.dom().contains(connection_id@)
                        && (ev matches GameEvent::TurnPass { player_id } && player_id@
                        == self.connection_to_player_mapping@[connection_id@]@),
                    Err(e) => !self.connection_to_player_mapping@.dom().contains(connection_id@)
                        && e == AppError::ConnectionNotInRoom,
                },
                GameMessage::PriorityPassFromConnection { connection_id } => match r {
                    Ok(ev) => self.connection_to_player_mapping@.dom().contains(connection_id@)
                        && (ev matches GameEvent::PriorityPass { player_id } && player_id@
                        == self.connection_to_player_mapping@[connection_id@]@),
                    Err(e) => !self.connection_to_player_mapping@.dom().contains(connection_id@)
                        && e == AppError::ConnectionNotInRoom,
                },
            },
    {
        match message {
            GameMessage::TurnPass { player_id } => Ok(
                GameEvent::TurnPass { player_id: player_id.clone() },
            ),
            GameMessage::PriorityPass { player_id } => Ok(
                GameEvent::PriorityPass { player_id: player_id.clone() },
            ),
            GameMessage::TurnPassFromConnection { connection_id } => {
                match self.connection_to_player_mapping.get(connection_id.as_str()) {
                    Some(player_id) => Ok(GameEvent::TurnPass { player_id: player_id.clone() }),
                    None => Err(AppError::ConnectionNotInRoom),
                }
            },
            GameMessage::PriorityPassFromConnection { connection_id } => {
                match self.connection_to_player_mapping.get(connection_id.as_str()) {
                    Some(player_id) => Ok(
                        GameEvent::PriorityPass { player_id: player_id.clone() },
                    ),
                    None => Err(AppError::ConnectionNotInRoom),
                }
            },
        }
    }

    /// Handles one inbound move: resolves it and applies it to the
    /// game, handing back the deliveries to write; a refused move
    /// changes nothing.
    pub fn handle_message(&mut self, message: &GameMessage) -> (r: Result<Vec<Delivery>, AppError>)
        requires
            old(self).wf(),
            old(self).coordinator.game_state.turn_order.turn_counter < u32::MAX,
            old(self).coordinator.game_state.game_running,
        ensures
            final(self).wf(),
            final(self).coordinator.game_state.board.cards() == old(self).coordinator.game_state.board.cards(),
            final(self).game_id == old(self).game_id,
            final(self).connection_to_player_mapping == old(self).connection_to_player_mapping,
            final(self).player_to_connection_mapping == old(self).player_to_connection_mapping,
            r is Err ==> *final(self) == *old(self),
            message matches GameMessage::TurnPass { player_id } ==> spec_turn_pass_outcome(
                old(self).coordinator.game_state,
                final(self).coordinator.game_state,
                player_id@,
                r is Ok,
            ) && (r matches Err(e) ==> e == AppError::NotPlayerTurn),
            message matches GameMessage::PriorityPass { player_id } ==> spec_priority_pass_outcome(
                old(self).coordinator.game_state,
                final(self).coordinator.game_state,
                player_id@,
                r is Ok,
            ) && (r matches Err(e) ==> e == AppError::InvalidPriorityPass),
            message matches GameMessage::TurnPassFromConnection { connection_id } ==> {
                &&& (!old(self).connection_to_player_mapping@.dom().contains(connection_id@)
                    ==> r == Result::<Vec<Delivery>, AppError>::Err(AppError::ConnectionNotInRoom))
                &&& (old(self).connection_to_player_mapping@.dom().contains(connection_id@)
                    ==> spec_turn_pass_outcome(
                    old(self).coordinator.game_state,
                    final(self).coordinator.game_state,
                    old(self).connection_to_player_mapping@[connection_id@]@,
                    r is Ok,
                ) && (r matches Err(e) ==> e == AppError::NotPlayerTurn))
            },
            message matches GameMessage::PriorityPassFromConnection { connection_id } ==> {
                &&& (!old(self).connection_to_player_mapping@.dom().contains(connection_id@)
                    ==> r == Result::<Vec<Delivery>, AppError>::Err(AppError::ConnectionNotInRoom))
                &&& (old(self).connection_to_player_mapping@.dom().contains(connection_id@)
                    ==> spec_priority_pass_outcome(
                    old(self).coordinator.game_state,
                    final(self).coordinator.game_state,
                    old(self).connection_to_player_mapping@[connection_id@]@,
                    r is Ok,
                ) && (r matches Err(e) ==> e == AppError::InvalidPriorityPass))
            },
    {
        let event = match self.resolve_message(message) {
            Ok(ev) => ev,
            Err(e) => {
                return Err(e);
            },
        };
        self.coordinator.handle_event(event)
    }

    pub fn get_player_id_from_connection(&self, connection_id: &str) -> (r: Option<String>)
        requires
            self.wf(),
        ensures
            match r {
                Some(pid) => self.connection_to_player_mapping@.dom().contains(connection_id@)
                    && pid@ == self.connection_to_player_mapping@[connection_id@]@,
                None => !self.connection_to_player_mapping@.dom().contains(connection_id@),
            },
    {
        match self.connection_to_player_mapping.get(connection_id) {
            Some(pid) => Some(pid.clone()),
            None => None,
        }
    }

    pub fn get_connection_from_player(&self, player_id: &str) -> (r: Option<String>)
        requires
            self.wf(),
        ensures
            match r {
                Some(cid) => self.player_to_connection_mapping@.dom().contains(player_id@) && cid@
                    == self.player_to_connection_mapping@[player_id@]@,
                None => !self.player_to_connection_mapping@.dom().contains(player_id@),
            },
    {
        match self.player_to_connection_mapping.get(player_id) {
            Some(cid) => Some(cid.clone()),
            None => None,
        }
    }

    /// Every connection this game talks to.
    pub fn get_all_connections(&self) -> (r: Vec<String>)
        requires
            self.wf(),
        ensures
            r@.len() == self.connection_to_player_mapping.kseq().len(),
            forall|i: int|
                0 <= i < r@.len() ==> r@[i]@ == self.connection_to_player_mapping.kseq()[i],
    {
        self.connection_to_player_mapping.keys()
    }
}

} // verus!
