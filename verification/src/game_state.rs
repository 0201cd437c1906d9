//! The per-game state machine: phase sequence, priority passing and the
//! board, advanced in place by the two transitions the game knows.

use vstd::prelude::*;
use crate::board::Board;
use crate::cards::LootCard;
use crate::errors::{AppError, AppResult};
use crate::strmap::StrSet;
use crate::text::{str_eq, views_of};
use crate::turn_order::TurnOrder;

verus! {

#[derive(Debug, Clone, Copy, PartialEq, Eq, Structural)]
pub enum TurnPhases {
    UntapStartStep,
    LootStep,
    ActionStep,
    EndStep,
    TurnEnd,
}

/// The phase that follows each phase within a turn.
pub open spec fn spec_next_phase(p: TurnPhases) -> TurnPhases {
    match p {
        TurnPhases::UntapStartStep => TurnPhases::LootStep,
        TurnPhases::LootStep => TurnPhases::ActionStep,
        TurnPhases::ActionStep => TurnPhases::EndStep,
        TurnPhases::EndStep => TurnPhases::TurnEnd,
        TurnPhases::TurnEnd => TurnPhases::UntapStartStep,
    }
}

/// Index `off` seats onward from `ci` around a table of `n` seats.
pub open spec fn cyc(ci: int, off: int, n: int) -> int {
    if ci + off < n {
        ci + off
    } else {
        ci + off - n
    }
}

/// How a board may change when one card is drawn for `pid`: no card
/// appears or disappears, and either the draw found a card — the hand
/// grows by one and a card leaves deck or discard — or deck and discard
/// were both empty and nothing changed.
pub open spec fn spec_drew_for(pre: Board, pid: Seq<char>, post: Board) -> bool {
    &&& post.cards() == pre.cards()
    &&& post.players@.dom() == pre.players@.dom()
    &&& if !pre.players@.dom().contains(pid) || (pre.loot_deck@.len() == 0
        && pre.loot_discard@.len() == 0) {
        post == pre
    } else {
        &&& post.players@[pid].hand@.len() == pre.players@[pid].hand@.len() + 1
        &&& forall|k: Seq<char>|
            #[trigger] pre.players@.dom().contains(k) && k != pid ==> post.players@[k]
                == pre.players@[k]
        &&& post.loot_deck@.len() + post.loot_discard@.len() + 1 == pre.loot_deck@.len()
            + pre.loot_discard@.len()
    }
}

/// The active cursor moved one seat onward.
pub open spec fn spec_rotated(pre: TurnOrder, post: TurnOrder) -> bool {
    exists|i: int|
        0 <= i < pre.order_views().len() && #[trigger] pre.order_views()[i]
            == pre.active_player_id@ && post.active_player_id@ == pre.order_views()[(i + 1) % (
        pre.order_views().len() as int)]
}

/// What a phase transition leaves behind. Entering `TurnEnd` rolls the
/// turn over: the next player becomes active and immediately draws one
/// card; any other phase is simply entered. Either way priority waiting
/// restarts with an empty pass-set, held by the active player.
pub open spec fn spec_transitioned(pre: GameState, new_phase: TurnPhases, post: GameState) -> bool {
    &&& post.waiting_for_priority
    &&& post.players_passed_priority@ == Set::<Seq<char>>::empty()
    &&& post.current_priority_player@ == post.turn_order.active_player_id@
    &&& post.turn_order.order == pre.turn_order.order
    &&& post.game_running == pre.game_running
    &&& post.board.cards() == pre.board.cards()
    &&& if new_phase == TurnPhases::TurnEnd {
        &&& post.current_phase == TurnPhases::UntapStartStep
        &&& post.turn_order.turn_counter == pre.turn_order.turn_counter + 1
        &&& spec_rotated(pre.turn_order, post.turn_order)
        &&& spec_drew_for(pre.board, post.turn_order.active_player_id@, post.board)
    } else {
        &&& post.current_phase == new_phase
        &&& post.turn_order == pre.turn_order
        &&& post.board == pre.board
    }
}

#[derive(Debug)]
pub struct GameState {
    pub turn_order: TurnOrder,
    pub current_phase: TurnPhases,
    pub current_priority_player: String,
    pub players_passed_priority: StrSet,
    pub board: Board,
    pub game_running: bool,
    pub waiting_for_priority: bool,
}

impl GameState {
    /// The structural part of well-formedness: the turn order and board
    /// are sound, the seated players and the board's players agree, and
    /// everyone who passed priority is seated.
    pub open spec fn base_wf(&self) -> bool {
        &&& self.turn_order.wf()
        &&& self.board.wf()
        &&& self.players_passed_priority.wf()
        &&& forall|k: Seq<char>| #[trigger] self.players_passed_priority@.contains(k)
            ==> self.turn_order.order_views().contains(k)
        &&& forall|k: Seq<char>| #[trigger] self.board.players@.dom().contains(k)
            == self.turn_order.order_views().contains(k)
    }

    /// Well-formedness: structurally sound, and while priority is waited
    /// for it is held by a seated player who has not yet passed.
    pub open spec fn wf(&self) -> bool {
        &&& self.base_wf()
        &&& self.waiting_for_priority ==> self.turn_order.order_views().contains(
            self.current_priority_player@,
        ) && !self.players_passed_priority@.contains(self.current_priority_player@)
    }

    /// Sets the table: a fresh board dealt from `loot_deck`, the given
    /// turn order, the first phase, and nobody waiting for priority yet.
    pub fn new(player_ids: Vec<String>, turn_order: TurnOrder, loot_deck: Vec<LootCard>) -> (r:
        GameState)
        requires
            turn_order.wf(),
            forall|k: Seq<char>| #[trigger] turn_order.order_views().contains(k) == views_of(
                player_ids@,
            ).contains(k),
            views_of(player_ids@).no_duplicates(),
            loot_deck@.len() >= 3 * player_ids@.len(),
        ensures
            r.wf(),
            r.turn_order == turn_order,
            r.current_phase == TurnPhases::UntapStartStep,
            r.current_priority_player@ == turn_order.active_player_id@,
            r.players_passed_priority@ == Set::<Seq<char>>::empty(),
            r.game_running,
            !r.waiting_for_priority,
            r.board.cards() == loot_deck@.to_multiset(),
            forall|k: Seq<char>| #[trigger] r.board.players@.dom().contains(k)
                == turn_order.order_views().contains(k),
            forall|k: Seq<char>| #[trigger] r.board.players@.dom().contains(k)
                ==> r.board.players@[k].hand@.len() == 3,
    {
        let active = turn_order.active_player_id.clone();
        let board = Board::new(player_ids, loot_deck);
        GameState {
            current_priority_player: active,
            current_phase: TurnPhases::UntapStartStep,
            turn_order,
            board,
            players_passed_priority: StrSet::new(),
            game_running: true,
            waiting_for_priority: false,
        }
    }

    /// Whether this player may end the turn: only the active player may.
    pub fn can_player_pass_turn(&self, player_id: &str) -> (r: bool)
        ensures
            r == (self.turn_order.active_player_id@ == player_id@),
    {
        self.turn_order.is_player_turn(player_id)
    }

    /// Whether this player may pass priority: priority must be waited
    /// for and held by exactly this player.
    pub fn can_player_pass_priority(&self, player_id: &str) -> (r: bool)
        ensures
            r == (self.waiting_for_priority && self.current_priority_player@ == player_id@),
    {
        self.waiting_for_priority && str_eq(self.current_priority_player.as_str(), player_id)
    }

    /// Whether every seated player has passed priority.
    pub fn all_players_passed_priority(&self) -> (r: bool)
        requires
            self.players_passed_priority.wf(),
        ensures
            r == (self.players_passed_priority@.len() == self.turn_order.order@.len()),
    {
        self.players_passed_priority.len() == self.turn_order.order.len()
    }

    pub fn get_next_phase(&self) -> (r: TurnPhases)
        ensures
            r == spec_next_phase(self.current_phase),
    {
        match self.current_phase {
            TurnPhases::UntapStartStep => TurnPhases::LootStep,
            TurnPhases::LootStep => TurnPhases::ActionStep,
            TurnPhases::ActionStep => TurnPhases::EndStep,
            TurnPhases::EndStep => TurnPhases::TurnEnd,
            TurnPhases::TurnEnd => TurnPhases::UntapStartStep,
        }
    }

    /// The next seat onward from the priority holder that has not yet
    /// passed priority, wrapping around the table; `None` when every
    /// seat has passed.
    pub fn get_next_priority_player(&self) -> (r: Option<String>)
        requires
            self.turn_order.wf(),
            self.players_passed_priority.wf(),
            self.turn_order.order_views().contains(self.current_priority_player@),
        ensures
            ({
                let ovs = self.turn_order.order_views();
                let n = ovs.len() as int;
                let ci = ovs.index_of(self.current_priority_player@);
                match r {
                    Some(p) => exists|off: int|
                        1 <= off <= n && #[trigger] ovs[cyc(ci, off, n)] == p@
                            && !self.players_passed_priority@.contains(p@) && forall|o2: int|
                            1 <= o2 < off ==> self.players_passed_priority@.contains(
                                ovs[cyc(ci, o2, n)],
                            ),
                    None => forall|o2: int|
                        1 <= o2 <= n ==> self.players_passed_priority@.contains(
                            #[trigger] ovs[cyc(ci, o2, n)],
                        ),
                }
            }),
    {
        let ghost ovs = self.turn_order.order_views();
        let n = self.turn_order.order.len();
        let mut i: usize = 0;
        let mut ci: usize = 0;
        let mut seen: bool = false;
        while i < n
            invariant
                i <= n,
                n == ovs.len(),
                ovs == self.turn_order.order_views(),
                seen ==> ci < n && ovs[ci as int] == self.current_priority_player@,
                !seen ==> forall|j: int| 0 <= j < i ==> ovs[j] != self.current_priority_player@,
            decreases n - i,
        {
            if !seen && str_eq(
                self.turn_order.order[i].as_str(),
                self.current_priority_player.as_str(),
            ) {
                ci = i;
                seen = true;
            }
            i = i + 1;
        }
        proof {
            if !seen {
                let w = choose|w: int| 0 <= w < ovs.len() && ovs[w] == self.current_priority_player@;
                assert(false);
            }
            assert(ovs.index_of(self.current_priority_player@) == ci as int) by {
                let x = ovs.index_of(self.current_priority_player@);
                assert(ovs[ci as int] == self.current_priority_player@);
                assert(0 <= x < ovs.len() && ovs[x] == self.current_priority_player@);
            }
        }
        let mut count: usize = 0;
        let mut idx: usize = if ci + 1 < n {
            ci + 1
        } else {
            0
        };
        while count < n
            invariant
                count <= n,
                n == ovs.len(),
                n > 0,
                ci < n,
                ci as int == ovs.index_of(self.current_priority_player@),
                ovs == self.turn_order.order_views(),
                self.players_passed_priority.wf(),
                count < n ==> idx as int == cyc(ci as int, count as int + 1, n as int),
                forall|o2: int|
                    1 <= o2 < count + 1 ==> self.players_passed_priority@.contains(
                        #[trigger] ovs[cyc(ci as int, o2, n as int)],
                    ),
            decreases n - count,
        {
            if !self.players_passed_priority.contains(self.turn_order.order[idx].as_str()) {
                let found = self.turn_order.order[idx].clone();
                proof {
                    let offi = count as int + 1;
                    assert(ovs[cyc(ci as int, offi, n as int)] == found@);
                    assert(!self.players_passed_priority@.contains(found@));
                }
                return Some(found);
            }
            count = count + 1;
            idx = if idx + 1 < n {
                idx + 1
            } else {
                0
            };
        }
        None
    }

    /// Enters `new_phase`. Entering `TurnEnd` rolls the turn over to the
    /// next player, who draws one card; every transition restarts the
    /// priority round with an empty pass-set held by the active player.
    pub fn with_phase_transition(&mut self, new_phase: TurnPhases)
        requires
            old(self).base_wf(),
            old(self).turn_order.turn_counter < u32::MAX,
        ensures
            final(self).wf(),
            spec_transitioned(*old(self), new_phase, *final(self)),
    {
        if new_phase == TurnPhases::TurnEnd {
            let new_active = self.turn_order.advance_turn();
            self.current_phase = TurnPhases::UntapStartStep;
            self.current_priority_player = new_active;
            self.waiting_for_priority = true;
            self.players_passed_priority = StrSet::new();
            let _ = self.board.draw_loot_for_player(self.current_priority_player.as_str());
        } else {
            self.waiting_for_priority = true;
            self.players_passed_priority = StrSet::new();
            self.current_priority_player = self.turn_order.active_player_id.clone();
            self.current_phase = new_phase;
        }
    }

    /// Records a priority pass by `player_id`. Only the player who holds
    /// priority while it is waited for may pass; anyone else is refused
    /// with `InvalidPriorityPass` and nothing changes. When the last
    /// seated player passes, the next phase begins; otherwise priority
    /// moves to the next seat onward that has not yet passed.
    pub fn with_priority_pass(&mut self, player_id: &str) -> (r: AppResult<()>)
        requires
            old(self).wf(),
            old(self).turn_order.turn_counter < u32::MAX,
        ensures
            final(self).wf(),
            r is Err <==> !(old(self).waiting_for_priority && old(self).current_priority_player@
                == player_id@),
            r matches Err(e) ==> e == AppError::InvalidPriorityPass && *final(self) == *old(self),
            r is Ok ==> ({
                let passed2 = old(self).players_passed_priority@.insert(player_id@);
                if passed2.len() == old(self).turn_order.order@.len() {
                    spec_transitioned(
                        *old(self),
                        spec_next_phase(old(self).current_phase),
                        *final(self),
                    )
                } else {
                    &&& final(self).players_passed_priority@ == passed2
                    &&& final(self).current_phase == old(self).current_phase
                    &&& final(self).turn_order == old(self).turn_order
                    &&& final(self).board == old(self).board
                    &&& final(self).game_running == old(self).game_running
                    &&& final(self).waiting_for_priority
                    &&& !passed2.contains(final(self).current_priority_player@)
                    &&& old(self).turn_order.order_views().contains(
                        final(self).current_priority_player@,
                    )
                    &&& ({
                        let ovs = old(self).turn_order.order_views();
                        let n = ovs.len() as int;
                        let ci = ovs.index_of(old(self).current_priority_player@);
                        exists|off: int|
                            1 <= off <= n && #[trigger] ovs[cyc(ci, off, n)] == final(self).current_priority_player@ && forall|o2: int|
                                1 <= o2 < off ==> passed2.contains(ovs[cyc(ci, o2, n)])
                    })
                }
            }),
    {
        if !self.can_player_pass_priority(player_id) {
            return Err(AppError::InvalidPriorityPass);
        }
        proof {
            self.players_passed_priority.lemma_view();
            self.turn_order.order@.to_multiset_ensures();
        }
        self.players_passed_priority.insert(player_id.to_owned());
        let ghost passed2 = self.players_passed_priority@;
        if self.all_players_passed_priority() {
            let np = self.get_next_phase();
            self.with_phase_transition(np);
        } else {
            proof {
                lemma_some_seat_unpassed(self.turn_order.order_views(), passed2);
            }
            match self.get_next_priority_player() {
                Some(next) => {
                    self.current_priority_player = next;
                },
                None => {
                    proof {
                        let ovs = self.turn_order.order_views();
                        let n = ovs.len() as int;
                        let ci = ovs.index_of(self.current_priority_player@);
                        let miss = choose|j: int|
                            0 <= j < ovs.len() && !passed2.contains(#[trigger] ovs[j]);
                        let off = if miss > ci {
                            miss - ci
                        } else {
                            miss - ci + n
                        };
                        assert(cyc(ci, off, n) == miss);
                        assert(passed2.contains(ovs[cyc(ci, off, n)]));
                        assert(false);
                    }
                },
            }
        }
        Ok(())
    }
}

/// Turn-order integrity over a run of accepted turn passes: the turn
/// counter accumulates exactly one per accepted pass, so after the run
/// it equals its initial value plus the number of passes.
pub proof fn lemma_turn_counter_accumulates(states: Seq<GameState>)
    requires
        states.len() >= 1,
        forall|i: int|
            0 <= i < states.len() - 1 ==> spec_transitioned(
                #[trigger] states[i],
                TurnPhases::TurnEnd,
                states[i + 1],
            ),
    ensures
        states.last().turn_order.turn_counter == states.first().turn_order.turn_counter
            + states.len() - 1,
    decreases states.len(),
{
    if states.len() > 1 {
        lemma_turn_counter_accumulates(states.drop_last());
        assert(states.drop_last().last() == states[states.len() - 2]);
        assert(states.drop_last().first() == states.first());
        assert(spec_transitioned(
            states[states.len() - 2],
            TurnPhases::TurnEnd,
            states[states.len() - 1],
        ));
    }
}

/// While fewer seats have passed than there are seats, some seat has not
/// passed.
proof fn lemma_some_seat_unpassed(ovs: Seq<Seq<char>>, passed: Set<Seq<char>>)
    requires
        ovs.no_duplicates(),
        passed.finite(),
        forall|k: Seq<char>| #[trigger] passed.contains(k) ==> ovs.contains(k),
        passed.len() != ovs.len(),
    ensures
        exists|j: int| 0 <= j < ovs.len() && !passed.contains(#[trigger] ovs[j]),
{
    ovs.unique_seq_to_set();
    if forall|j: int| 0 <= j < ovs.len() ==> passed.contains(#[trigger] ovs[j]) {
        assert forall|k: Seq<char>| #[trigger] ovs.to_set().contains(k) implies passed.contains(
            k,
        ) by {
            let j = choose|j: int| 0 <= j < ovs.len() && ovs[j] == k;
        }
        assert forall|k: Seq<char>| #[trigger] passed.contains(k) implies ovs.to_set().contains(
            k,
        ) by {
            let j = choose|j: int| 0 <= j < ovs.len() && ovs[j] == k;
            assert(ovs.to_set().contains(ovs[j]));
        }
        assert(passed =~= ovs.to_set());
        assert(false);
    }
}

} // verus!
