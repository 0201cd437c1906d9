//! The cyclic order of play: a randomised sequence of player ids, an
//! active cursor, and a monotonic turn counter.

use vstd::prelude::*;
use vstd::arithmetic::div_mod::{lemma_mod_self_0, lemma_small_mod};
use crate::random::shuffle_vec;
use crate::text::{clone_strings, str_eq, views_of};

verus! {

/// A sequence of string views no duplicates proof carried across a
/// permutation: shuffling cannot introduce a repeated id.
proof fn lemma_view_no_dup_across_permutation(s1: Seq<String>, s2: Seq<String>)
    requires
        s1.to_multiset() == s2.to_multiset(),
        views_of(s1).no_duplicates(),
    ensures
        views_of(s2).no_duplicates(),
{
    s1.to_multiset_ensures();
    s2.to_multiset_ensures();
    assert forall|i: int, j: int|
        0 <= i < s1.len() && 0 <= j < s1.len() && i != j implies s1[i] != s1[j] by {
        assert(views_of(s1)[i] == s1[i]@);
        assert(views_of(s1)[j] == s1[j]@);
    }
    assert(s1.no_duplicates());
    s1.lemma_multiset_has_no_duplicates();
    s2.lemma_multiset_has_no_duplicates_conv();
    assert forall|i: int, j: int|
        0 <= i < s2.len() && 0 <= j < s2.len() && i != j implies views_of(s2)[i] != views_of(
        s2,
    )[j] by {
        assert(s2[i] != s2[j]);
        if s2[i]@ == s2[j]@ {
            assert(s2.contains(s2[i]));
            assert(s2.contains(s2[j]));
            assert(s1.to_multiset().count(s2[i]) > 0);
            assert(s1.to_multiset().count(s2[j]) > 0);
            assert(s1.contains(s2[i]));
            assert(s1.contains(s2[j]));
            let p = choose|p: int| 0 <= p < s1.len() && s1[p] == s2[i];
            let q = choose|q: int| 0 <= q < s1.len() && s1[q] == s2[j];
            assert(p != q);
            assert(views_of(s1)[p] == views_of(s1)[q]);
        }
    }
}

/// Membership carries across a permutation.
proof fn lemma_view_member_across_permutation(s1: Seq<String>, s2: Seq<String>, k: Seq<char>)
    requires
        s1.to_multiset() == s2.to_multiset(),
    ensures
        views_of(s1).contains(k) == views_of(s2).contains(k),
{
    s1.to_multiset_ensures();
    s2.to_multiset_ensures();
    if views_of(s1).contains(k) {
        let i = choose|i: int| 0 <= i < s1.len() && views_of(s1)[i] == k;
        assert(s1.contains(s1[i]));
        assert(s2.to_multiset().count(s1[i]) > 0);
        assert(s2.contains(s1[i]));
        let j = choose|j: int| 0 <= j < s2.len() && s2[j] == s1[i];
        assert(views_of(s2)[j] == k);
    }
    if views_of(s2).contains(k) {
        let i = choose|i: int| 0 <= i < s2.len() && views_of(s2)[i] == k;
        assert(s2.contains(s2[i]));
        assert(s1.to_multiset().count(s2[i]) > 0);
        assert(s1.contains(s2[i]));
        let j = choose|j: int| 0 <= j < s1.len() && s1[j] == s2[i];
        assert(views_of(s1)[j] == k);
    }
}

#[derive(Debug, Clone)]
pub struct TurnOrder {
    pub order: Vec<String>,
    pub active_player_id: String,
    pub turn_counter: u32,
}

impl TurnOrder {
    /// The player id views, in seating order.
    pub open spec fn order_views(&self) -> Seq<Seq<char>> {
        views_of(self.order@)
    }

    /// Non-empty seating, pairwise distinct ids, and an active player
    /// who sits at the table.
    pub open spec fn wf(&self) -> bool {
        &&& self.order@.len() > 0
        &&& self.order_views().no_duplicates()
        &&& self.order_views().contains(self.active_player_id@)
    }

    /// Seats the given players in a uniformly random order; the first
    /// seat is active and the counter starts at zero.
    pub fn new(player_ids: Vec<String>) -> (r: TurnOrder)
        requires
            player_ids@.len() > 0,
            views_of(player_ids@).no_duplicates(),
        ensures
            r.wf(),
            r.order@.len() == player_ids@.len(),
            forall|k: Seq<char>| r.order_views().contains(k) == views_of(player_ids@).contains(k),
            r.active_player_id@ == r.order_views()[0],
            r.turn_counter == 0,
    {
        let ghost given = player_ids@;
        let mut order = player_ids;
        shuffle_vec(&mut order);
        proof {
            lemma_view_no_dup_across_permutation(given, order@);
            assert forall|k: Seq<char>| views_of(order@).contains(k) == views_of(given).contains(
                k,
            ) by {
                lemma_view_member_across_permutation(given, order@, k);
            }
        }
        let active_player_id = order[0].clone();
        proof {
            assert(views_of(order@)[0] == active_player_id@);
        }
        TurnOrder { order, active_player_id, turn_counter: 0 }
    }

    /// An exact copy: same seating, same active player, same counter.
    pub fn duplicate(&self) -> (r: TurnOrder)
        ensures
            r.order@ == self.order@,
            r.active_player_id == self.active_player_id,
            r.turn_counter == self.turn_counter,
            r.wf() == self.wf(),
    {
        TurnOrder {
            order: clone_strings(&self.order),
            active_player_id: self.active_player_id.clone(),
            turn_counter: self.turn_counter,
        }
    }

    pub fn get_turn_counter(&self) -> (r: u32)
        ensures
            r == self.turn_counter,
    {
        self.turn_counter
    }

    /// Whether it is this player's turn.
    pub fn is_player_turn(&self, player_id: &str) -> (r: bool)
        ensures
            r == (self.active_player_id@ == player_id@),
    {
        str_eq(self.active_player_id.as_str(), player_id)
    }

    /// Rotates the active cursor one seat onward and counts the turn;
    /// the seating itself never changes.
    pub fn advance_turn(&mut self) -> (r: String)
        requires
            old(self).wf(),
            old(self).turn_counter < u32::MAX,
        ensures
            final(self).wf(),
            final(self).order == old(self).order,
            final(self).turn_counter == old(self).turn_counter + 1,
            r@ == final(self).active_player_id@,
            exists|i: int|
                0 <= i < old(self).order_views().len() && #[trigger] old(self).order_views()[i]
                    == old(self).active_player_id@ && final(self).active_player_id@ == old(
                    self,
                ).order_views()[(i + 1) % (old(self).order_views().len() as int)],
    {
        let n = self.order.len();
        let mut i: usize = 0;
        let mut found: usize = 0;
        let mut seen: bool = false;
        while i < n
            invariant
                i <= n,
                n == self.order@.len(),
                self.wf(),
                seen ==> found < n && self.order_views()[found as int] == self.active_player_id@,
                !seen ==> forall|j: int| 0 <= j < i ==> self.order_views()[j]
                    != self.active_player_id@,
            decreases n - i,
        {
            if !seen && str_eq(self.order[i].as_str(), self.active_player_id.as_str()) {
                found = i;
                seen = true;
            }
            i = i + 1;
        }
        proof {
            if !seen {
                let w = choose|w: int|
                    0 <= w < self.order_views().len() && self.order_views()[w]
                        == self.active_player_id@;
                assert(false);
            }
        }
        let next_index = if found + 1 < n {
            found + 1
        } else {
            0
        };
        proof {
            if found + 1 < n {
                lemma_small_mod((found + 1) as nat, n as nat);
            } else {
                lemma_mod_self_0(n as int);
            }
            assert(next_index as int == (found as int + 1) % (n as int));
        }
        self.active_player_id = self.order[next_index].clone();
        self.turn_counter = self.turn_counter + 1;
        proof {
            assert(self.order_views()[next_index as int] == self.active_player_id@);
        }
        self.active_player_id.clone()
    }
}

} // verus!
