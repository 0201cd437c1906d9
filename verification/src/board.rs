//! The per-game table: loot deck, discard pile and each player's hand.
//!
//! The governing invariant is conservation: the multiset of cards in
//! deck, discard and hands together never changes while a game runs —
//! drawing, reshuffling and discarding only move cards between zones.

use vstd::prelude::*;
use vstd::multiset::Multiset;
use crate::cards::LootCard;
use crate::errors::{AppError, AppResult};
use crate::random::shuffle_vec;
use crate::strmap::StrMap;
use crate::text::views_of;

verus! {

broadcast use vstd::multiset::group_multiset_axioms;

#[derive(Debug)]
pub struct Player {
    pub hand: Vec<LootCard>,
    pub max_health: u32,
    pub current_health: u32,
    pub loot_play_turn: bool,
    pub loot_play_char: bool,
}

impl Player {
    pub fn new(
        hand: Vec<LootCard>,
        max_health: u32,
        current_health: u32,
        loot_play_turn: bool,
        loot_play_char: bool,
    ) -> (r: Player)
        ensures
            r.hand == hand,
            r.max_health == max_health,
            r.current_health == current_health,
            r.loot_play_turn == loot_play_turn,
            r.loot_play_char == loot_play_char,
    {
        Player { current_health, hand, loot_play_char, loot_play_turn, max_health }
    }
}

/// The cards held in a sequence of hands, as one multiset.
pub open spec fn hands_of(ps: Seq<Player>) -> Multiset<LootCard>
    decreases ps.len(),
{
    if ps.len() == 0 {
        Multiset::empty()
    } else {
        hands_of(ps.drop_last()).add(ps.last().hand@.to_multiset())
    }
}

proof fn lemma_hands_of_push(ps: Seq<Player>, p: Player)
    ensures
        hands_of(ps.push(p)) == hands_of(ps).add(p.hand@.to_multiset()),
{
    assert(ps.push(p).drop_last() =~= ps);
    assert(ps.push(p).last() == p);
}

proof fn lemma_hands_of_remove(ps: Seq<Player>, i: int)
    requires
        0 <= i < ps.len(),
    ensures
        hands_of(ps) == hands_of(ps.remove(i)).add(ps[i].hand@.to_multiset()),
    decreases ps.len(),
{
    if i == ps.len() - 1 {
        assert(ps.remove(i) =~= ps.drop_last());
    } else {
        lemma_hands_of_remove(ps.drop_last(), i);
        assert(ps.remove(i).drop_last() =~= ps.drop_last().remove(i));
        assert(ps.remove(i).last() == ps.last());
        assert(hands_of(ps) =~= hands_of(ps.remove(i)).add(ps[i].hand@.to_multiset()));
    }
}

/// Copies a hand card for card; the copy equals its source value.
pub fn clone_cards(v: &Vec<LootCard>) -> (r: Vec<LootCard>)
    ensures
        r@ == v@,
{
    let n = v.len();
    let mut out: Vec<LootCard> = Vec::new();
    let mut i: usize = 0;
    while i < n
        invariant
            i <= n,
            n == v@.len(),
            out@ =~= v@.take(i as int),
        decreases n - i,
    {
        out.push(v[i].duplicate());
        proof {
            assert(out@ =~= v@.take(i as int + 1));
        }
        i = i + 1;
    }
    proof {
        assert(v@.take(n as int) =~= v@);
    }
    out
}

#[derive(Debug)]
pub struct Board {
    pub loot_deck: Vec<LootCard>,
    pub loot_discard: Vec<LootCard>,
    pub players: StrMap<Player>,
}

impl Board {
    /// Every card on the table, whichever zone it lies in.
    pub open spec fn cards(&self) -> Multiset<LootCard> {
        self.loot_deck@.to_multiset().add(self.loot_discard@.to_multiset()).add(
            hands_of(self.players.vseq()),
        )
    }

    pub open spec fn wf(&self) -> bool {
        self.players.wf()
    }

    /// Deals three cards from the tail of the freshly shuffled deck to
    /// each player and seats them at full health; no card is created or
    /// lost in the process.
    pub fn new(player_ids: Vec<String>, loot_deck: Vec<LootCard>) -> (r: Board)
        requires
            views_of(player_ids@).no_duplicates(),
            loot_deck@.len() >= 3 * player_ids@.len(),
        ensures
            r.wf(),
            forall|k: Seq<char>| #[trigger] r.players@.dom().contains(k) == views_of(
                player_ids@,
            ).contains(k),
            forall|k: Seq<char>| #[trigger] r.players@.dom().contains(k) ==> r.players@[k].hand@.len()
                == 3 && r.players@[k].max_health == 2 && r.players@[k].current_health == 2
                && r.players@[k].loot_play_turn && r.players@[k].loot_play_char,
            r.loot_deck@ == loot_deck@.take(loot_deck@.len() - 3 * player_ids@.len()),
            r.loot_discard@.len() == 0,
            r.cards() == loot_deck@.to_multiset(),
    {
        let ghost full_deck = loot_deck@;
        let ghost ids = player_ids@;
        let mut deck = loot_deck;
        let mut players: StrMap<Player> = StrMap::new();
        let n = player_ids.len();
        let mut idx: usize = 0;
        proof {
            assert(hands_of(players.vseq()) =~= Multiset::<LootCard>::empty());
            assert(deck@.to_multiset().add(hands_of(players.vseq())) =~= full_deck.to_multiset());
        }
        while idx < n
            invariant
                idx <= n,
                n == ids.len(),
                ids == player_ids@,
                views_of(ids).no_duplicates(),
                full_deck.len() >= 3 * n,
                players.wf(),
                players.kseq() == views_of(ids).take(idx as int),
                deck@ == full_deck.take(full_deck.len() - 3 * idx),
                deck@.to_multiset().add(hands_of(players.vseq())) == full_deck.to_multiset(),
                forall|j: int|
                    0 <= j < players.vseq().len() ==> (#[trigger] players.vseq()[j]).hand@.len()
                        == 3 && players.vseq()[j].max_health == 2
                        && players.vseq()[j].current_health == 2
                        && players.vseq()[j].loot_play_turn
                        && players.vseq()[j].loot_play_char,
            decreases n - idx,
        {
            let ghost deck_before = deck@;
            let mut hand: Vec<LootCard> = Vec::new();
            let mut d: usize = 0;
            proof {
                hand@.to_multiset_ensures();
                assert(hand@.to_multiset() =~= Multiset::<LootCard>::empty());
            }
            while d < 3
                invariant
                    d <= 3,
                    idx < n,
                    n == ids.len(),
                    ids == player_ids@,
                    full_deck.len() >= 3 * n,
                    deck_before == full_deck.take(full_deck.len() - 3 * idx),
                    deck@ == deck_before.take(deck_before.len() - d),
                    hand@.len() == d,
                    deck@.to_multiset().add(hand@.to_multiset()) == deck_before.to_multiset(),
                decreases 3 - d,
            {
                proof {
                    deck@.to_multiset_ensures();
                    assert(deck@.len() == full_deck.len() - 3 * idx - d);
                }
                let card = match deck.pop() {
                    Some(c) => c,
                    None => {
                        proof {
                            assert(false);
                        }
                        unreached()
                    },
                };
                let ghost deck_mid = deck@;
                proof {
                    assert(deck_mid =~= deck_before.take(deck_before.len() - d - 1));
                }
                let ghost hand_before = hand@;
                hand.push(card);
                proof {
                    hand_before.to_multiset_ensures();
                    deck_mid.to_multiset_ensures();
                    assert(deck_mid.push(card) =~= deck_before.take(deck_before.len() - d));
                    assert(deck_mid.push(card).to_multiset() =~= deck_mid.to_multiset().insert(
                        card,
                    ));
                    assert(deck@.to_multiset().add(hand@.to_multiset()) =~= deck_before.take(
                        deck_before.len() - d,
                    ).to_multiset().add(hand_before.to_multiset()));
                }
                d = d + 1;
            }
            let ghost hand_view = hand@;
            let player = Player::new(hand, 2, 2, true, true);
            let ghost pre_players = players;
            proof {
                players.lemma_view();
                if players@.dom().contains(ids[idx as int]@) {
                    assert(players.kseq().contains(ids[idx as int]@));
                    let w = choose|w: int|
                        0 <= w < players.kseq().len() && players.kseq()[w] == ids[idx as int]@;
                    assert(views_of(ids)[w] == views_of(ids)[idx as int]);
                    assert(false);
                }
            }
            players.insert(player_ids[idx].clone(), player);
            proof {
                assert(players.kseq() =~= views_of(ids).take(idx as int + 1));
                lemma_hands_of_push(pre_players.vseq(), player);
                assert(deck@.to_multiset().add(hands_of(players.vseq()))
                    =~= full_deck.to_multiset());
                assert(deck@ =~= full_deck.take(full_deck.len() - 3 * (idx + 1)));
            }
            idx = idx + 1;
        }
        proof {
            assert(players.kseq() == views_of(ids).take(n as int));
            assert(views_of(ids).take(n as int) =~= views_of(ids));
        }
        let board = Board { loot_deck: deck, loot_discard: Vec::new(), players };
        proof {
            board.players.lemma_view();
            assert forall|k: Seq<char>| #[trigger] board.players@.dom().contains(k) == views_of(
                ids,
            ).contains(k) by {
                if board.players@.dom().contains(k) {
                    assert(board.players.kseq().contains(k));
                }
                if views_of(ids).contains(k) {
                    let w = choose|w: int| 0 <= w < views_of(ids).len() && views_of(ids)[w] == k;
                    assert(board.players.kseq()[w] == k);
                    assert(board.players@.dom().contains(board.players.kseq()[w]));
                }
            }
            assert forall|k: Seq<char>| #[trigger] board.players@.dom().contains(k) implies board
                .players@[k].hand@.len() == 3 && board.players@[k].max_health == 2
                && board.players@[k].current_health == 2 && board.players@[k].loot_play_turn
                && board.players@[k].loot_play_char by {
                assert(board.players.kseq().contains(k));
                let w = choose|w: int|
                    0 <= w < board.players.kseq().len() && board.players.kseq()[w] == k;
                assert(board.players@[k] == board.players.vseq()[w]);
            }
            board.loot_discard@.to_multiset_ensures();
            assert(board.loot_discard@.to_multiset() =~= Multiset::<LootCard>::empty());
            assert(board.cards() =~= full_deck.to_multiset());
        }
        board
    }

    /// Draws one card for the player: from the deck's tail, after folding
    /// the discard pile back in and shuffling when the deck is out. The
    /// drawn card goes to the player's hand and comes back to the caller;
    /// the table keeps every card it had.
    pub fn draw_loot_for_player(&mut self, player_id: &str) -> (r: AppResult<LootCard>)
        requires
            old(self).wf(),
        ensures
            final(self).wf(),
            final(self).cards() == old(self).cards(),
            r is Err ==> *final(self) == *old(self),
            !old(self).players@.dom().contains(player_id@) ==> r == AppResult::<
                LootCard,
            >::Err(AppError::PlayerNotFound),
            old(self).players@.dom().contains(player_id@) && old(self).loot_deck@.len() == 0 && old(
                self,
            ).loot_discard@.len() == 0 ==> r == AppResult::<LootCard>::Err(AppError::EmptyLootDeck),
            old(self).players@.dom().contains(player_id@) && (old(self).loot_deck@.len() > 0 || old(
                self,
            ).loot_discard@.len() > 0) ==> r is Ok,
            r matches Ok(card) ==> {
                &&& final(self).players@.dom() == old(self).players@.dom()
                &&& final(self).players@[player_id@].hand@
                    == old(self).players@[player_id@].hand@.push(card)
                &&& final(self).players@[player_id@].max_health
                    == old(self).players@[player_id@].max_health
                &&& final(self).players@[player_id@].current_health
                    == old(self).players@[player_id@].current_health
                &&& forall|k: Seq<char>|
                    #[trigger] old(self).players@.dom().contains(k) && k != player_id@
                        ==> final(self).players@[k] == old(self).players@[k]
                &&& final(self).loot_deck@.len() + final(self).loot_discard@.len() + 1
                    == old(self).loot_deck@.len() + old(self).loot_discard@.len()
                &&& old(self).loot_deck@.len() > 0 ==> final(self).loot_deck@
                    == old(self).loot_deck@.drop_last() && card == old(self).loot_deck@.last()
                    && final(self).loot_discard@ == old(self).loot_discard@
                &&& old(self).loot_deck@.len() == 0 ==> final(self).loot_discard@.len() == 0
                    && final(self).loot_deck@.to_multiset().insert(card)
                    == old(self).loot_discard@.to_multiset()
            },
    {
        if !self.players.contains_key(player_id) {
            return Err(AppError::PlayerNotFound);
        }
        if self.loot_deck.len() == 0 {
            if self.loot_discard.len() == 0 {
                return Err(AppError::EmptyLootDeck);
            }
            let ghost discard_before = self.loot_discard@;
            self.loot_deck.append(&mut self.loot_discard);
            proof {
                assert(self.loot_deck@ =~= discard_before);
                assert(self.loot_discard@.len() == 0);
            }
            let ghost pre = self.loot_deck@;
            shuffle_vec(&mut self.loot_deck);
        }
        let ghost deck_pre_pop = self.loot_deck@;
        let card = match self.loot_deck.pop() {
            Some(c) => c,
            None => {
                proof {
                    assert(false);
                }
                unreached()
            },
        };
        proof {
            self.loot_deck@.to_multiset_ensures();
            assert(deck_pre_pop =~= self.loot_deck@.push(card));
            assert(deck_pre_pop.to_multiset() =~= self.loot_deck@.to_multiset().insert(card));
        }
        let ghost players_before = self.players;
        proof {
            self.players.lemma_view();
        }
        let mut player = match self.players.remove(player_id) {
            Some(p) => p,
            None => {
                proof {
                    assert(false);
                }
                unreached()
            },
        };
        let ghost mid_map = self.players;
        let ghost hand_before = player.hand@;
        player.hand.push(card.duplicate());
        let ghost updated_player = player;
        self.players.insert(player_id.to_owned(), player);
        proof {
            let i = choose|i: int|
                0 <= i < players_before.kseq().len() && #[trigger] players_before.kseq()[i]
                    == player_id@ && mid_map.kseq() == players_before.kseq().remove(i)
                    && mid_map.vseq() == players_before.vseq().remove(i);
            lemma_hands_of_remove(players_before.vseq(), i);
            lemma_hands_of_push(mid_map.vseq(), updated_player);
            assert(self.players.vseq() == mid_map.vseq().push(updated_player));
            players_before.lemma_view();
            assert(players_before.vseq()[i] == players_before@[player_id@]);
            hand_before.to_multiset_ensures();
            old(self).loot_deck@.to_multiset_ensures();
            old(self).loot_discard@.to_multiset_ensures();
            self.loot_deck@.to_multiset_ensures();
            self.loot_discard@.to_multiset_ensures();
            assert(updated_player.hand@ == hand_before.push(card));
            assert(updated_player.hand@.to_multiset() =~= hand_before.to_multiset().insert(card));
            assert(self.cards() =~= old(self).cards());
            assert(self.players@.dom() =~= old(self).players@.dom());
        }
        Ok(card)
    }

    /// A copy of the player's hand.
    pub fn get_player_hand(&self, player_id: &str) -> (r: AppResult<Vec<LootCard>>)
        requires
            self.wf(),
        ensures
            match r {
                Ok(hand) => self.players@.dom().contains(player_id@) && hand@
                    == self.players@[player_id@].hand@,
                Err(e) => !self.players@.dom().contains(player_id@) && e
                    == AppError::PlayerNotFound,
            },
    {
        match self.players.get(player_id) {
            Some(p) => Ok(clone_cards(&p.hand)),
            None => Err(AppError::PlayerNotFound),
        }
    }

    /// How many cards the player holds.
    pub fn get_hand_size(&self, player_id: &str) -> (r: AppResult<usize>)
        requires
            self.wf(),
        ensures
            match r {
                Ok(n) => self.players@.dom().contains(player_id@) && n
                    == self.players@[player_id@].hand@.len(),
                Err(e) => !self.players@.dom().contains(player_id@) && e
                    == AppError::PlayerNotFound,
            },
    {
        match self.players.get(player_id) {
            Some(p) => Ok(p.hand.len()),
            None => Err(AppError::PlayerNotFound),
        }
    }

    /// Takes the first card with the given template out of the player's
    /// hand and hands it to the caller; the table then holds one card
    /// less.
    pub fn remove_card_from_hand(&mut self, player_id: &str, card_id: &str) -> (r: AppResult<
        LootCard,
    >)
        requires
            old(self).wf(),
        ensures
            final(self).wf(),
            r is Err ==> *final(self) == *old(self),
            !old(self).players@.dom().contains(player_id@) ==> r == AppResult::<
                LootCard,
            >::Err(AppError::PlayerNotFound),
            old(self).players@.dom().contains(player_id@) && (forall|j: int|
                0 <= j < old(self).players@[player_id@].hand@.len() ==> (#[trigger] old(
                    self,
                ).players@[player_id@].hand@[j]).card.template_id@ != card_id@) ==> r
                == AppResult::<LootCard>::Err(AppError::CardNotInHand),
            old(self).players@.dom().contains(player_id@) && (exists|j: int|
                0 <= j < old(self).players@[player_id@].hand@.len() && (#[trigger] old(
                    self,
                ).players@[player_id@].hand@[j]).card.template_id@ == card_id@) ==> r is Ok,
            r matches Ok(card) ==> {
                &&& old(self).players@.dom().contains(player_id@)
                &&& final(self).players@.dom() == old(self).players@.dom()
                &&& card.card.template_id@ == card_id@
                &&& exists|i: int|
                    {
                        &&& 0 <= i < old(self).players@[player_id@].hand@.len()
                        &&& (#[trigger] old(self).players@[player_id@].hand@[i]) == card
                        &&& forall|j: int|
                            0 <= j < i ==> (#[trigger] old(
                                self,
                            ).players@[player_id@].hand@[j]).card.template_id@ != card_id@
                        &&& final(self).players@[player_id@].hand@
                            == old(self).players@[player_id@].hand@.remove(i)
                    }
                &&& forall|k: Seq<char>|
                    #[trigger] old(self).players@.dom().contains(k) && k != player_id@
                        ==> final(self).players@[k] == old(self).players@[k]
                &&& final(self).loot_deck@ == old(self).loot_deck@
                &&& final(self).loot_discard@ == old(self).loot_discard@
                &&& final(self).cards() == old(self).cards().remove(card)
            },
    {
        proof {
            self.players.lemma_view();
        }
        let mut present: bool = false;
        let mut at: usize = 0;
        match self.players.get(player_id) {
            None => {
                return Err(AppError::PlayerNotFound);
            },
            Some(p) => {
                let n = p.hand.len();
                let mut i: usize = 0;
                while i < n
                    invariant
                        i <= n,
                        n == p.hand@.len(),
                        present ==> at < n && p.hand@[at as int].card.template_id@ == card_id@
                            && forall|j: int|
                            0 <= j < at ==> (#[trigger] p.hand@[j]).card.template_id@ != card_id@,
                        !present ==> forall|j: int|
                            0 <= j < i ==> (#[trigger] p.hand@[j]).card.template_id@ != card_id@,
                    decreases n - i,
                {
                    if !present && crate::text::str_eq(p.hand[i].card.template_id.as_str(), card_id)
                        {
                        at = i;
                        present = true;
                    }
                    i = i + 1;
                }
            },
        }
        if !present {
            return Err(AppError::CardNotInHand);
        }
        let ghost players_before = self.players;
        let mut player = match self.players.remove(player_id) {
            Some(p) => p,
            None => {
                proof {
                    assert(false);
                }
                unreached()
            },
        };
        let ghost mid_map = self.players;
        let card = player.hand.remove(at);
        let ghost updated_player = player;
        self.players.insert(player_id.to_owned(), player);
        proof {
            let w = choose|w: int|
                0 <= w < players_before.kseq().len() && #[trigger] players_before.kseq()[w]
                    == player_id@ && mid_map.kseq() == players_before.kseq().remove(w)
                    && mid_map.vseq() == players_before.vseq().remove(w);
            lemma_hands_of_remove(players_before.vseq(), w);
            lemma_hands_of_push(mid_map.vseq(), updated_player);
            assert(self.players.vseq() == mid_map.vseq().push(updated_player));
            players_before.lemma_view();
            assert(players_before.vseq()[w] == players_before@[player_id@]);
            players_before@[player_id@].hand@.to_multiset_ensures();
            assert(updated_player.hand@ == players_before@[player_id@].hand@.remove(at as int));
            assert(updated_player.hand@.to_multiset() =~= players_before@[
                player_id@
            ].hand@.to_multiset().remove(card));
            assert(self.cards() =~= old(self).cards().remove(card));
            assert(self.players@.dom() =~= old(self).players@.dom());
        }
        Ok(card)
    }

    /// Lays a card on the discard pile; the table then holds one card
    /// more.
    pub fn discard_loot_card(&mut self, card: LootCard)
        requires
            old(self).wf(),
        ensures
            final(self).wf(),
            final(self).loot_discard@ == old(self).loot_discard@.push(card),
            final(self).loot_deck@ == old(self).loot_deck@,
            final(self).players == old(self).players,
            final(self).cards() == old(self).cards().insert(card),
    {
        let ghost discard_before = self.loot_discard@;
        self.loot_discard.push(card);
        proof {
            discard_before.to_multiset_ensures();
            assert(self.loot_discard@.to_multiset() =~= discard_before.to_multiset().insert(card));
            assert(self.cards() =~= old(self).cards().insert(card));
        }
    }
}

} // verus!
