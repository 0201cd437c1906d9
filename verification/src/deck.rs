//! A free-standing loot deck with its discard pile: draws pop from the
//! deck's tail and the discard pile is folded back in, shuffled, when
//! the deck runs out. Cards only ever move between the two piles and
//! the caller's hands.

use vstd::prelude::*;
use vstd::multiset::Multiset;
use crate::cards::LootCard;
use crate::random::shuffle_vec;

verus! {

broadcast use vstd::multiset::group_multiset_axioms;

#[derive(Debug)]
pub struct LootDeck {
    deck: Vec<LootCard>,
    discard_pile: Vec<LootCard>,
}

impl LootDeck {
    /// The draw pile, bottom first.
    pub closed spec fn deck_seq(&self) -> Seq<LootCard> {
        self.deck@
    }

    /// The discard pile, oldest first.
    pub closed spec fn discard_seq(&self) -> Seq<LootCard> {
        self.discard_pile@
    }

    /// Every card in either pile.
    pub open spec fn total(&self) -> Multiset<LootCard> {
        self.deck_seq().to_multiset().add(self.discard_seq().to_multiset())
    }

    /// A deck made of the given cards, with an empty discard pile.
    pub fn new(cards: Vec<LootCard>) -> (r: LootDeck)
        ensures
            r.deck_seq() == cards@,
            r.discard_seq().len() == 0,
            r.total() == cards@.to_multiset(),
    {
        let r = LootDeck { deck: cards, discard_pile: Vec::new() };
        proof {
            r.discard_seq().to_multiset_ensures();
            assert(r.discard_seq().to_multiset() =~= Multiset::<LootCard>::empty());
            assert(r.total() =~= r.deck_seq().to_multiset());
        }
        r
    }

    /// Shuffles the draw pile in place; it keeps exactly its cards.
    pub fn shuffle(&mut self)
        ensures
            final(self).deck_seq().to_multiset() == old(self).deck_seq().to_multiset(),
            final(self).deck_seq().len() == old(self).deck_seq().len(),
            final(self).discard_seq() == old(self).discard_seq(),
            final(self).total() == old(self).total(),
    {
        shuffle_vec(&mut self.deck);
    }

    /// Folds the discard pile back into the deck and shuffles, when
    /// there is anything to fold back.
    fn reshuffle_discard(&mut self)
        ensures
            final(self).total() == old(self).total(),
            old(self).discard_seq().len() > 0 ==> final(self).discard_seq().len() == 0
                && final(self).deck_seq().to_multiset() == old(self).deck_seq().to_multiset().add(
                old(self).discard_seq().to_multiset(),
            ),
            old(self).discard_seq().len() == 0 ==> *final(self) == *old(self),
    {
        if !self.discard_pile.is_empty() {
            let ghost deck_before = self.deck@;
            let ghost discard_before = self.discard_pile@;
            self.deck.append(&mut self.discard_pile);
            proof {
                deck_before.to_multiset_ensures();
                discard_before.to_multiset_ensures();
                self.deck@.to_multiset_ensures();
                self.discard_pile@.to_multiset_ensures();
                lemma_concat_multiset(deck_before, discard_before);
                assert(self.discard_pile@.to_multiset() =~= Multiset::<LootCard>::empty());
            }
            shuffle_vec(&mut self.deck);
            proof {
                assert(self.total() =~= old(self).total());
            }
        }
    }

    /// Draws the deck's top card, folding the discard pile back in
    /// first when the deck is out; `None` exactly when both piles are
    /// empty. A drawn card leaves the piles and nothing else moves.
    pub fn draw_card(&mut self) -> (r: Option<LootCard>)
        ensures
            r is None <==> (old(self).deck_seq().len() == 0 && old(self).discard_seq().len() == 0),
            r is None ==> final(self).deck_seq() == old(self).deck_seq()
                && final(self).discard_seq() == old(self).discard_seq(),
            r matches Some(c) ==> {
                &&& final(self).total().insert(c) == old(self).total()
                &&& final(self).deck_seq().len() + final(self).discard_seq().len() + 1 == old(
                    self,
                ).deck_seq().len() + old(self).discard_seq().len()
                &&& old(self).deck_seq().len() > 0 ==> final(self).deck_seq() == old(
                    self,
                ).deck_seq().drop_last() && c == old(self).deck_seq().last()
                    && final(self).discard_seq() == old(self).discard_seq()
                &&& old(self).deck_seq().len() == 0 ==> final(self).discard_seq().len() == 0
                    && final(self).deck_seq().to_multiset().insert(c) == old(
                    self,
                ).discard_seq().to_multiset()
            },
    {
        if self.deck.len() == 0 {
            self.reshuffle_discard();
        }
        let ghost pre_pop = self.deck@;
        let r = self.deck.pop();
        proof {
            pre_pop.to_multiset_ensures();
            self.deck@.to_multiset_ensures();
            old(self).deck_seq().to_multiset_ensures();
            old(self).discard_seq().to_multiset_ensures();
            self.discard_pile@.to_multiset_ensures();
            if pre_pop.len() > 0 {
                let c = pre_pop.last();
                assert(pre_pop =~= self.deck@.push(c));
                assert(pre_pop.to_multiset() =~= self.deck@.to_multiset().insert(c));
                assert(self.total().insert(c) =~= self.deck@.to_multiset().insert(c).add(
                    self.discard_pile@.to_multiset(),
                ));
            }
        }
        r
    }

    /// Draws up to `count` cards: exactly `count` when the piles hold
    /// that many, else every card they hold.
    pub fn draw_cards(&mut self, count: usize) -> (r: Vec<LootCard>)
        ensures
            final(self).total().add(r@.to_multiset()) == old(self).total(),
            r@.len() == if count <= old(self).deck_seq().len() + old(self).discard_seq().len() {
                count as int
            } else {
                old(self).deck_seq().len() + old(self).discard_seq().len() as int
            },
    {
        let mut drawn: Vec<LootCard> = Vec::new();
        let mut i: usize = 0;
        let mut exhausted: bool = false;
        proof {
            drawn@.to_multiset_ensures();
            assert(drawn@.to_multiset() =~= Multiset::<LootCard>::empty());
            assert(self.total().add(drawn@.to_multiset()) =~= old(self).total());
        }
        while i < count && !exhausted
            invariant
                i <= count,
                drawn@.len() == i,
                self.total().add(drawn@.to_multiset()) == old(self).total(),
                self.deck_seq().len() + self.discard_seq().len() + i == old(self).deck_seq().len()
                    + old(self).discard_seq().len(),
                exhausted ==> self.deck_seq().len() == 0 && self.discard_seq().len() == 0,
            decreases count - i + (if exhausted { 0int } else { 1int }),
        {
            let ghost drawn_before = drawn@;
            let ghost self_before = *self;
            match self.draw_card() {
                Some(card) => {
                    drawn.push(card);
                    proof {
                        drawn_before.to_multiset_ensures();
                        assert(drawn@ =~= drawn_before.push(card));
                        assert(drawn@.to_multiset() =~= drawn_before.to_multiset().insert(card));
                        assert(self.total().add(drawn@.to_multiset()) =~= self_before.total().add(
                            drawn_before.to_multiset(),
                        ));
                    }
                    i = i + 1;
                },
                None => {
                    exhausted = true;
                },
            }
        }
        drawn
    }

    /// Lays a card on the discard pile.
    pub fn discard_card(&mut self, card: LootCard)
        ensures
            final(self).discard_seq() == old(self).discard_seq().push(card),
            final(self).deck_seq() == old(self).deck_seq(),
            final(self).total() == old(self).total().insert(card),
    {
        let ghost discard_before = self.discard_pile@;
        self.discard_pile.push(card);
        proof {
            discard_before.to_multiset_ensures();
            assert(self.discard_pile@.to_multiset() =~= discard_before.to_multiset().insert(card));
            assert(self.total() =~= old(self).total().insert(card));
        }
    }

    /// Lays every given card on the discard pile, in order.
    pub fn discard_cards(&mut self, cards: Vec<LootCard>)
        ensures
            final(self).discard_seq() == old(self).discard_seq() + cards@,
            final(self).deck_seq() == old(self).deck_seq(),
            final(self).total() == old(self).total().add(cards@.to_multiset()),
    {
        let n = cards.len();
        let mut i: usize = 0;
        proof {
            cards@.take(0).to_multiset_ensures();
            assert(self.discard_seq() =~= old(self).discard_seq() + cards@.take(0));
            assert(cards@.take(0).to_multiset() =~= Multiset::<LootCard>::empty());
            assert(self.total() =~= old(self).total().add(cards@.take(0).to_multiset()));
        }
        while i < n
            invariant
                i <= n,
                n == cards@.len(),
                self.deck_seq() == old(self).deck_seq(),
                self.discard_seq() == old(self).discard_seq() + cards@.take(i as int),
                self.total() == old(self).total().add(cards@.take(i as int).to_multiset()),
            decreases n - i,
        {
            let card = cards[i].duplicate();
            self.discard_card(card);
            proof {
                cards@.take(i as int).to_multiset_ensures();
                assert(self.discard_seq() =~= old(self).discard_seq() + cards@.take(i as int + 1));
                assert(cards@.take(i as int + 1) =~= cards@.take(i as int).push(cards@[i as int]));
                assert(cards@.take(i as int + 1).to_multiset() =~= cards@.take(
                    i as int,
                ).to_multiset().insert(cards@[i as int]));
                assert(self.total() =~= old(self).total().add(
                    cards@.take(i as int + 1).to_multiset(),
                ));
            }
            i = i + 1;
        }
        proof {
            assert(cards@.take(n as int) =~= cards@);
        }
    }

    /// The top `count` cards of the draw pile, topmost first, without
    /// moving them.
    pub fn peek_top(&self, count: usize) -> (r: Vec<LootCard>)
        ensures
            r@.len() == if count <= self.deck_seq().len() {
                count as int
            } else {
                self.deck_seq().len() as int
            },
            forall|i: int|
                0 <= i < r@.len() ==> #[trigger] r@[i] == self.deck_seq()[self.deck_seq().len() - 1
                    - i],
    {
        let n = self.deck.len();
        let take = if count <= n {
            count
        } else {
            n
        };
        let mut out: Vec<LootCard> = Vec::new();
        let mut i: usize = 0;
        while i < take
            invariant
                i <= take,
                take <= n,
                n == self.deck_seq().len(),
                out@.len() == i,
                forall|j: int|
                    0 <= j < i ==> #[trigger] out@[j] == self.deck_seq()[self.deck_seq().len() - 1
                        - j],
            decreases take - i,
        {
            out.push(self.deck[n - 1 - i].duplicate());
            i = i + 1;
        }
        out
    }

    pub fn cards_remaining(&self) -> (r: usize)
        ensures
            r == self.deck_seq().len(),
    {
        self.deck.len()
    }

    pub fn discard_pile_size(&self) -> (r: usize)
        ensures
            r == self.discard_seq().len(),
    {
        self.discard_pile.len()
    }

    /// How many cards the two piles hold together.
    pub fn total_deck_size(&self) -> (r: usize)
        requires
            self.deck_seq().len() + self.discard_seq().len() <= usize::MAX,
        ensures
            r == self.deck_seq().len() + self.discard_seq().len(),
    {
        self.deck.len() + self.discard_pile.len()
    }
}

/// The multiset of a concatenation is the sum of the parts.
proof fn lemma_concat_multiset(a: Seq<LootCard>, b: Seq<LootCard>)
    ensures
        (a + b).to_multiset() == a.to_multiset().add(b.to_multiset()),
    decreases b.len(),
{
    a.to_multiset_ensures();
    b.to_multiset_ensures();
    (a + b).to_multiset_ensures();
    if b.len() == 0 {
        assert(a + b =~= a);
        assert(b.to_multiset() =~= Multiset::<LootCard>::empty());
        assert((a + b).to_multiset() =~= a.to_multiset().add(b.to_multiset()));
    } else {
        lemma_concat_multiset(a, b.drop_last());
        b.drop_last().to_multiset_ensures();
        (a + b.drop_last()).to_multiset_ensures();
        assert(a + b =~= (a + b.drop_last()).push(b.last()));
        assert((a + b).to_multiset() =~= (a + b.drop_last()).to_multiset().insert(b.last()));
        assert(b =~= b.drop_last().push(b.last()));
        assert(b.to_multiset() =~= b.drop_last().to_multiset().insert(b.last()));
        assert((a + b).to_multiset() =~= a.to_multiset().add(b.to_multiset()));
    }
}

} // verus!
