//! Card templates and card instances. The catalogue is a table of
//! templates; expanding it yields the loot deck, one card instance per
//! copy, each carrying a fresh entity id.

use vstd::prelude::*;
use crate::random::{fresh_id, shuffle_vec};

verus! {

/// A record of the static card table: how one card looks and how many
/// copies of it the deck holds.
#[derive(Debug, Clone)]
pub struct CardTemplate {
    pub id: String,
    pub name: String,
    pub card_type: String,
    pub subtype: String,
    pub description: String,
    pub count: u32,
}

#[derive(Debug, Clone, Copy, PartialEq, Eq, Structural)]
pub enum Zone {
    Hand,
    LootDeck,
    LootDiscard,
    Playing,
    Item,
}

#[derive(Debug, Clone, Copy, PartialEq, Eq, Structural)]
pub enum CardType {
    Monster,
    Loot,
    Treasure,
    Character,
    BonusSoul,
}

/// One card instance on the table.
#[derive(Debug, Clone)]
pub struct Card {
    pub entity_id: String,
    pub template_id: String,
    pub name: String,
    pub description: String,
    pub zone: Zone,
    pub card_type: CardType,
    pub owner_id: String,
    pub subtype: String,
}

#[derive(Debug, Clone)]
pub struct LootCard {
    pub card: Card,
}

impl LootCard {
    /// An exact copy, field for field.
    pub fn duplicate(&self) -> (r: LootCard)
        ensures
            r == *self,
    {
        LootCard {
            card: Card {
                entity_id: self.card.entity_id.clone(),
                template_id: self.card.template_id.clone(),
                name: self.card.name.clone(),
                description: self.card.description.clone(),
                zone: self.card.zone,
                card_type: self.card.card_type,
                owner_id: self.card.owner_id.clone(),
                subtype: self.card.subtype.clone(),
            },
        }
    }
}

/// How many card instances a catalogue prefix expands to.
pub open spec fn spec_total_count(templates: Seq<CardTemplate>) -> int
    decreases templates.len(),
{
    if templates.len() == 0 {
        0
    } else {
        spec_total_count(templates.drop_last()) + templates.last().count
    }
}

/// Whether a freshly dealt card is an instance of the template: same
/// template fields, loot type, lying in the deck, not yet owned.
pub open spec fn card_from_template(c: LootCard, t: CardTemplate) -> bool {
    &&& c.card.template_id@ == t.id@
    &&& c.card.name@ == t.name@
    &&& c.card.description@ == t.description@
    &&& c.card.subtype@ == t.subtype@
    &&& c.card.zone == Zone::LootDeck
    &&& c.card.card_type == CardType::Loot
    &&& c.card.owner_id@ == Seq::<char>::empty()
}

/// Whether a card is an instance of some template of the catalogue.
pub open spec fn card_from_catalogue(c: LootCard, templates: Seq<CardTemplate>) -> bool {
    exists|t: int| 0 <= t < templates.len() && card_from_template(c, templates[t])
}

/// How many cards of a sequence instantiate the template with this id.
pub open spec fn count_matching(s: Seq<LootCard>, id: Seq<char>) -> int
    decreases s.len(),
{
    if s.len() == 0 {
        0
    } else {
        count_matching(s.drop_last(), id) + if s.last().card.template_id@ == id {
            1int
        } else {
            0int
        }
    }
}

proof fn lemma_count_push(s: Seq<LootCard>, c: LootCard, id: Seq<char>)
    ensures
        count_matching(s.push(c), id) == count_matching(s, id) + if c.card.template_id@ == id {
            1int
        } else {
            0int
        },
{
    assert(s.push(c).drop_last() =~= s);
    assert(s.push(c).last() == c);
}

proof fn lemma_count_remove(s: Seq<LootCard>, i: int, id: Seq<char>)
    requires
        0 <= i < s.len(),
    ensures
        count_matching(s, id) == count_matching(s.remove(i), id) + if s[i].card.template_id@
            == id {
            1int
        } else {
            0int
        },
    decreases s.len(),
{
    if i == s.len() - 1 {
        assert(s.remove(i) =~= s.drop_last());
    } else {
        lemma_count_remove(s.drop_last(), i, id);
        assert(s.remove(i).drop_last() =~= s.drop_last().remove(i));
        assert(s.remove(i).last() == s.last());
    }
}

/// Template counts are a property of the cards alone, so a permutation
/// keeps them.
proof fn lemma_count_across_permutation(s1: Seq<LootCard>, s2: Seq<LootCard>, id: Seq<char>)
    requires
        s1.to_multiset() == s2.to_multiset(),
    ensures
        count_matching(s1, id) == count_matching(s2, id),
    decreases s1.len(),
{
    s1.to_multiset_ensures();
    s2.to_multiset_ensures();
    if s1.len() == 0 {
        assert(s2.len() == 0);
    } else {
        let x = s1.last();
        assert(s1.contains(x));
        assert(s2.to_multiset().count(x) > 0);
        assert(s2.contains(x));
        let j = choose|j: int| 0 <= j < s2.len() && s2[j] == x;
        assert(s1.drop_last() =~= s1.remove(s1.len() - 1));
        assert(s1.remove(s1.len() - 1).to_multiset() =~= s1.to_multiset().remove(x));
        assert(s2.remove(j).to_multiset() =~= s2.to_multiset().remove(x));
        lemma_count_across_permutation(s1.drop_last(), s2.remove(j), id);
        lemma_count_remove(s2, j, id);
    }
}

/// The static card table, loaded once at process start and immutable
/// afterwards.
#[derive(Debug, Clone)]
pub struct Database {
    pub loot_templates: Vec<CardTemplate>,
}

impl Database {
    pub fn new(loot_templates: Vec<CardTemplate>) -> (r: Database)
        ensures
            r.loot_templates == loot_templates,
    {
        Database { loot_templates }
    }

    /// Expands every template into `count` card instances and shuffles
    /// the result: the deck holds exactly the catalogue's total count of
    /// cards, each an instance of one of its templates.
    pub fn create_loot_deck(&self) -> (r: Vec<LootCard>)
        requires
            spec_total_count(self.loot_templates@) <= usize::MAX,
            forall|a: int, b: int|
                0 <= a < b < self.loot_templates@.len() ==> (#[trigger] self.loot_templates@[a]).id@
                    != (#[trigger] self.loot_templates@[b]).id@,
        ensures
            r@.len() == spec_total_count(self.loot_templates@),
            forall|i: int|
                0 <= i < r@.len() ==> card_from_catalogue(#[trigger] r@[i], self.loot_templates@),
            forall|t: int|
                0 <= t < self.loot_templates@.len() ==> count_matching(
                    r@,
                    (#[trigger] self.loot_templates@[t]).id@,
                ) == self.loot_templates@[t].count,
    {
        let mut deck: Vec<LootCard> = Vec::new();
        let n = self.loot_templates.len();
        let mut t: usize = 0;
        while t < n
            invariant
                t <= n,
                n == self.loot_templates@.len(),
                spec_total_count(self.loot_templates@) <= usize::MAX,
                forall|a: int, b: int|
                    0 <= a < b < self.loot_templates@.len() ==> (
                    #[trigger] self.loot_templates@[a]).id@ != (
                    #[trigger] self.loot_templates@[b]).id@,
                deck@.len() == spec_total_count(self.loot_templates@.take(t as int)),
                forall|i: int|
                    0 <= i < deck@.len() ==> card_from_catalogue(
                        #[trigger] deck@[i],
                        self.loot_templates@,
                    ),
                forall|ti: int|
                    0 <= ti < n ==> count_matching(
                        deck@,
                        (#[trigger] self.loot_templates@[ti]).id@,
                    ) == if ti < t {
                        self.loot_templates@[ti].count as int
                    } else {
                        0int
                    },
            decreases n - t,
        {
            proof {
                lemma_total_count_take_step(self.loot_templates@, t as int);
                lemma_total_count_take_bound(self.loot_templates@, t as int + 1);
            }
            let template = &self.loot_templates[t];
            let mut c: u32 = 0;
            while c < template.count
                invariant
                    c <= template.count,
                    t < n,
                    n == self.loot_templates@.len(),
                    template == self.loot_templates@[t as int],
                    forall|a: int, b: int|
                        0 <= a < b < self.loot_templates@.len() ==> (
                        #[trigger] self.loot_templates@[a]).id@ != (
                        #[trigger] self.loot_templates@[b]).id@,
                    deck@.len() == spec_total_count(self.loot_templates@.take(t as int)) + c,
                    spec_total_count(self.loot_templates@.take(t as int)) + template.count
                        <= usize::MAX,
                    forall|i: int|
                        0 <= i < deck@.len() ==> card_from_catalogue(
                            #[trigger] deck@[i],
                            self.loot_templates@,
                        ),
                    forall|ti: int|
                        0 <= ti < n ==> count_matching(
                            deck@,
                            (#[trigger] self.loot_templates@[ti]).id@,
                        ) == if ti < t {
                            self.loot_templates@[ti].count as int
                        } else if ti == t {
                            c as int
                        } else {
                            0int
                        },
                decreases template.count - c,
            {
                let card = LootCard {
                    card: Card {
                        entity_id: fresh_id(),
                        template_id: template.id.clone(),
                        name: template.name.clone(),
                        description: template.description.clone(),
                        zone: Zone::LootDeck,
                        card_type: CardType::Loot,
                        owner_id: String::new(),
                        subtype: template.subtype.clone(),
                    },
                };
                proof {
                    assert(card_from_template(card, self.loot_templates@[t as int]));
                }
                let ghost deck_pre = deck@;
                let ghost card_snap = card;
                deck.push(card);
                proof {
                    assert forall|ti: int| 0 <= ti < n as int implies count_matching(
                        deck@,
                        (#[trigger] self.loot_templates@[ti]).id@,
                    ) == count_matching(deck_pre, self.loot_templates@[ti].id@) + if ti
                        == t as int {
                        1int
                    } else {
                        0int
                    } by {
                        lemma_count_push(deck_pre, card_snap, self.loot_templates@[ti].id@);
                        if ti != t as int && card_snap.card.template_id@
                            == self.loot_templates@[ti].id@ {
                            assert(self.loot_templates@[t as int].id@
                                == self.loot_templates@[ti].id@);
                            assert(false);
                        }
                    }
                }
                c = c + 1;
            }
            t = t + 1;
        }
        proof {
            assert(self.loot_templates@.take(n as int) =~= self.loot_templates@);
        }
        let ghost pre_shuffle = deck@;
        shuffle_vec(&mut deck);
        proof {
            pre_shuffle.to_multiset_ensures();
            deck@.to_multiset_ensures();
            assert forall|i: int| 0 <= i < deck@.len() implies card_from_catalogue(
                #[trigger] deck@[i],
                self.loot_templates@,
            ) by {
                assert(deck@.contains(deck@[i]));
                assert(deck@.to_multiset().count(deck@[i]) > 0);
                assert(pre_shuffle.contains(deck@[i]));
                let j = choose|j: int| 0 <= j < pre_shuffle.len() && pre_shuffle[j] == deck@[i];
                assert(card_from_catalogue(pre_shuffle[j], self.loot_templates@));
            }
            assert forall|ti: int| 0 <= ti < self.loot_templates@.len() implies count_matching(
                deck@,
                (#[trigger] self.loot_templates@[ti]).id@,
            ) == self.loot_templates@[ti].count by {
                lemma_count_across_permutation(
                    pre_shuffle,
                    deck@,
                    self.loot_templates@[ti].id@,
                );
            }
        }
        deck
    }
}

proof fn lemma_total_count_take_step(templates: Seq<CardTemplate>, t: int)
    requires
        0 <= t < templates.len(),
    ensures
        spec_total_count(templates.take(t + 1)) == spec_total_count(templates.take(t))
            + templates[t].count,
{
    assert(templates.take(t + 1).drop_last() =~= templates.take(t));
    assert(templates.take(t + 1).last() == templates[t]);
}

proof fn lemma_total_count_take_bound(templates: Seq<CardTemplate>, t: int)
    requires
        0 <= t <= templates.len(),
    ensures
        spec_total_count(templates.take(t)) <= spec_total_count(templates),
    decreases templates.len() - t,
{
    if t == templates.len() {
        assert(templates.take(t) =~= templates);
    } else {
        lemma_total_count_take_step(templates, t);
        lemma_total_count_take_bound(templates, t + 1);
    }
}

} // verus!
