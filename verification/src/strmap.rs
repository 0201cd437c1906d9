//! Verified string-keyed containers.
//!
//! Every directory in the server — room membership, connection indices,
//! per-player state — is keyed by an opaque identifier string. `StrMap`
//! stores such bindings as an association vector with unique keys and is
//! specified against a mathematical `Map<Seq<char>, V>`; `StrSet` is the
//! set analogue.

use vstd::prelude::*;
use crate::text::str_eq;

verus! {

/// What a sequence of key views and a parallel sequence of values denote
/// as a mathematical map. Later entries shadow earlier ones, which never
/// happens in a well-formed container.
pub open spec fn map_of<V>(ks: Seq<Seq<char>>, vs: Seq<V>) -> Map<Seq<char>, V>
    decreases ks.len(),
{
    if ks.len() == 0 {
        Map::empty()
    } else {
        map_of(ks.drop_last(), vs.drop_last()).insert(ks.last(), vs.last())
    }
}

proof fn lemma_map_of_dom<V>(ks: Seq<Seq<char>>, vs: Seq<V>)
    requires
        ks.len() == vs.len(),
    ensures
        forall|k: Seq<char>| map_of(ks, vs).dom().contains(k) <==> ks.contains(k),
        map_of(ks, vs).dom().finite(),
    decreases ks.len(),
{
    if ks.len() > 0 {
        lemma_map_of_dom(ks.drop_last(), vs.drop_last());
        assert forall|k: Seq<char>| map_of(ks, vs).dom().contains(k) implies ks.contains(k) by {
            if k == ks.last() {
                assert(ks[ks.len() - 1] == k);
            } else {
                assert(ks.drop_last().contains(k));
                let i = choose|i: int| 0 <= i < ks.drop_last().len() && ks.drop_last()[i] == k;
                assert(ks[i] == k);
            }
        }
        assert forall|k: Seq<char>| ks.contains(k) implies map_of(ks, vs).dom().contains(k) by {
            let i = choose|i: int| 0 <= i < ks.len() && ks[i] == k;
            if i < ks.len() - 1 {
                assert(ks.drop_last()[i] == k);
                assert(ks.drop_last().contains(k));
            }
        }
    }
}

proof fn lemma_map_of_index<V>(ks: Seq<Seq<char>>, vs: Seq<V>, i: int)
    requires
        ks.len() == vs.len(),
        ks.no_duplicates(),
        0 <= i < ks.len(),
    ensures
        map_of(ks, vs).dom().contains(ks[i]),
        map_of(ks, vs)[ks[i]] == vs[i],
    decreases ks.len(),
{
    lemma_map_of_dom(ks, vs);
    if i == ks.len() - 1 {
    } else {
        lemma_map_of_index(ks.drop_last(), vs.drop_last(), i);
        assert(ks[i] != ks.last());
    }
}

proof fn lemma_map_of_len<V>(ks: Seq<Seq<char>>, vs: Seq<V>)
    requires
        ks.len() == vs.len(),
        ks.no_duplicates(),
    ensures
        map_of(ks, vs).dom().len() == ks.len(),
    decreases ks.len(),
{
    lemma_map_of_dom(ks, vs);
    if ks.len() > 0 {
        lemma_map_of_len(ks.drop_last(), vs.drop_last());
        lemma_map_of_dom(ks.drop_last(), vs.drop_last());
        assert(!ks.drop_last().contains(ks.last()));
        assert(!map_of(ks.drop_last(), vs.drop_last()).dom().contains(ks.last()));
    }
}

proof fn lemma_map_of_remove_at<V>(ks: Seq<Seq<char>>, vs: Seq<V>, i: int)
    requires
        ks.len() == vs.len(),
        ks.no_duplicates(),
        0 <= i < ks.len(),
    ensures
        map_of(ks.remove(i), vs.remove(i)) == map_of(ks, vs).remove(ks[i]),
    decreases ks.len(),
{
    lemma_map_of_dom(ks, vs);
    lemma_map_of_dom(ks.remove(i), vs.remove(i));
    if i == ks.len() - 1 {
        assert(ks.remove(i) =~= ks.drop_last());
        assert(vs.remove(i) =~= vs.drop_last());
        assert(!ks.drop_last().contains(ks.last()));
        lemma_map_of_dom(ks.drop_last(), vs.drop_last());
        assert(map_of(ks.drop_last(), vs.drop_last()) =~= map_of(ks, vs).remove(ks.last()));
    } else {
        lemma_map_of_remove_at(ks.drop_last(), vs.drop_last(), i);
        assert(ks.remove(i).drop_last() =~= ks.drop_last().remove(i));
        assert(vs.remove(i).drop_last() =~= vs.drop_last().remove(i));
        assert(ks.remove(i).last() == ks.last());
        assert(vs.remove(i).last() == vs.last());
        assert(ks[i] != ks.last());
        assert(map_of(ks.remove(i), vs.remove(i)) =~= map_of(ks, vs).remove(ks[i]));
    }
}

proof fn lemma_push_fresh_no_duplicates(ks: Seq<Seq<char>>, k: Seq<char>)
    requires
        ks.no_duplicates(),
        !ks.contains(k),
    ensures
        ks.push(k).no_duplicates(),
{
    let pushed = ks.push(k);
    assert forall|p: int, q: int|
        0 <= p < pushed.len() && 0 <= q < pushed.len() && p != q implies pushed[p]
            != pushed[q] by {
        if q == pushed.len() - 1 {
            assert(pushed[p] == ks[p]);
            if ks[p] == k {
                assert(ks.contains(k));
            }
        } else if p == pushed.len() - 1 {
            assert(pushed[q] == ks[q]);
            if ks[q] == k {
                assert(ks.contains(k));
            }
        }
    }
}

/// An association map from identifier strings to values, with unique keys.
#[derive(Debug)]
pub struct StrMap<V> {
    entries: Vec<(String, V)>,
}

impl<V> View for StrMap<V> {
    type V = Map<Seq<char>, V>;

    closed spec fn view(&self) -> Map<Seq<char>, V> {
        map_of(self.kseq(), self.vseq())
    }
}

impl<V> StrMap<V> {
    /// The key views, in storage order.
    pub closed spec fn kseq(&self) -> Seq<Seq<char>> {
        self.entries@.map_values(|e: (String, V)| e.0@)
    }

    /// The values, in storage order.
    pub closed spec fn vseq(&self) -> Seq<V> {
        self.entries@.map_values(|e: (String, V)| e.1)
    }

    /// Keys are pairwise distinct.
    pub open spec fn wf(&self) -> bool {
        self.kseq().no_duplicates()
    }

    /// Everything a caller needs to move between the stored order and the
    /// map view.
    pub proof fn lemma_view(&self)
        requires
            self.wf(),
        ensures
            self@.dom().finite(),
            self@.dom().len() == self.kseq().len(),
            self.kseq().len() == self.vseq().len(),
            forall|i: int|
                0 <= i < self.kseq().len() ==> self@.dom().contains(#[trigger] self.kseq()[i])
                    && self@[self.kseq()[i]] == self.vseq()[i],
            forall|k: Seq<char>| #[trigger] self@.dom().contains(k) ==> self.kseq().contains(k),
    {
        lemma_map_of_dom(self.kseq(), self.vseq());
        lemma_map_of_len(self.kseq(), self.vseq());
        assert forall|i: int| 0 <= i < self.kseq().len() implies self@.dom().contains(
            #[trigger] self.kseq()[i],
        ) && self@[self.kseq()[i]] == self.vseq()[i] by {
            lemma_map_of_index(self.kseq(), self.vseq(), i);
        }
    }

    pub fn new() -> (r: StrMap<V>)
        ensures
            r@ == Map::<Seq<char>, V>::empty(),
            r.wf(),
            r.kseq().len() == 0,
            r.vseq().len() == 0,
    {
        StrMap { entries: Vec::new() }
    }

    /// Number of stored entries, which equals the size of the map view.
    pub fn len(&self) -> (r: usize)
        requires
            self.wf(),
        ensures
            r == self@.dom().len(),
            r == self.kseq().len(),
    {
        proof {
            self.lemma_view();
        }
        self.entries.len()
    }

    pub fn is_empty(&self) -> (r: bool)
        requires
            self.wf(),
        ensures
            r == (self@.dom() == Set::<Seq<char>>::empty()),
    {
        proof {
            self.lemma_view();
            if self.kseq().len() == 0 {
                assert(self@.dom() =~= Set::<Seq<char>>::empty());
            } else {
                assert(self@.dom().contains(self.kseq()[0]));
            }
        }
        self.entries.len() == 0
    }

    fn find(&self, key: &str) -> (r: Option<usize>)
        ensures
            match r {
                Some(i) => i < self.kseq().len() && self.kseq()[i as int] == key@,
                None => !self.kseq().contains(key@),
            },
    {
        let n = self.entries.len();
        let mut i: usize = 0;
        while i < n
            invariant
                i <= n,
                n == self.kseq().len(),
                forall|j: int| 0 <= j < i ==> self.kseq()[j] != key@,
            decreases n - i,
        {
            if str_eq(self.entries[i].0.as_str(), key) {
                return Some(i);
            }
            i = i + 1;
        }
        None
    }

    pub fn contains_key(&self, key: &str) -> (r: bool)
        requires
            self.wf(),
        ensures
            r == self@.dom().contains(key@),
    {
        proof {
            self.lemma_view();
        }
        match self.find(key) {
            Some(_) => true,
            None => false,
        }
    }

    pub fn get(&self, key: &str) -> (r: Option<&V>)
        requires
            self.wf(),
        ensures
            match r {
                Some(v) => self@.dom().contains(key@) && *v == self@[key@],
                None => !self@.dom().contains(key@),
            },
    {
        proof {
            self.lemma_view();
        }
        match self.find(key) {
            Some(i) => Some(&self.entries[i].1),
            None => None,
        }
    }

    /// Binds `key` to `value`, replacing any earlier binding.
    pub fn insert(&mut self, key: String, value: V)
        requires
            old(self).wf(),
        ensures
            final(self).wf(),
            final(self)@ == old(self)@.insert(key@, value),
            !old(self)@.dom().contains(key@) ==> final(self).kseq() == old(self).kseq().push(key@)
                && final(self).vseq() == old(self).vseq().push(value),
    {
        proof {
            self.lemma_view();
        }
        let ghost old_ks = self.kseq();
        let ghost old_vs = self.vseq();
        match self.find(key.as_str()) {
            Some(i) => {
                proof {
                    lemma_map_of_remove_at(old_ks, old_vs, i as int);
                }
                self.entries.remove(i);
                proof {
                    assert(self.kseq() =~= old_ks.remove(i as int));
                    assert(self.vseq() =~= old_vs.remove(i as int));
                    assert(self.kseq().no_duplicates());
                    assert(!self.kseq().contains(key@));
                }
                let ghost mid_ks = self.kseq();
                let ghost mid_vs = self.vseq();
                self.entries.push((key, value));
                proof {
                    assert(self.kseq() =~= mid_ks.push(old_ks[i as int]));
                    assert(self.vseq() =~= mid_vs.push(value));
                    assert(self.kseq().drop_last() =~= mid_ks);
                    assert(self.vseq().drop_last() =~= mid_vs);
                    lemma_push_fresh_no_duplicates(mid_ks, old_ks[i as int]);
                    assert(self@ =~= old(self)@.insert(old_ks[i as int], value));
                }
            },
            None => {
                self.entries.push((key, value));
                proof {
                    assert(self.kseq() =~= old_ks.push(key@));
                    assert(self.vseq() =~= old_vs.push(value));
                    assert(self.kseq().drop_last() =~= old_ks);
                    assert(self.vseq().drop_last() =~= old_vs);
                    assert(self.kseq().last() == key@);
                    lemma_push_fresh_no_duplicates(old_ks, key@);
                    assert(self@ =~= old(self)@.insert(key@, value));
                }
            },
        }
    }

    /// Removes the binding for `key`, returning its value if there was one.
    pub fn remove(&mut self, key: &str) -> (r: Option<V>)
        requires
            old(self).wf(),
        ensures
            final(self).wf(),
            final(self)@ == old(self)@.remove(key@),
            match r {
                Some(v) => old(self)@.dom().contains(key@) && v == old(self)@[key@],
                None => !old(self)@.dom().contains(key@),
            },
            old(self)@.dom().contains(key@) ==> exists|i: int|
                0 <= i < old(self).kseq().len() && #[trigger] old(self).kseq()[i] == key@
                    && final(self).kseq() == old(self).kseq().remove(i)
                    && final(self).vseq() == old(self).vseq().remove(i),
            !old(self)@.dom().contains(key@) ==> *final(self) == *old(self),
    {
        proof {
            self.lemma_view();
        }
        let ghost old_ks = self.kseq();
        let ghost old_vs = self.vseq();
        match self.find(key) {
            Some(i) => {
                proof {
                    lemma_map_of_remove_at(old_ks, old_vs, i as int);
                    lemma_map_of_index(old_ks, old_vs, i as int);
                }
                let entry = self.entries.remove(i);
                proof {
                    assert(self.kseq() =~= old_ks.remove(i as int));
                    assert(self.vseq() =~= old_vs.remove(i as int));
                }
                Some(entry.1)
            },
            None => {
                proof {
                    assert(self@ =~= old(self)@.remove(key@));
                }
                None
            },
        }
    }

    /// The key at a storage position; lets callers walk the map.
    pub fn key_at(&self, i: usize) -> (r: &String)
        requires
            i < self.kseq().len(),
        ensures
            r@ == self.kseq()[i as int],
    {
        &self.entries[i].0
    }

    /// The value at a storage position.
    pub fn value_at(&self, i: usize) -> (r: &V)
        requires
            i < self.vseq().len(),
        ensures
            *r == self.vseq()[i as int],
    {
        &self.entries[i].1
    }

    /// All keys, cloned, in storage order.
    pub fn keys(&self) -> (r: Vec<String>)
        requires
            self.wf(),
        ensures
            r@.len() == self.kseq().len(),
            forall|i: int| 0 <= i < r@.len() ==> r@[i]@ == self.kseq()[i],
    {
        let n = self.entries.len();
        let mut out: Vec<String> = Vec::new();
        let mut i: usize = 0;
        while i < n
            invariant
                i <= n,
                n == self.kseq().len(),
                out@.len() == i,
                forall|j: int| 0 <= j < i ==> out@[j]@ == self.kseq()[j],
            decreases n - i,
        {
            out.push(self.entries[i].0.clone());
            i = i + 1;
        }
        out
    }
}

impl StrMap<String> {
    /// An exact copy of a map of strings: same keys, same values, in
    /// the same order.
    pub fn duplicate(&self) -> (r: StrMap<String>)
        ensures
            r@ == self@,
            r.kseq() == self.kseq(),
            r.vseq() == self.vseq(),
    {
        let n = self.entries.len();
        let mut entries: Vec<(String, String)> = Vec::new();
        let mut i: usize = 0;
        while i < n
            invariant
                i <= n,
                n == self.entries@.len(),
                entries@.len() == i,
                forall|j: int| 0 <= j < i ==> #[trigger] entries@[j] == self.entries@[j],
            decreases n - i,
        {
            entries.push((self.entries[i].0.clone(), self.entries[i].1.clone()));
            i = i + 1;
        }
        let r = StrMap { entries };
        proof {
            assert(r.kseq() =~= self.kseq());
            assert(r.vseq() =~= self.vseq());
        }
        r
    }
}

/// A set of identifier strings, stored without duplicates.
#[derive(Debug)]
pub struct StrSet {
    items: Vec<String>,
}

impl View for StrSet {
    type V = Set<Seq<char>>;

    closed spec fn view(&self) -> Set<Seq<char>> {
        self.iseq().to_set()
    }
}

impl StrSet {
    /// The element views, in storage order.
    pub closed spec fn iseq(&self) -> Seq<Seq<char>> {
        self.items@.map_values(|s: String| s@)
    }

    pub open spec fn wf(&self) -> bool {
        self.iseq().no_duplicates()
    }

    /// Connects the stored order with the set view.
    pub proof fn lemma_view(&self)
        requires
            self.wf(),
        ensures
            self@.finite(),
            self@.len() == self.iseq().len(),
            forall|i: int| 0 <= i < self.iseq().len() ==> self@.contains(#[trigger] self.iseq()[i]),
            forall|k: Seq<char>| #[trigger] self@.contains(k) ==> self.iseq().contains(k),
    {
        self.iseq().unique_seq_to_set();
    }

    pub fn new() -> (r: StrSet)
        ensures
            r@ == Set::<Seq<char>>::empty(),
            r.wf(),
            r.iseq().len() == 0,
    {
        proof {
            let items = Seq::<Seq<char>>::empty();
            assert(items.to_set() =~= Set::<Seq<char>>::empty());
        }
        StrSet { items: Vec::new() }
    }

    pub fn len(&self) -> (r: usize)
        requires
            self.wf(),
        ensures
            r == self@.len(),
            r == self.iseq().len(),
    {
        proof {
            self.lemma_view();
        }
        self.items.len()
    }

    pub fn is_empty(&self) -> (r: bool)
        requires
            self.wf(),
        ensures
            r == (self@ == Set::<Seq<char>>::empty()),
    {
        proof {
            self.lemma_view();
            if self.iseq().len() == 0 {
                assert(self@ =~= Set::<Seq<char>>::empty());
            } else {
                assert(self@.contains(self.iseq()[0]));
            }
        }
        self.items.len() == 0
    }

    fn find(&self, item: &str) -> (r: Option<usize>)
        ensures
            match r {
                Some(i) => i < self.iseq().len() && self.iseq()[i as int] == item@,
                None => !self.iseq().contains(item@),
            },
    {
        let n = self.items.len();
        let mut i: usize = 0;
        while i < n
            invariant
                i <= n,
                n == self.iseq().len(),
                forall|j: int| 0 <= j < i ==> self.iseq()[j] != item@,
            decreases n - i,
        {
            if str_eq(self.items[i].as_str(), item) {
                return Some(i);
            }
            i = i + 1;
        }
        None
    }

    pub fn contains(&self, item: &str) -> (r: bool)
        requires
            self.wf(),
        ensures
            r == self@.contains(item@),
    {
        proof {
            self.lemma_view();
        }
        match self.find(item) {
            Some(_) => true,
            None => false,
        }
    }

    /// Adds an element; adding one already present changes nothing.
    pub fn insert(&mut self, item: String)
        requires
            old(self).wf(),
        ensures
            final(self).wf(),
            final(self)@ == old(self)@.insert(item@),
            old(self)@.contains(item@) ==> *final(self) == *old(self),
    {
        proof {
            self.lemma_view();
        }
        let ghost old_is = self.iseq();
        match self.find(item.as_str()) {
            Some(_) => {
                proof {
                    assert(self@.contains(item@));
                    assert(self@ =~= old(self)@.insert(item@));
                }
            },
            None => {
                let ghost item_view = item@;
                self.items.push(item);
                proof {
                    assert(self.iseq() =~= old_is.push(item_view));
                    lemma_push_fresh_no_duplicates(old_is, item_view);
                    assert forall|k: Seq<char>| self@.contains(k) implies old(self)@.insert(
                        item_view,
                    ).contains(k) by {
                        let j = choose|j: int|
                            0 <= j < self.iseq().len() && self.iseq()[j] == k;
                        if j < old_is.len() {
                            assert(old_is[j] == k);
                            assert(old_is.contains(k));
                        }
                    }
                    assert forall|k: Seq<char>| old(self)@.insert(item_view).contains(
                        k,
                    ) implies self@.contains(k) by {
                        if k == item_view {
                            assert(self.iseq()[self.iseq().len() - 1] == k);
                        } else {
                            let j = choose|j: int| 0 <= j < old_is.len() && old_is[j] == k;
                            assert(self.iseq()[j] == k);
                        }
                        assert(self.iseq().contains(k));
                    }
                    assert(self@ =~= old(self)@.insert(item_view));
                }
            },
        }
    }

    /// Removes an element if present.
    pub fn remove(&mut self, item: &str)
        requires
            old(self).wf(),
        ensures
            final(self).wf(),
            final(self)@ == old(self)@.remove(item@),
            !old(self)@.contains(item@) ==> *final(self) == *old(self),
            final(self).iseq().len() <= old(self).iseq().len(),
    {
        proof {
            self.lemma_view();
        }
        let ghost old_is = self.iseq();
        match self.find(item) {
            Some(i) => {
                self.items.remove(i);
                proof {
                    assert(self.iseq() =~= old_is.remove(i as int));
                    self.lemma_view();
                    assert forall|k: Seq<char>| self@.contains(k) implies old(self)@.remove(
                        item@,
                    ).contains(k) by {
                        let j = choose|j: int|
                            0 <= j < self.iseq().len() && self.iseq()[j] == k;
                        if j < i {
                            assert(old_is[j] == k);
                        } else {
                            assert(old_is[j + 1] == k);
                        }
                        assert(old_is.contains(k));
                        assert(k != item@);
                    }
                    assert forall|k: Seq<char>| old(self)@.remove(item@).contains(k) implies self@
                        .contains(k) by {
                        let j = choose|j: int| 0 <= j < old_is.len() && old_is[j] == k;
                        assert(j != i);
                        if j < i {
                            assert(self.iseq()[j] == k);
                        } else {
                            assert(self.iseq()[j - 1] == k);
                        }
                        assert(self.iseq().contains(k));
                    }
                    assert(self@ =~= old(self)@.remove(item@));
                }
            },
            None => {
                proof {
                    assert(self@ =~= old(self)@.remove(item@));
                }
            },
        }
    }

    /// An exact copy of the set: same elements, same order.
    pub fn duplicate(&self) -> (r: StrSet)
        ensures
            r@ == self@,
            r.iseq() == self.iseq(),
    {
        let n = self.items.len();
        let mut items: Vec<String> = Vec::new();
        let mut i: usize = 0;
        while i < n
            invariant
                i <= n,
                n == self.items@.len(),
                items@.len() == i,
                forall|j: int| 0 <= j < i ==> #[trigger] items@[j] == self.items@[j],
            decreases n - i,
        {
            items.push(self.items[i].clone());
            i = i + 1;
        }
        let r = StrSet { items };
        proof {
            assert(r.iseq() =~= self.iseq());
        }
        r
    }

    /// The element at a storage position.
    pub fn item_at(&self, i: usize) -> (r: &String)
        requires
            i < self.iseq().len(),
        ensures
            r@ == self.iseq()[i as int],
    {
        &self.items[i]
    }

    /// All elements, cloned, in storage order.
    pub fn to_vec(&self) -> (r: Vec<String>)
        requires
            self.wf(),
        ensures
            r@.len() == self.iseq().len(),
            forall|i: int| 0 <= i < r@.len() ==> r@[i]@ == self.iseq()[i],
    {
        let n = self.items.len();
        let mut out: Vec<String> = Vec::new();
        let mut i: usize = 0;
        while i < n
            invariant
                i <= n,
                n == self.iseq().len(),
                out@.len() == i,
                forall|j: int| 0 <= j < i ==> out@[j]@ == self.iseq()[j],
            decreases n - i,
        {
            out.push(self.items[i].clone());
            i = i + 1;
        }
        out
    }
}

} // verus!
