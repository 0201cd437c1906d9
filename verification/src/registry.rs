//! The actor registry's index: which games and connections have a live
//! inbox, and which game each connection is bound to. The invariant is
//! that a bound connection and its game both have live inboxes; the
//! holder of the inbox handles performs sends and spawns, guided by the
//! routing decisions made here.

use vstd::prelude::*;
use crate::errors::{AppError, AppResult};
use crate::strmap::{StrMap, StrSet};

verus! {

#[derive(Debug)]
pub struct ActorRegistry {
    pub game_ids: StrSet,
    pub connection_ids: StrSet,
    pub connection_to_game_mapping: StrMap<String>,
}

impl ActorRegistry {
    /// Registry consistency: a connection bound to a game has a live
    /// connection inbox, and the game a live game inbox.
    pub open spec fn wf(&self) -> bool {
        &&& self.game_ids.wf()
        &&& self.connection_ids.wf()
        &&& self.connection_to_game_mapping.wf()
        &&& forall|c: Seq<char>| #[trigger] self.connection_to_game_mapping@.dom().contains(c)
            ==> self.connection_ids@.contains(c) && self.game_ids@.contains(
                self.connection_to_game_mapping@[c]@,
            )
    }

    pub fn new() -> (r: ActorRegistry)
        ensures
            r.wf(),
            r.game_ids@ == Set::<Seq<char>>::empty(),
            r.connection_ids@ == Set::<Seq<char>>::empty(),
            r.connection_to_game_mapping@ == Map::<Seq<char>, String>::empty(),
    {
        ActorRegistry {
            game_ids: StrSet::new(),
            connection_ids: StrSet::new(),
            connection_to_game_mapping: StrMap::new(),
        }
    }

    /// Records a live connection actor.
    pub fn register_connection_actor(&mut self, connection_id: String)
        requires
            old(self).wf(),
        ensures
            final(self).wf(),
            final(self).connection_ids@ == old(self).connection_ids@.insert(connection_id@),
            final(self).game_ids == old(self).game_ids,
            final(self).connection_to_game_mapping == old(self).connection_to_game_mapping,
    {
        self.connection_ids.insert(connection_id);
    }

    /// Installs a game's inbox and binds every participating connection
    /// to it. Each participant must already have a live connection
    /// actor.
    pub fn start_game_actor(&mut self, game_id: String, players_id_to_connection_id: &StrMap<
        String,
    >)
        requires
            old(self).wf(),
            players_id_to_connection_id.wf(),
            forall|i: int|
                0 <= i < players_id_to_connection_id.vseq().len() ==> old(self).connection_ids@.contains(
                    (#[trigger] players_id_to_connection_id.vseq()[i])@,
                ),
        ensures
            final(self).wf(),
            final(self).game_ids@ == old(self).game_ids@.insert(game_id@),
            final(self).connection_ids == old(self).connection_ids,
            forall|i: int|
                0 <= i < players_id_to_connection_id.vseq().len() ==> final(self).connection_to_game_mapping@.dom().contains(
                    (#[trigger] players_id_to_connection_id.vseq()[i])@,
                ) && final(self).connection_to_game_mapping@[players_id_to_connection_id.vseq()[
                    i
                ]@]@ == game_id@,
            forall|c: Seq<char>|
                #[trigger] old(self).connection_to_game_mapping@.dom().contains(c) ==> final(self).connection_to_game_mapping@.dom().contains(c),
    {
        proof {
            players_id_to_connection_id.lemma_view();
        }
        self.game_ids.insert(game_id.clone());
        let n = players_id_to_connection_id.len();
        let mut i: usize = 0;
        while i < n
            invariant
                i <= n,
                players_id_to_connection_id.wf(),
                n == players_id_to_connection_id.vseq().len(),
                self.game_ids.wf(),
                self.game_ids@ == old(self).game_ids@.insert(game_id@),
                self.connection_ids == old(self).connection_ids,
                self.connection_to_game_mapping.wf(),
                forall|c: Seq<char>|
                    #[trigger] self.connection_to_game_mapping@.dom().contains(c)
                        ==> self.connection_ids@.contains(c) && self.game_ids@.contains(
                        self.connection_to_game_mapping@[c]@,
                    ),
                forall|i2: int|
                    0 <= i2 < players_id_to_connection_id.vseq().len() ==> old(self).connection_ids@.contains(
                        (#[trigger] players_id_to_connection_id.vseq()[i2])@,
                    ),
                forall|j: int|
                    0 <= j < i ==> self.connection_to_game_mapping@.dom().contains(
                        (#[trigger] players_id_to_connection_id.vseq()[j])@,
                    ) && self.connection_to_game_mapping@[players_id_to_connection_id.vseq()[j]@]@
                        == game_id@,
                forall|c: Seq<char>|
                    #[trigger] old(self).connection_to_game_mapping@.dom().contains(c)
                        ==> self.connection_to_game_mapping@.dom().contains(c),
            decreases n - i,
        {
            proof {
                players_id_to_connection_id.lemma_view();
            }
            let conn = players_id_to_connection_id.value_at(i).clone();
            self.connection_to_game_mapping.insert(conn, game_id.clone());
            i = i + 1;
        }
    }

    /// Decides where a game-bound message from this connection goes: to
    /// the game its connection is bound to, provided that game's inbox
    /// is live.
    pub fn route_game_message(&self, connection_id: &str) -> (r: AppResult<String>)
        requires
            self.wf(),
        ensures
            match r {
                Ok(gid) => self.connection_to_game_mapping@.dom().contains(connection_id@) && gid@
                    == self.connection_to_game_mapping@[connection_id@]@ && self.game_ids@.contains(
                    gid@,
                ),
                Err(e) => !self.connection_to_game_mapping@.dom().contains(connection_id@) && e
                    == AppError::ConnectionNotInRoom,
            },
    {
        match self.connection_to_game_mapping.get(connection_id) {
            None => Err(AppError::ConnectionNotInRoom),
            Some(game_id) => Ok(game_id.clone()),
        }
    }

    /// Drops a game's inbox and unbinds every connection bound to it.
    /// Cleaning up a game that is already gone changes nothing, so the
    /// operation is idempotent.
    pub fn cleanup_game_actor(&mut self, game_id: &str)
        requires
            old(self).wf(),
        ensures
            final(self).wf(),
            cleanup_relation(*old(self), *final(self), game_id@),
    {
        self.game_ids.remove(game_id);
        proof {
            self.connection_to_game_mapping.lemma_view();
        }
        let mut stale: Vec<String> = Vec::new();
        let n = self.connection_to_game_mapping.len();
        let mut i: usize = 0;
        while i < n
            invariant
                i <= n,
                self.game_ids.wf(),
                self.game_ids@ == old(self).game_ids@.remove(game_id@),
                self.connection_ids == old(self).connection_ids,
                self.connection_to_game_mapping == old(self).connection_to_game_mapping,
                self.connection_to_game_mapping.wf(),
                n == self.connection_to_game_mapping.kseq().len(),
                forall|j: int|
                    0 <= j < stale@.len() ==> self.connection_to_game_mapping@.dom().contains(
                        (#[trigger] stale@[j])@,
                    ) && self.connection_to_game_mapping@[stale@[j]@]@ == game_id@,
                forall|j: int|
                    0 <= j < i && (#[trigger] self.connection_to_game_mapping.vseq()[j])@
                        == game_id@ ==> exists|q: int|
                        0 <= q < stale@.len() && (#[trigger] stale@[q])@
                            == self.connection_to_game_mapping.kseq()[j],
                forall|p: int, q: int|
                    0 <= p < q < stale@.len() ==> (#[trigger] stale@[p])@ != (#[trigger] stale@[q])@,
            decreases n - i,
        {
            proof {
                self.connection_to_game_mapping.lemma_view();
            }
            let ghost stale_before = stale@;
            let ghost key_view = self.connection_to_game_mapping.kseq()[i as int];
            let hit = crate::text::str_eq(
                self.connection_to_game_mapping.value_at(i).as_str(),
                game_id,
            );
            let mut listed = false;
            if hit {
                let key = self.connection_to_game_mapping.key_at(i).clone();
                proof {
                    assert(self.connection_to_game_mapping@.dom().contains(key_view));
                    assert(key@ == key_view);
                }
                listed = crate::text::vec_contains_str(&stale, key.as_str());
                if !listed {
                    stale.push(key);
                }
            }
            proof {
                assert forall|j: int|
                    0 <= j < i + 1 && (#[trigger] self.connection_to_game_mapping.vseq()[j])@
                        == game_id@ implies exists|q: int|
                    0 <= q < stale@.len() && (#[trigger] stale@[q])@
                        == self.connection_to_game_mapping.kseq()[j] by {
                    if j < i {
                        let q = choose|q: int|
                            0 <= q < stale_before.len() && (#[trigger] stale_before[q])@
                                == self.connection_to_game_mapping.kseq()[j];
                        assert(stale@[q]@ == self.connection_to_game_mapping.kseq()[j]);
                    } else {
                        if listed {
                            let q = choose|q: int|
                                0 <= q < stale_before.len() && (#[trigger] stale_before[q])@
                                    == key_view;
                            assert(stale@[q]@ == key_view);
                        } else {
                            assert(stale@[stale@.len() - 1]@ == key_view);
                        }
                    }
                }
            }
            i = i + 1;
        }
        let ghost before_removal = self.connection_to_game_mapping;
        let m = stale.len();
        let mut j: usize = 0;
        while j < m
            invariant
                j <= m,
                m == stale@.len(),
                self.game_ids.wf(),
                self.game_ids@ == old(self).game_ids@.remove(game_id@),
                self.connection_ids == old(self).connection_ids,
                self.connection_to_game_mapping.wf(),
                forall|q: int|
                    0 <= q < stale@.len() ==> before_removal@.dom().contains(
                        (#[trigger] stale@[q])@,
                    ) && before_removal@[stale@[q]@]@ == game_id@,
                forall|c: Seq<char>|
                    #[trigger] old(self).connection_to_game_mapping@.dom().contains(c) && old(
                        self,
                    ).connection_to_game_mapping@[c]@ == game_id@ ==> exists|q: int|
                        0 <= q < stale@.len() && (#[trigger] stale@[q])@ == c,
                forall|c: Seq<char>|
                    #[trigger] self.connection_to_game_mapping@.dom().contains(c)
                        == (before_removal@.dom().contains(c) && !exists|q: int|
                        0 <= q < j && (#[trigger] stale@[q])@ == c),
                forall|c: Seq<char>|
                    #[trigger] self.connection_to_game_mapping@.dom().contains(c)
                        ==> self.connection_to_game_mapping@[c] == before_removal@[c],
            decreases m - j,
        {
            let ghost pre = self.connection_to_game_mapping@;
            self.connection_to_game_mapping.remove(stale[j].as_str());
            proof {
                assert forall|c: Seq<char>|
                    #[trigger] self.connection_to_game_mapping@.dom().contains(c) == (
                before_removal@.dom().contains(c) && !exists|q: int|
                    0 <= q < j + 1 && (#[trigger] stale@[q])@ == c) by {
                    if self.connection_to_game_mapping@.dom().contains(c) {
                        assert(pre.dom().contains(c) && c != stale@[j as int]@);
                        if exists|q: int| 0 <= q < j + 1 && (#[trigger] stale@[q])@ == c {
                            let q = choose|q: int|
                                0 <= q < j + 1 && (#[trigger] stale@[q])@ == c;
                            assert(q < j);
                            assert(!pre.dom().contains(c));
                        }
                    } else {
                        if before_removal@.dom().contains(c) && !exists|q: int|
                            0 <= q < j + 1 && (#[trigger] stale@[q])@ == c {
                            assert(!exists|q: int| 0 <= q < j && (#[trigger] stale@[q])@ == c);
                            assert(pre.dom().contains(c));
                            assert(c != stale@[j as int]@);
                            assert(false);
                        }
                    }
                }
            }
            j = j + 1;
        }
        proof {
            assert forall|c: Seq<char>|
                #[trigger] self.connection_to_game_mapping@.dom().contains(c) == (old(self).connection_to_game_mapping@.dom().contains(c) && old(self).connection_to_game_mapping@[c]@ != game_id@) by {
                before_removal.lemma_view();
                if before_removal@.dom().contains(c) && before_removal@[c]@ == game_id@ {
                    let w = choose|w: int|
                        0 <= w < before_removal.kseq().len() && before_removal.kseq()[w] == c;
                    assert(before_removal.vseq()[w]@ == game_id@);
                    assert(exists|q: int|
                        0 <= q < stale@.len() && (#[trigger] stale@[q])@ == c);
                }
                if self.connection_to_game_mapping@.dom().contains(c) {
                    if exists|q: int| 0 <= q < stale@.len() && (#[trigger] stale@[q])@ == c {
                        let q = choose|q: int|
                            0 <= q < stale@.len() && (#[trigger] stale@[q])@ == c;
                        assert(before_removal@[c]@ == game_id@);
                    }
                }
            }
        }
    }

    /// Unbinds a connection entirely, reporting the game it was bound
    /// to, if any.
    pub fn remove_player_connection(&mut self, connection_id: &str) -> (r: Option<String>)
        requires
            old(self).wf(),
        ensures
            final(self).wf(),
            final(self).connection_ids@ == old(self).connection_ids@.remove(connection_id@),
            final(self).connection_to_game_mapping@ == old(self).connection_to_game_mapping@.remove(connection_id@),
            final(self).game_ids == old(self).game_ids,
            match r {
                Some(gid) => old(self).connection_to_game_mapping@.dom().contains(connection_id@)
                    && gid@ == old(self).connection_to_game_mapping@[connection_id@]@,
                None => !old(self).connection_to_game_mapping@.dom().contains(connection_id@),
            },
    {
        self.connection_ids.remove(connection_id);
        self.connection_to_game_mapping.remove(connection_id)
    }

    /// The game a connection is bound to, if any.
    pub fn get_connection_game(&self, connection_id: &str) -> (r: Option<String>)
        requires
            self.wf(),
        ensures
            match r {
                Some(gid) => self.connection_to_game_mapping@.dom().contains(connection_id@)
                    && gid@ == self.connection_to_game_mapping@[connection_id@]@,
                None => !self.connection_to_game_mapping@.dom().contains(connection_id@),
            },
    {
        match self.connection_to_game_mapping.get(connection_id) {
            Some(gid) => Some(gid.clone()),
            None => None,
        }
    }

    pub fn is_connection_in_game(&self, connection_id: &str) -> (r: bool)
        requires
            self.wf(),
        ensures
            r == self.connection_to_game_mapping@.dom().contains(connection_id@),
    {
        self.connection_to_game_mapping.contains_key(connection_id)
    }
}

/// Cleaning up a game twice is the same as cleaning it up once: after
/// the first cleanup nothing is bound to the game and its inbox is
/// gone, so the second changes nothing.
pub proof fn lemma_cleanup_idempotent(pre: ActorRegistry, mid: ActorRegistry, post: ActorRegistry, gid: Seq<char>)
    requires
        cleanup_relation(pre, mid, gid),
        cleanup_relation(mid, post, gid),
    ensures
        post.game_ids@ == mid.game_ids@,
        post.connection_ids == mid.connection_ids,
        post.connection_to_game_mapping@.dom() == mid.connection_to_game_mapping@.dom(),
        forall|c: Seq<char>| #[trigger] post.connection_to_game_mapping@.dom().contains(c)
            ==> post.connection_to_game_mapping@[c] == mid.connection_to_game_mapping@[c],
{
    assert(post.game_ids@ =~= mid.game_ids@);
    assert(post.connection_to_game_mapping@.dom() =~= mid.connection_to_game_mapping@.dom());
}

/// Registry consistency: a connection bound to a game has a live
/// connection inbox, and the game it is bound to has a live game inbox.
pub proof fn lemma_registry_consistency(reg: ActorRegistry, c: Seq<char>)
    requires
        reg.wf(),
        reg.connection_to_game_mapping@.dom().contains(c),
    ensures
        reg.connection_ids@.contains(c),
        reg.game_ids@.contains(reg.connection_to_game_mapping@[c]@),
{
}

/// What `cleanup_game_actor` ensures, as a relation between the states
/// before and after.
pub open spec fn cleanup_relation(pre: ActorRegistry, post: ActorRegistry, gid: Seq<char>) -> bool {
    &&& post.game_ids@ == pre.game_ids@.remove(gid)
    &&& post.connection_ids == pre.connection_ids
    &&& forall|c: Seq<char>| #[trigger] post.connection_to_game_mapping@.dom().contains(c) == (
        pre.connection_to_game_mapping@.dom().contains(c)
            && pre.connection_to_game_mapping@[c]@ != gid)
    &&& forall|c: Seq<char>| #[trigger] post.connection_to_game_mapping@.dom().contains(c)
        ==> post.connection_to_game_mapping@[c] == pre.connection_to_game_mapping@[c]
}

} // verus!
