//! The session cache: bearer token to session, each entry with an optional
//! time to live that the backing store enforces.

use vstd::prelude::*;
use crate::session::Session;

verus! {

/// One cached session under its key.
pub struct CacheEntry {
    pub key: String,
    pub session: Session,
    pub ttl: Option<u32>,
}

/// A map from token text to the session cached under it and its time to
/// live. Keys are unique among the entries.
pub struct SessionCache {
    entries: Vec<CacheEntry>,
    contents: Ghost<Map<Seq<char>, (Session, Option<u32>)>>,
}

impl View for SessionCache {
    type V = Map<Seq<char>, (Session, Option<u32>)>;

    closed spec fn view(&self) -> Self::V {
        self.contents@
    }
}

impl SessionCache {
    /// The entries and the map agree, and no key is held twice.
    pub closed spec fn wf(&self) -> bool {
        &&& forall|i: int|
            0 <= i < self.entries@.len() ==> #[trigger] self.contents@.contains_key(
                self.entries@[i].key@,
            ) && self.contents@[self.entries@[i].key@] == (
                self.entries@[i].session,
                self.entries@[i].ttl,
            )
        &&& forall|i: int, j: int|
            0 <= i < j < self.entries@.len() ==> #[trigger] self.entries@[i].key@
                != #[trigger] self.entries@[j].key@
        &&& forall|k: Seq<char>|
            #[trigger] self.contents@.contains_key(k) ==> exists|i: int|
                0 <= i < self.entries@.len() && #[trigger] self.entries@[i].key@ == k
    }

    pub fn new() -> (r: SessionCache)
        ensures
            r.wf(),
            r@ == Map::<Seq<char>, (Session, Option<u32>)>::empty(),
    {
        SessionCache { entries: Vec::new(), contents: Ghost(Map::empty()) }
    }

    /// The index of the entry under `key`, if there is one.
    fn position(&self, key: &String) -> (r: Option<usize>)
        requires
            self.wf(),
        ensures
            r is None <==> !self@.contains_key(key@),
            r matches Some(i) ==> i < self.entries@.len() && self.entries@[i as int].key@ == key@,
    {
        let mut i: usize = 0;
        while i < self.entries.len()
            invariant
                self.wf(),
                i <= self.entries@.len(),
                forall|j: int| 0 <= j < i ==> #[trigger] self.entries@[j].key@ != key@,
            decreases self.entries@.len() - i,
        {
            if self.entries[i].key == *key {
                assert(self.contents@.contains_key(self.entries@[i as int].key@));
                return Some(i);
            }
            i = i + 1;
        }
        proof {
            if self@.contains_key(key@) {
                let k = choose|j: int|
                    0 <= j < self.entries@.len() && #[trigger] self.entries@[j].key@ == key@;
                assert(self.entries@[k].key@ != key@);
            }
        }
        None
    }

    /// The session cached under `key`, if any.
    pub fn get(&self, key: &str) -> (r: Option<Session>)
        requires
            self.wf(),
        ensures
            r == (if self@.contains_key(key@) {
                Some(self@[key@].0)
            } else {
                None
            }),
    {
        let k = key.to_owned();
        match self.position(&k) {
            None => None,
            Some(i) => {
                assert(self.contents@.contains_key(self.entries@[i as int].key@));
                Some(self.entries[i].session.duplicate())
            },
        }
    }

    /// The time to live of the entry under `key`, if there is one.
    pub fn ttl(&self, key: &str) -> (r: Option<Option<u32>>)
        requires
            self.wf(),
        ensures
            r == (if self@.contains_key(key@) {
                Some(self@[key@].1)
            } else {
                None
            }),
    {
        let k = key.to_owned();
        match self.position(&k) {
            None => None,
            Some(i) => {
                assert(self.contents@.contains_key(self.entries@[i as int].key@));
                Some(self.entries[i].ttl)
            },
        }
    }

    /// Caches `session` under `key`, replacing what was there.
    pub fn set(&mut self, key: &str, session: Session, ttl: Option<u32>)
        requires
            old(self).wf(),
        ensures
            final(self).wf(),
            final(self)@ == old(self)@.insert(key@, (session, ttl)),
    {
        let k = key.to_owned();
        let ghost prev = self.entries@;
        let pos = self.position(&k);
        let entry = CacheEntry { key: k, session, ttl };
        self.contents = Ghost(self.contents@.insert(key@, (session, ttl)));
        match pos {
            Some(i) => {
                self.entries.set(i, entry);
                assert forall|j: int| 0 <= j < self.entries@.len() implies #[trigger] self.contents@.contains_key(
                    self.entries@[j].key@,
                ) && self.contents@[self.entries@[j].key@] == (
                    self.entries@[j].session,
                    self.entries@[j].ttl,
                ) by {
                    if j != i {
                        assert(prev[j].key@ != key@);
                    }
                }
                assert forall|kk: Seq<char>| #[trigger] self.contents@.contains_key(kk) implies exists|
                    j: int,
                | 0 <= j < self.entries@.len() && #[trigger] self.entries@[j].key@ == kk by {
                    if kk == key@ {
                        assert(self.entries@[i as int].key@ == kk);
                    } else {
                        assert(old(self).contents@.contains_key(kk));
                        let j = choose|j: int|
                            0 <= j < prev.len() && #[trigger] prev[j].key@ == kk;
                        assert(self.entries@[j].key@ == kk);
                    }
                }
            },
            None => {
                self.entries.push(entry);
                let ghost n = prev.len() as int;
                assert forall|j: int| 0 <= j < self.entries@.len() implies #[trigger] self.contents@.contains_key(
                    self.entries@[j].key@,
                ) && self.contents@[self.entries@[j].key@] == (
                    self.entries@[j].session,
                    self.entries@[j].ttl,
                ) by {
                    if j < n {
                        assert(prev[j] == self.entries@[j]);
                        assert(old(self).contents@.contains_key(prev[j].key@));
                    }
                }
                assert forall|a: int, b: int|
                    0 <= a < b < self.entries@.len() implies #[trigger] self.entries@[a].key@
                    != #[trigger] self.entries@[b].key@ by {
                    if b == n {
                        assert(old(self).contents@.contains_key(prev[a].key@));
                    }
                }
                assert forall|kk: Seq<char>| #[trigger] self.contents@.contains_key(kk) implies exists|
                    j: int,
                | 0 <= j < self.entries@.len() && #[trigger] self.entries@[j].key@ == kk by {
                    if kk == key@ {
                        assert(self.entries@[n].key@ == kk);
                    } else {
                        assert(old(self).contents@.contains_key(kk));
                        let j = choose|j: int|
                            0 <= j < prev.len() && #[trigger] prev[j].key@ == kk;
                        assert(self.entries@[j].key@ == kk);
                    }
                }
            },
        }
    }
}

} // verus!
