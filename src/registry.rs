use vstd::prelude::*;

verus! {

/// A keyed table of live resources: at most one entry per key.
///
/// The entries are kept in insertion order; the table is seen from outside
/// as a map from key text to resource.
pub struct Registry<H> {
    entries: Vec<(String, H)>,
    model: Ghost<Map<Seq<char>, H>>,
}

impl<H> Registry<H> {
    /// The resources held, by key.
    pub closed spec fn view(&self) -> Map<Seq<char>, H> {
        self.model@
    }

    /// Every entry is in the map, every key of the map has an entry, and no
    /// key appears twice.
    pub closed spec fn wf(&self) -> bool {
        &&& forall|i: int|
            0 <= i < self.entries@.len() ==> #[trigger] self.model@.contains_key(
                self.entries@[i].0@,
            ) && self.model@[self.entries@[i].0@] == self.entries@[i].1
        &&& forall|k: Seq<char>|
            #[trigger] self.model@.contains_key(k) ==> exists|i: int|
                0 <= i < self.entries@.len() && #[trigger] self.entries@[i].0@ == k
        &&& forall|i: int, j: int|
            0 <= i < self.entries@.len() && 0 <= j < self.entries@.len() && i != j
                ==> #[trigger] self.entries@[i].0@ != #[trigger] self.entries@[j].0@
    }

    /// An empty table.
    pub fn new() -> (r: Self)
        ensures
            r.wf(),
            r@ == Map::<Seq<char>, H>::empty(),
    {
        Registry { entries: Vec::new(), model: Ghost(Map::empty()) }
    }

    /// Position of the entry under `key`, if there is one.
    fn find(&self, key: &String) -> (r: Option<usize>)
        requires
            self.wf(),
        ensures
            match r {
                Some(i) => i < self.entries@.len() && self.entries@[i as int].0@ == key@,
                None => !self@.contains_key(key@),
            },
    {
        let mut i: usize = 0;
        while i < self.entries.len()
            invariant
                self.wf(),
                i <= self.entries@.len(),
                forall|j: int| 0 <= j < i ==> #[trigger] self.entries@[j].0@ != key@,
            decreases self.entries@.len() - i,
        {
            if self.entries[i].0 == *key {
                return Some(i);
            }
            i = i + 1;
        }
        None
    }

    /// Whether a resource is held under `key`.
    pub fn contains_key(&self, key: &String) -> (r: bool)
        requires
            self.wf(),
        ensures
            r == self@.contains_key(key@),
    {
        match self.find(key) {
            Some(i) => true,
            None => false,
        }
    }

    /// The resource held under `key`, if any.
    pub fn get(&self, key: &String) -> (r: Option<&H>)
        requires
            self.wf(),
        ensures
            match r {
                Some(h) => self@.contains_key(key@) && *h == self@[key@],
                None => !self@.contains_key(key@),
            },
    {
        match self.find(key) {
            Some(i) => {
                proof {
                    assert(self.model@.contains_key(self.entries@[i as int].0@));
                }
                Some(&self.entries[i].1)
            },
            None => None,
        }
    }

    /// Adds `value` under `key` unless the key is already taken; a taken key
    /// keeps its resource and `value` is dropped. Returns whether it was
    /// added.
    pub fn insert_new(&mut self, key: String, value: H) -> (r: bool)
        requires
            old(self).wf(),
        ensures
            final(self).wf(),
            r == !old(self)@.contains_key(key@),
            final(self)@ == if r {
                old(self)@.insert(key@, value)
            } else {
                old(self)@
            },
    {
        match self.find(&key) {
            Some(_) => false,
            None => {
                let ghost k = key@;
                self.model = Ghost(self.model@.insert(k, value));
                self.entries.push((key, value));
                proof {
                    let n = self.entries@.len() - 1;
                    assert(self.entries@[n].0@ == k);
                    assert forall|kk: Seq<char>| #[trigger]
                        self.model@.contains_key(kk) implies exists|i: int|
                        0 <= i < self.entries@.len() && #[trigger] self.entries@[i].0@ == kk by {
                        if kk == k {
                            assert(self.entries@[n].0@ == kk);
                        } else {
                            assert(old(self).model@.contains_key(kk));
                            let i = choose|i: int|
                                0 <= i < old(self).entries@.len()
                                    && #[trigger] old(self).entries@[i].0@ == kk;
                            assert(self.entries@[i].0@ == kk);
                        }
                    }
                    assert forall|i: int|
                        0 <= i < self.entries@.len() implies #[trigger] self.model@.contains_key(
                        self.entries@[i].0@,
                    ) && self.model@[self.entries@[i].0@] == self.entries@[i].1 by {
                        if i < n {
                            assert(old(self).model@.contains_key(old(self).entries@[i].0@));
                        }
                    }
                    assert forall|i: int, j: int|
                        0 <= i < self.entries@.len() && 0 <= j < self.entries@.len() && i != j
                            implies #[trigger] self.entries@[i].0@
                        != #[trigger] self.entries@[j].0@ by {
                        if i < n && j < n {
                            assert(old(self).entries@[i].0@ != old(self).entries@[j].0@);
                        } else if i < n {
                            assert(old(self).model@.contains_key(old(self).entries@[i].0@));
                        } else {
                            assert(old(self).model@.contains_key(old(self).entries@[j].0@));
                        }
                    }
                }
                true
            },
        }
    }

    /// Takes out the resource held under `key`, if any.
    pub fn remove(&mut self, key: &String) -> (r: Option<H>)
        requires
            old(self).wf(),
        ensures
            final(self).wf(),
            final(self)@ == old(self)@.remove(key@),
            match r {
                Some(h) => old(self)@.contains_key(key@) && h == old(self)@[key@],
                None => !old(self)@.contains_key(key@),
            },
    {
        match self.find(key) {
            None => {
                assert(self@.remove(key@) =~= self@);
                None
            },
            Some(p) => {
                let ghost old_entries = self.entries@;
                let ghost k = key@;
                proof {
                    assert(self.model@.contains_key(self.entries@[p as int].0@));
                }
                self.model = Ghost(self.model@.remove(k));
                let e = self.entries.remove(p);
                proof {
                    assert forall|i: int|
                        0 <= i < self.entries@.len() implies #[trigger] self.model@.contains_key(
                        self.entries@[i].0@,
                    ) && self.model@[self.entries@[i].0@] == self.entries@[i].1 by {
                        let oi = if i < p { i } else { i + 1 };
                        assert(self.entries@[i] == old_entries[oi]);
                        assert(old_entries[oi].0@ != old_entries[p as int].0@);
                        assert(old(self).model@.contains_key(old_entries[oi].0@));
                    }
                    assert forall|kk: Seq<char>| #[trigger]
                        self.model@.contains_key(kk) implies exists|i: int|
                        0 <= i < self.entries@.len() && #[trigger] self.entries@[i].0@ == kk by {
                        assert(old(self).model@.contains_key(kk));
                        let oi = choose|oi: int|
                            0 <= oi < old_entries.len() && #[trigger] old_entries[oi].0@ == kk;
                        assert(oi != p);
                        let i = if oi < p { oi } else { oi - 1 };
                        assert(self.entries@[i] == old_entries[oi]);
                    }
                    assert forall|i: int, j: int|
                        0 <= i < self.entries@.len() && 0 <= j < self.entries@.len() && i != j
                            implies #[trigger] self.entries@[i].0@
                        != #[trigger] self.entries@[j].0@ by {
                        let oi = if i < p { i } else { i + 1 };
                        let oj = if j < p { j } else { j + 1 };
                        assert(self.entries@[i] == old_entries[oi]);
                        assert(self.entries@[j] == old_entries[oj]);
                        assert(old_entries[oi].0@ != old_entries[oj].0@);
                    }
                }
                Some(e.1)
            },
        }
    }

    /// Drops every resource.
    pub fn clear(&mut self)
        requires
            old(self).wf(),
        ensures
            final(self).wf(),
            final(self)@ == Map::<Seq<char>, H>::empty(),
    {
        self.entries.clear();
        self.model = Ghost(Map::empty());
    }
}

} // verus!
