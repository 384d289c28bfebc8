use vstd::prelude::*;

use crate::text::views;

verus! {

/// The key/value pairs of `e` written into an empty map, in order: a later
/// pair for a key replaces an earlier one.
pub open spec fn entries_map(e: Seq<(Seq<char>, Seq<char>)>) -> Map<Seq<char>, Seq<char>>
    decreases e.len(),
{
    if e.len() == 0 {
        Map::empty()
    } else {
        entries_map(e.drop_last()).insert(e.last().0, e.last().1)
    }
}

/// The keys of a sequence of pairs.
pub open spec fn entry_keys(e: Seq<(Seq<char>, Seq<char>)>) -> Seq<Seq<char>> {
    e.map_values(|p: (Seq<char>, Seq<char>)| p.0)
}

/// The views of a sequence of string pairs.
pub open spec fn pair_views(v: Seq<(String, String)>) -> Seq<(Seq<char>, Seq<char>)> {
    v.map_values(|p: (String, String)| (p.0@, p.1@))
}

/// What a sequence of pairs with distinct keys describes: each of its keys,
/// with the value paired to it.
proof fn lemma_entries_map_distinct(e: Seq<(Seq<char>, Seq<char>)>)
    requires
        entry_keys(e).no_duplicates(),
    ensures
        forall|k: Seq<char>|
            #[trigger] entries_map(e).contains_key(k) <==> exists|i: int|
                0 <= i < e.len() && e[i].0 == k,
        forall|i: int| 0 <= i < e.len() ==> #[trigger] entries_map(e)[e[i].0] == e[i].1,
    decreases e.len(),
{
    if e.len() > 0 {
        let p = e.drop_last();
        assert(entry_keys(p) =~= entry_keys(e).drop_last());
        lemma_entries_map_distinct(p);
        let n = e.len() - 1;
        assert(entries_map(e) == entries_map(p).insert(e[n].0, e[n].1));
        assert forall|k: Seq<char>|
            #[trigger] entries_map(e).contains_key(k) <==> exists|i: int|
                0 <= i < e.len() && e[i].0 == k by {
            if k == e[n].0 {
                assert(e[n].0 == k);
            } else {
                if entries_map(e).contains_key(k) {
                    assert(entries_map(p).contains_key(k));
                    let i = choose|i: int| 0 <= i < p.len() && p[i].0 == k;
                    assert(p[i] == e[i]);
                }
                if exists|i: int| 0 <= i < e.len() && e[i].0 == k {
                    let i = choose|i: int| 0 <= i < e.len() && e[i].0 == k;
                    assert(p[i] == e[i]);
                    assert(entries_map(p).contains_key(k));
                }
            }
        }
        assert forall|i: int| 0 <= i < e.len() implies #[trigger] entries_map(e)[e[i].0]
            == e[i].1 by {
            if i < n {
                assert(entry_keys(e)[i] != entry_keys(e)[n]);
                assert(p[i] == e[i]);
                assert(entries_map(p)[p[i].0] == p[i].1);
            }
        }
    }
}

/// Pairs with distinct keys describe one map whatever their order: a snapshot
/// read back in another order gives the store it was taken from.
pub proof fn lemma_entries_order_free(e1: Seq<(Seq<char>, Seq<char>)>, e2: Seq<(Seq<char>, Seq<char>)>)
    requires
        entry_keys(e1).no_duplicates(),
        entry_keys(e2).no_duplicates(),
        e1.to_set() == e2.to_set(),
    ensures
        entries_map(e1) == entries_map(e2),
{
    lemma_entries_map_distinct(e1);
    lemma_entries_map_distinct(e2);
    assert forall|k: Seq<char>| #[trigger] entries_map(e1).contains_key(k) implies entries_map(e2).contains_key(k) && entries_map(e1)[k] == entries_map(e2)[k] by {
        let i = choose|i: int| 0 <= i < e1.len() && e1[i].0 == k;
        assert(e1.to_set().contains(e1[i]));
        let j = choose|j: int| 0 <= j < e2.len() && e2[j] == e1[i];
        assert(e2[j].0 == k);
    }
    assert forall|k: Seq<char>| #[trigger] entries_map(e2).contains_key(k) implies entries_map(e1).contains_key(k) by {
        let j = choose|j: int| 0 <= j < e2.len() && e2[j].0 == k;
        assert(e2.to_set().contains(e2[j]));
        let i = choose|i: int| 0 <= i < e1.len() && e1[i] == e2[j];
        assert(e1[i].0 == k);
    }
    assert(entries_map(e1) =~= entries_map(e2));
}

/// An in-memory map from string keys to string values.
///
/// The keys are held once each, in the order in which they were first
/// written; the value of `keys[i]` is `values[i]`.
pub struct KeyValueStore {
    keys: Vec<String>,
    values: Vec<String>,
    contents: Ghost<Map<Seq<char>, Seq<char>>>,
}

impl View for KeyValueStore {
    type V = Map<Seq<char>, Seq<char>>;

    closed spec fn view(&self) -> Map<Seq<char>, Seq<char>> {
        self.contents@
    }
}

impl KeyValueStore {
    /// The two vectors agree in length, hold each key once, and describe
    /// exactly the map that the store stands for.
    pub closed spec fn wf(&self) -> bool {
        &&& self.keys.len() == self.values.len()
        &&& views(self.keys@).no_duplicates()
        &&& self.contents@.dom() == views(self.keys@).to_set()
        &&& forall|i: int|
            0 <= i < self.keys.len() ==> #[trigger] self.contents@[self.keys@[i]@]
                == self.values@[i]@
    }

    proof fn lemma_dom_finite_len(&self)
        requires
            self.wf(),
        ensures
            self@.dom().finite(),
            self@.dom().len() == self.keys.len(),
    {
        views(self.keys@).unique_seq_to_set();
    }

    /// An empty store.
    pub fn new() -> (r: Self)
        ensures
            r.wf(),
            r@ == Map::<Seq<char>, Seq<char>>::empty(),
    {
        let r = KeyValueStore {
            keys: Vec::new(),
            values: Vec::new(),
            contents: Ghost(Map::empty()),
        };
        proof {
            assert(views(r.keys@) =~= Seq::<Seq<char>>::empty());
            assert(r.contents@.dom() =~= views(r.keys@).to_set());
        }
        r
    }

    /// The position of `key` among the keys, if it is there.
    fn find(&self, key: &str) -> (r: Option<usize>)
        requires
            self.wf(),
        ensures
            match r {
                Some(i) => i < self.keys.len() && self.keys@[i as int]@ == key@
                    && self@.contains_key(key@) && self@[key@] == self.values@[i as int]@,
                None => !self@.contains_key(key@),
            },
    {
        let k = key.to_owned();
        let mut i: usize = 0;
        while i < self.keys.len()
            invariant
                self.wf(),
                k@ == key@,
                i <= self.keys.len(),
                forall|j: int| 0 <= j < i ==> self.keys@[j]@ != key@,
            decreases self.keys.len() - i,
        {
            if self.keys[i] == k {
                proof {
                    assert(views(self.keys@)[i as int] == key@);
                    assert(views(self.keys@).to_set().contains(key@));
                }
                return Some(i);
            }
            i += 1;
        }
        proof {
            if self@.contains_key(key@) {
                assert(views(self.keys@).contains(key@));
                let j = choose|j: int| 0 <= j < self.keys.len() && views(self.keys@)[j] == key@;
                assert(self.keys@[j]@ == key@);
            }
        }
        None
    }

    /// The value stored under `key`, if any.
    pub fn get(&self, key: &str) -> (r: Option<String>)
        requires
            self.wf(),
        ensures
            match r {
                Some(v) => self@.contains_key(key@) && v@ == self@[key@],
                None => !self@.contains_key(key@),
            },
    {
        match self.find(key) {
            Some(i) => Some(self.values[i].clone()),
            None => None,
        }
    }

    /// Stores `value` under `key`, replacing any value that was there.
    pub fn put(&mut self, key: String, value: String)
        requires
            old(self).wf(),
        ensures
            final(self).wf(),
            final(self)@ == old(self)@.insert(key@, value@),
    {
        let ghost old_keys = views(self.keys@);
        match self.find(key.as_str()) {
            Some(i) => {
                self.values.set(i, value);
                self.contents = Ghost(self.contents@.insert(key@, value@));
                proof {
                    assert(views(self.keys@) =~= old_keys);
                    assert(self.contents@.dom() =~= views(self.keys@).to_set());
                    assert forall|j: int| 0 <= j < self.keys.len() implies #[trigger] self.contents@[
                        self.keys@[j]@] == self.values@[j]@ by {
                        if j != i {
                            assert(old_keys[j] != old_keys[i as int]);
                        }
                    }
                }
            },
            None => {
                let ghost k = key@;
                self.keys.push(key);
                self.values.push(value);
                self.contents = Ghost(self.contents@.insert(k, value@));
                proof {
                    assert(views(self.keys@) =~= old_keys.push(k));
                    assert(!old_keys.contains(k));
                    assert(views(self.keys@).no_duplicates()) by {
                        assert forall|a: int, b: int|
                            0 <= a < b < views(self.keys@).len() implies views(self.keys@)[a]
                            != views(self.keys@)[b] by {
                            if b == old_keys.len() {
                                assert(old_keys[a] == views(self.keys@)[a]);
                            }
                        }
                    }
                    assert forall|x: Seq<char>| #[trigger] self.contents@.dom().contains(x)
                        <==> views(self.keys@).to_set().contains(x) by {
                        if x == k {
                            assert(views(self.keys@)[old_keys.len() as int] == k);
                        } else if old_keys.contains(x) {
                            let j = choose|j: int| 0 <= j < old_keys.len() && old_keys[j] == x;
                            assert(views(self.keys@)[j] == x);
                        } else if views(self.keys@).contains(x) {
                            let j = choose|j: int|
                                0 <= j < views(self.keys@).len() && views(self.keys@)[j] == x;
                            assert(old_keys[j] == x);
                        }
                    }
                    assert(self.contents@.dom() =~= views(self.keys@).to_set());
                    assert forall|j: int| 0 <= j < self.keys.len() implies #[trigger] self.contents@[
                        self.keys@[j]@] == self.values@[j]@ by {
                        if j < old_keys.len() {
                            assert(old_keys[j] == self.keys@[j]@);
                            assert(old_keys.contains(self.keys@[j]@));
                        }
                    }
                }
            },
        }
    }

    /// Removes `key`; true exactly when it was there.
    pub fn delete(&mut self, key: &str) -> (r: bool)
        requires
            old(self).wf(),
        ensures
            final(self).wf(),
            r == old(self)@.contains_key(key@),
            final(self)@ == old(self)@.remove(key@),
    {
        let ghost old_keys = views(self.keys@);
        let ghost old_values = self.values@;
        match self.find(key) {
            Some(i) => {
                let ghost n = old_keys.len();
                self.keys.swap_remove(i);
                self.values.swap_remove(i);
                self.contents = Ghost(self.contents@.remove(key@));
                proof {
                    let nk = views(self.keys@);
                    assert(nk =~= old_keys.update(i as int, old_keys.last()).drop_last());
                    assert forall|a: int| 0 <= a < nk.len() implies #[trigger] nk[a] != key@ && (
                    a != i ==> nk[a] == old_keys[a]) && (a == i ==> nk[a] == old_keys[n - 1]) by {
                        if a == i {
                            assert(old_keys[n - 1] != old_keys[i as int]);
                        } else {
                            assert(old_keys[a] != old_keys[i as int]);
                        }
                    }
                    assert(nk.no_duplicates()) by {
                        assert forall|a: int, b: int| 0 <= a < b < nk.len() implies nk[a]
                            != nk[b] by {
                            if a == i {
                                assert(old_keys[n - 1] != old_keys[b]);
                            } else if b == i {
                                assert(old_keys[a] != old_keys[n - 1]);
                            }
                        }
                    }
                    assert forall|k: Seq<char>| #[trigger] self.contents@.dom().contains(k) <==> nk.to_set().contains(k) by {
                        if self.contents@.dom().contains(k) {
                            assert(old_keys.contains(k));
                            let j = choose|j: int| 0 <= j < n && old_keys[j] == k;
                            if j == n - 1 {
                                assert(nk[i as int] == k);
                            } else {
                                assert(nk[j] == k);
                            }
                        }
                        if nk.to_set().contains(k) {
                            let j = choose|j: int| 0 <= j < nk.len() && nk[j] == k;
                            if j == i {
                                assert(old_keys[n - 1] == k);
                            } else {
                                assert(old_keys[j] == k);
                            }
                            assert(old_keys.contains(k));
                        }
                    }
                    assert(self.contents@.dom() =~= nk.to_set());
                    assert forall|j: int| 0 <= j < self.keys.len() implies #[trigger] self.contents@[
                        self.keys@[j]@] == self.values@[j]@ by {
                        assert(nk[j] == self.keys@[j]@);
                        if j == i {
                            assert(self.values@[j] == old_values[n - 1]);
                        } else {
                            assert(self.values@[j] == old_values[j]);
                        }
                    }
                }
                true
            },
            None => {
                proof {
                    assert(self.contents@.remove(key@) =~= self.contents@);
                }
                false
            },
        }
    }

    /// The keys present, each once, in no particular order.
    pub fn keys(&self) -> (r: Vec<String>)
        requires
            self.wf(),
        ensures
            views(r@).no_duplicates(),
            views(r@).to_set() == self@.dom(),
            r.len() == self@.dom().len(),
    {
        proof {
            self.lemma_dom_finite_len();
        }
        let r = self.keys.clone();
        assert(r@ == self.keys@);
        r
    }

    /// The store's pairs, each key once, in no particular order.
    pub fn entries(&self) -> (r: Vec<(String, String)>)
        requires
            self.wf(),
        ensures
            entry_keys(pair_views(r@)).no_duplicates(),
            entries_map(pair_views(r@)) == self@,
    {
        let mut out: Vec<(String, String)> = Vec::new();
        let mut i: usize = 0;
        while i < self.keys.len()
            invariant
                self.wf(),
                i <= self.keys.len(),
                out.len() == i,
                forall|j: int| 0 <= j < i ==> (#[trigger] pair_views(out@)[j]) == (self.keys@[j]@, self.values@[j]@),
            decreases self.keys.len() - i,
        {
            let ghost before = pair_views(out@);
            out.push((self.keys[i].clone(), self.values[i].clone()));
            proof {
                assert(pair_views(out@) =~= before.push((self.keys@[i as int]@, self.values@[i as int]@)));
                assert forall|j: int| 0 <= j < i + 1 implies (#[trigger] pair_views(out@)[j]) == (self.keys@[j]@, self.values@[j]@) by {
                    if j < i {
                        assert(pair_views(out@)[j] == before[j]);
                    }
                }
            }
            i += 1;
        }
        proof {
            let e = pair_views(out@);
            assert(entry_keys(e) =~= views(self.keys@));
            lemma_entries_map_distinct(e);
            assert forall|k: Seq<char>| #[trigger] entries_map(e).contains_key(k) <==> self@.contains_key(k) by {
                if self@.contains_key(k) {
                    assert(views(self.keys@).contains(k));
                    let j = choose|j: int| 0 <= j < self.keys.len() && views(self.keys@)[j] == k;
                    assert(e[j].0 == k);
                }
                if entries_map(e).contains_key(k) {
                    let j = choose|j: int| 0 <= j < e.len() && e[j].0 == k;
                    assert(views(self.keys@)[j] == k);
                }
            }
            assert forall|k: Seq<char>| #[trigger] entries_map(e).contains_key(k) implies entries_map(e)[k] == self@[k] by {
                let j = choose|j: int| 0 <= j < e.len() && e[j].0 == k;
                assert(self@[self.keys@[j]@] == self.values@[j]@);
            }
            assert(entries_map(e) =~= self@);
        }
        out
    }

    /// A store holding the pairs of `entries`, written in order.
    pub fn from_entries(entries: Vec<(String, String)>) -> (r: Self)
        ensures
            r.wf(),
            r@ == entries_map(pair_views(entries@)),
    {
        let mut r = KeyValueStore::new();
        let mut i: usize = 0;
        while i < entries.len()
            invariant
                r.wf(),
                i <= entries.len(),
                r@ == entries_map(pair_views(entries@).take(i as int)),
            decreases entries.len() - i,
        {
            let k = entries[i].0.clone();
            let v = entries[i].1.clone();
            r.put(k, v);
            proof {
                let e = pair_views(entries@);
                assert(e.take(i + 1).drop_last() =~= e.take(i as int));
                assert(e.take(i + 1).last() == e[i as int]);
            }
            i += 1;
        }
        assert(pair_views(entries@).take(i as int) =~= pair_views(entries@));
        r
    }

    /// Whether the store holds no key.
    pub fn is_empty(&self) -> (r: bool)
        requires
            self.wf(),
        ensures
            r == (self@.dom().len() == 0),
    {
        proof {
            self.lemma_dom_finite_len();
        }
        self.keys.len() == 0
    }
}

} // verus!
