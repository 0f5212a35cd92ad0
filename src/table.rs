//! A finite map keyed by principal id, kept as a vector of entries whose ids
//! strictly increase. The order of the entries is the order in which every
//! other part of the library walks the map.

use vstd::prelude::*;

verus! {

/// The ids of `s` strictly increase from front to back.
pub open spec fn ids_ascending<V>(s: Seq<(u32, V)>) -> bool {
    forall|i: int, j: int| 0 <= i < j < s.len() ==> (#[trigger] s[i]).0 < (#[trigger] s[j]).0
}

/// Some entry of `s` has the id `id`.
pub open spec fn seq_has_id<V>(s: Seq<(u32, V)>, id: u32) -> bool {
    exists|i: int| 0 <= i < s.len() && (#[trigger] s[i]).0 == id
}

/// The map that a sequence of entries stands for.
pub open spec fn seq_to_map<V>(s: Seq<(u32, V)>) -> Map<u32, V> {
    Map::new(
        |id: u32| seq_has_id(s, id),
        |id: u32| s[choose|i: int| 0 <= i < s.len() && (#[trigger] s[i]).0 == id].1,
    )
}

/// In an ascending sequence the entry at `i` is the one its id maps to.
pub proof fn lemma_value_at<V>(s: Seq<(u32, V)>, i: int)
    requires
        ids_ascending(s),
        0 <= i < s.len(),
    ensures
        seq_to_map(s).contains_key(s[i].0),
        seq_to_map(s)[s[i].0] == s[i].1,
{
    let id = s[i].0;
    assert(seq_has_id(s, id));
    let j = choose|j: int| 0 <= j < s.len() && (#[trigger] s[j]).0 == id;
    if j < i {
        assert(s[j].0 < s[i].0);
    } else if i < j {
        assert(s[i].0 < s[j].0);
    }
}

/// The map of an ascending sequence, read entry by entry.
pub proof fn lemma_map_entries<V>(s: Seq<(u32, V)>)
    requires
        ids_ascending(s),
    ensures
        forall|i: int|
            0 <= i < s.len() ==> seq_to_map(s).contains_key(#[trigger] s[i].0) && seq_to_map(s)[s[i].0]
                == s[i].1,
        forall|id: u32|
            #[trigger] seq_to_map(s).contains_key(id) ==> exists|i: int|
                0 <= i < s.len() && (#[trigger] s[i]).0 == id,
{
    assert forall|i: int| 0 <= i < s.len() implies seq_to_map(s).contains_key(#[trigger] s[i].0)
        && seq_to_map(s)[s[i].0] == s[i].1 by {
        lemma_value_at(s, i);
    }
}

/// Two ascending sequences that stand for the same map are the same sequence.
pub proof fn lemma_ascending_unique<V>(s: Seq<(u32, V)>, t: Seq<(u32, V)>)
    requires
        ids_ascending(s),
        ids_ascending(t),
        seq_to_map(s) == seq_to_map(t),
    ensures
        s == t,
    decreases s.len(),
{
    lemma_map_entries(s);
    lemma_map_entries(t);
    if s.len() == 0 {
        if t.len() > 0 {
            assert(seq_to_map(t).contains_key(t[0].0));
        }
    } else if t.len() == 0 {
        assert(seq_to_map(s).contains_key(s[0].0));
    } else {
        // The first entries agree: each holds the least id of the map.
        assert(seq_to_map(t).contains_key(s[0].0));
        assert(seq_to_map(s).contains_key(t[0].0));
        let i = choose|i: int| 0 <= i < t.len() && (#[trigger] t[i]).0 == s[0].0;
        let j = choose|j: int| 0 <= j < s.len() && (#[trigger] s[j]).0 == t[0].0;
        if i > 0 {
            assert(t[0].0 < t[i].0);
            assert(s[0].0 <= s[j].0);
        }
        assert(s[0].0 == t[0].0);
        assert(s[0] == t[0]);
        let s1 = s.drop_first();
        let t1 = t.drop_first();
        assert(ids_ascending(s1));
        assert(ids_ascending(t1));
        lemma_map_entries(s1);
        lemma_map_entries(t1);
        assert forall|id: u32| seq_to_map(s1).contains_key(id) <==> seq_to_map(t1).contains_key(id) by {
            if seq_to_map(s1).contains_key(id) {
                let k = choose|k: int| 0 <= k < s1.len() && (#[trigger] s1[k]).0 == id;
                assert(s[k + 1].0 == id);
                assert(seq_to_map(t).contains_key(id));
                let m = choose|m: int| 0 <= m < t.len() && (#[trigger] t[m]).0 == id;
                assert(s[0].0 < s[k + 1].0);
                assert(m != 0);
                assert(t1[m - 1].0 == id);
            }
            if seq_to_map(t1).contains_key(id) {
                let k = choose|k: int| 0 <= k < t1.len() && (#[trigger] t1[k]).0 == id;
                assert(t[k + 1].0 == id);
                assert(seq_to_map(s).contains_key(id));
                let m = choose|m: int| 0 <= m < s.len() && (#[trigger] s[m]).0 == id;
                assert(t[0].0 < t[k + 1].0);
                assert(m != 0);
                assert(s1[m - 1].0 == id);
            }
        }
        assert forall|id: u32| #[trigger] seq_to_map(s1).contains_key(id) implies seq_to_map(s1)[id]
            == seq_to_map(t1)[id] by {
            let k = choose|k: int| 0 <= k < s1.len() && (#[trigger] s1[k]).0 == id;
            let m = choose|m: int| 0 <= m < t1.len() && (#[trigger] t1[m]).0 == id;
            assert(s[k + 1].0 == id);
            assert(t[m + 1].0 == id);
        }
        assert(seq_to_map(s1) =~= seq_to_map(t1));
        lemma_ascending_unique(s1, t1);
        assert(s =~= seq![s[0]] + s1);
        assert(t =~= seq![t[0]] + t1);
    }
}

/// A map from principal id to `V` whose entries are held in ascending id order.
pub struct IdMap<V> {
    pub entries: Vec<(u32, V)>,
}

impl<V> View for IdMap<V> {
    type V = Map<u32, V>;

    open spec fn view(&self) -> Map<u32, V> {
        seq_to_map(self.entries@)
    }
}

impl<V> IdMap<V> {
    /// The table keeps its entries in strictly ascending id order.
    pub open spec fn wf(&self) -> bool {
        ids_ascending(self.entries@)
    }

    /// The id of the entry at `i`, in walking order.
    pub open spec fn id_at_spec(&self, i: int) -> u32 {
        self.entries@[i].0
    }

    /// An empty table.
    pub fn new() -> (r: Self)
        ensures
            r.wf(),
            r@ == Map::<u32, V>::empty(),
            r.entries@.len() == 0,
    {
        let r = IdMap { entries: Vec::new() };
        assert(r@ =~= Map::<u32, V>::empty());
        r
    }

    /// Number of entries.
    pub fn len(&self) -> (r: usize)
        ensures
            r == self.entries@.len(),
    {
        self.entries.len()
    }

    /// The id of the entry at position `i` in ascending order.
    pub fn id_at(&self, i: usize) -> (r: u32)
        requires
            i < self.entries@.len(),
        ensures
            r == self.id_at_spec(i as int),
    {
        self.entries[i].0
    }

    /// Where `id` stands: `Ok(i)` when entry `i` holds it, `Err(p)` with the
    /// position at which it would be inserted otherwise.
    pub fn position(&self, id: u32) -> (r: Result<usize, usize>)
        requires
            self.wf(),
        ensures
            r matches Ok(i) ==> i < self.entries@.len() && self.entries@[i as int].0 == id,
            r matches Err(p) ==> p <= self.entries@.len() && (forall|k: int|
                0 <= k < p ==> (#[trigger] self.entries@[k]).0 < id) && (forall|k: int|
                p <= k < self.entries@.len() ==> (#[trigger] self.entries@[k]).0 > id),
            r is Ok <==> self@.contains_key(id),
    {
        proof {
            lemma_map_entries(self.entries@);
        }
        let mut i: usize = 0;
        while i < self.entries.len()
            invariant
                i <= self.entries@.len(),
                ids_ascending(self.entries@),
                forall|k: int| 0 <= k < i ==> (#[trigger] self.entries@[k]).0 < id,
            decreases self.entries@.len() - i,
        {
            let e = self.entries[i].0;
            if e == id {
                return Ok(i);
            }
            if e > id {
                assert forall|k: int| i <= k < self.entries@.len() implies (
                #[trigger] self.entries@[k]).0 > id by {
                    if k > i {
                        assert(self.entries@[i as int].0 < self.entries@[k].0);
                    }
                }
                return Err(i);
            }
            i = i + 1;
        }
        Err(i)
    }

    /// The value held for `id`, if any.
    pub fn get(&self, id: u32) -> (r: Option<&V>)
        requires
            self.wf(),
        ensures
            r is Some <==> self@.contains_key(id),
            r matches Some(v) ==> *v == self@[id],
    {
        match self.position(id) {
            Ok(i) => {
                proof {
                    lemma_value_at(self.entries@, i as int);
                }
                Some(&self.entries[i].1)
            },
            Err(_) => None,
        }
    }

    /// Whether `id` has an entry.
    pub fn contains(&self, id: u32) -> (r: bool)
        requires
            self.wf(),
        ensures
            r == self@.contains_key(id),
    {
        self.position(id).is_ok()
    }

    /// Sets the value of `id`, replacing any value it had.
    pub fn insert(&mut self, id: u32, value: V)
        requires
            old(self).wf(),
        ensures
            final(self).wf(),
            final(self)@ == old(self)@.insert(id, value),
    {
        let ghost s = self.entries@;
        proof {
            lemma_map_entries(s);
        }
        match self.position(id) {
            Ok(i) => {
                self.entries.set(i, (id, value));
                let ghost t = self.entries@;
                assert(ids_ascending(t)) by {
                    assert forall|a: int, b: int| 0 <= a < b < t.len() implies (#[trigger] t[a]).0 < (
                    #[trigger] t[b]).0 by {
                        assert(s[a].0 < s[b].0);
                    }
                }
                proof {
                    lemma_map_entries(t);
                    assert forall|x: u32| #[trigger]
                        seq_to_map(t).contains_key(x) <==> seq_to_map(s).insert(id, value).contains_key(
                            x,
                        ) by {
                        if seq_to_map(s).contains_key(x) {
                            let k = choose|k: int| 0 <= k < s.len() && (#[trigger] s[k]).0 == x;
                            assert(t[k].0 == x);
                        }
                        if x == id {
                            assert(t[i as int].0 == x);
                        }
                        if seq_to_map(t).contains_key(x) {
                            let k = choose|k: int| 0 <= k < t.len() && (#[trigger] t[k]).0 == x;
                            if k != i {
                                assert(s[k].0 == x);
                            }
                        }
                    }
                    assert forall|x: u32| #[trigger] seq_to_map(t).contains_key(x) implies seq_to_map(
                        t,
                    )[x] == seq_to_map(s).insert(id, value)[x] by {
                        let k = choose|k: int| 0 <= k < t.len() && (#[trigger] t[k]).0 == x;
                        if k != i {
                            assert(s[k].0 == x);
                        }
                    }
                    assert(seq_to_map(t) =~= seq_to_map(s).insert(id, value));
                }
            },
            Err(p) => {
                self.entries.insert(p, (id, value));
                let ghost t = self.entries@;
                assert(ids_ascending(t)) by {
                    assert forall|a: int, b: int| 0 <= a < b < t.len() implies (#[trigger] t[a]).0 < (
                    #[trigger] t[b]).0 by {
                        if b < p {
                            assert(s[a].0 < s[b].0);
                        } else if b == p {
                            assert(s[a].0 < id);
                        } else if a < p {
                            assert(s[b - 1].0 > id);
                        } else if a == p {
                            assert(s[b - 1].0 > id);
                        } else {
                            assert(s[a - 1].0 < s[b - 1].0);
                        }
                    }
                }
                proof {
                    lemma_map_entries(t);
                    assert forall|x: u32| #[trigger]
                        seq_to_map(t).contains_key(x) <==> seq_to_map(s).insert(id, value).contains_key(
                            x,
                        ) by {
                        if seq_to_map(s).contains_key(x) {
                            let k = choose|k: int| 0 <= k < s.len() && (#[trigger] s[k]).0 == x;
                            if k < p {
                                assert(t[k].0 == x);
                            } else {
                                assert(t[k + 1].0 == x);
                            }
                        }
                        if x == id {
                            assert(t[p as int].0 == x);
                        }
                        if seq_to_map(t).contains_key(x) {
                            let k = choose|k: int| 0 <= k < t.len() && (#[trigger] t[k]).0 == x;
                            if k < p {
                                assert(s[k].0 == x);
                            } else if k > p {
                                assert(s[k - 1].0 == x);
                            }
                        }
                    }
                    assert forall|x: u32| #[trigger] seq_to_map(t).contains_key(x) implies seq_to_map(
                        t,
                    )[x] == seq_to_map(s).insert(id, value)[x] by {
                        let k = choose|k: int| 0 <= k < t.len() && (#[trigger] t[k]).0 == x;
                        if k < p {
                            assert(s[k].0 == x);
                        } else if k > p {
                            assert(s[k - 1].0 == x);
                        }
                    }
                    assert(seq_to_map(t) =~= seq_to_map(s).insert(id, value));
                }
            },
        }
    }

    /// Removes the entry of `id`, if there is one.
    pub fn remove(&mut self, id: u32)
        requires
            old(self).wf(),
        ensures
            final(self).wf(),
            final(self)@ == old(self)@.remove(id),
    {
        let ghost s = self.entries@;
        proof {
            lemma_map_entries(s);
        }
        match self.position(id) {
            Ok(i) => {
                let _ = self.entries.remove(i);
                let ghost t = self.entries@;
                assert(ids_ascending(t)) by {
                    assert forall|a: int, b: int| 0 <= a < b < t.len() implies (#[trigger] t[a]).0 < (
                    #[trigger] t[b]).0 by {
                        if b < i {
                            assert(s[a].0 < s[b].0);
                        } else if a < i {
                            assert(s[a].0 < s[b + 1].0);
                        } else {
                            assert(s[a + 1].0 < s[b + 1].0);
                        }
                    }
                }
                proof {
                    lemma_map_entries(t);
                    assert forall|x: u32| #[trigger]
                        seq_to_map(t).contains_key(x) <==> seq_to_map(s).remove(id).contains_key(x) by {
                        if seq_to_map(s).contains_key(x) && x != id {
                            let k = choose|k: int| 0 <= k < s.len() && (#[trigger] s[k]).0 == x;
                            if k < i {
                                assert(t[k].0 == x);
                            } else {
                                assert(k != i);
                                assert(t[k - 1].0 == x);
                            }
                        }
                        if seq_to_map(t).contains_key(x) {
                            let k = choose|k: int| 0 <= k < t.len() && (#[trigger] t[k]).0 == x;
                            if k < i {
                                assert(s[k].0 == x);
                                assert(s[k].0 < s[i as int].0);
                            } else {
                                assert(s[k + 1].0 == x);
                                assert(s[i as int].0 < s[k + 1].0);
                            }
                        }
                    }
                    assert forall|x: u32| #[trigger] seq_to_map(t).contains_key(x) implies seq_to_map(
                        t,
                    )[x] == seq_to_map(s).remove(id)[x] by {
                        let k = choose|k: int| 0 <= k < t.len() && (#[trigger] t[k]).0 == x;
                        if k < i {
                            assert(s[k].0 == x);
                        } else {
                            assert(s[k + 1].0 == x);
                        }
                    }
                    assert(seq_to_map(t) =~= seq_to_map(s).remove(id));
                }
            },
            Err(_) => {
                assert(seq_to_map(s) =~= seq_to_map(s).remove(id));
            },
        }
    }
}

} // verus!
