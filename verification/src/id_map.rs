//! An ordered map keyed by object identifier.
//!
//! The entries are kept in a vector sorted by strictly increasing identifier,
//! so that walking the map by index visits the objects in a fixed order.

use crate::base_types::ObjectID;
use vstd::prelude::*;

verus! {

/// Whether `keys` is strictly increasing.
pub open spec fn strictly_increasing(keys: Seq<ObjectID>) -> bool {
    forall|i: int, j: int| 0 <= i < j < keys.len() ==> keys[i].0 < keys[j].0
}

/// A strictly increasing sequence is determined by the set of its elements.
pub proof fn lemma_increasing_determined(a: Seq<ObjectID>, b: Seq<ObjectID>)
    requires
        strictly_increasing(a),
        strictly_increasing(b),
        forall|id: ObjectID| a.contains(id) <==> b.contains(id),
    ensures
        a == b,
    decreases a.len(),
{
    if a.len() == 0 {
        if b.len() > 0 {
            assert(b.contains(b[0]));
            assert(a.contains(b[0]));
        }
        assert(a =~= b);
    } else if b.len() == 0 {
        assert(a.contains(a[0]));
        assert(b.contains(a[0]));
    } else {
        let la = a.last();
        let lb = b.last();
        assert(a.contains(la));
        assert(b.contains(lb));
        assert(b.contains(la));
        assert(a.contains(lb));
        let ia = choose|i: int| 0 <= i < a.len() && a[i] == lb;
        let ib = choose|i: int| 0 <= i < b.len() && b[i] == la;
        assert(la.0 <= lb.0 && lb.0 <= la.0);
        assert(la == lb);
        let a0 = a.drop_last();
        let b0 = b.drop_last();
        assert forall|id: ObjectID| a0.contains(id) <==> b0.contains(id) by {
            if a0.contains(id) {
                let i = choose|i: int| 0 <= i < a0.len() && a0[i] == id;
                assert(a[i] == id);
                assert(a.contains(id));
                assert(id.0 < la.0);
                let j = choose|j: int| 0 <= j < b.len() && b[j] == id;
                assert(j < b.len() - 1);
                assert(b0[j] == id);
            }
            if b0.contains(id) {
                let i = choose|i: int| 0 <= i < b0.len() && b0[i] == id;
                assert(b[i] == id);
                assert(b.contains(id));
                assert(id.0 < lb.0);
                let j = choose|j: int| 0 <= j < a.len() && a[j] == id;
                assert(j < a.len() - 1);
                assert(a0[j] == id);
            }
        }
        lemma_increasing_determined(a0, b0);
        assert(a =~= a0.push(la));
        assert(b =~= b0.push(lb));
    }
}

/// One more identifier of a sequence taken: it, or what was taken before.
pub proof fn lemma_take_contains(keys: Seq<ObjectID>, n: int, id: ObjectID)
    requires
        0 <= n < keys.len(),
    ensures
        keys.take(n + 1).contains(id) <==> keys.take(n).contains(id) || keys[n] == id,
{
    let more = keys.take(n + 1);
    let less = keys.take(n);
    if more.contains(id) {
        let k = choose|k: int| 0 <= k < more.len() && more[k] == id;
        if k < n {
            assert(less[k] == id);
        }
    }
    if less.contains(id) {
        let k = choose|k: int| 0 <= k < less.len() && less[k] == id;
        assert(more[k] == id);
    }
    assert(more[n] == keys[n]);
}

/// The identifiers of a finite set, in increasing order.
pub open spec fn sorted_ids(ids: Set<ObjectID>) -> Seq<ObjectID> {
    choose|s: Seq<ObjectID>|
        strictly_increasing(s) && (forall|id: ObjectID| s.contains(id) <==> ids.contains(id))
}

/// A strictly increasing sequence is the sorted form of the set of its elements.
pub proof fn lemma_sorted_ids_of(s: Seq<ObjectID>, ids: Set<ObjectID>)
    requires
        strictly_increasing(s),
        forall|id: ObjectID| s.contains(id) <==> ids.contains(id),
    ensures
        sorted_ids(ids) == s,
{
    let t = sorted_ids(ids);
    assert(strictly_increasing(t) && (forall|id: ObjectID| t.contains(id) <==> ids.contains(id)));
    lemma_increasing_determined(s, t);
}

/// The map that binds each of `keys` to the value at its position in `values`.
spec fn map_of<V>(keys: Seq<ObjectID>, values: Seq<V>) -> Map<ObjectID, V> {
    Map::new(|id: ObjectID| keys.contains(id), |id: ObjectID| values[keys.index_of(id)])
}

/// What the map of strictly increasing keys holds.
proof fn lemma_map_of<V>(keys: Seq<ObjectID>, values: Seq<V>)
    requires
        strictly_increasing(keys),
        keys.len() == values.len(),
    ensures
        forall|id: ObjectID| map_of(keys, values).contains_key(id) <==> keys.contains(id),
        forall|i: int|
            0 <= i < keys.len() ==> map_of(keys, values).contains_key(#[trigger] keys[i]) && map_of(
                keys,
                values,
            )[keys[i]] == values[i],
{
    assert forall|i: int| 0 <= i < keys.len() implies map_of(keys, values).contains_key(
        #[trigger] keys[i],
    ) && map_of(keys, values)[keys[i]] == values[i] by {
        assert(keys.contains(keys[i]));
        let k = keys.index_of(keys[i]);
        assert(0 <= k < keys.len() && keys[k] == keys[i]);
        assert(k == i);
    }
}

/// Replacing the value at a position rebinds the key at that position.
proof fn lemma_map_of_update<V>(keys: Seq<ObjectID>, values: Seq<V>, pos: int, value: V)
    requires
        strictly_increasing(keys),
        keys.len() == values.len(),
        0 <= pos < keys.len(),
    ensures
        map_of(keys, values.update(pos, value)) == map_of(keys, values).insert(keys[pos], value),
{
    let after = map_of(keys, values.update(pos, value));
    let expected = map_of(keys, values).insert(keys[pos], value);
    lemma_map_of(keys, values);
    lemma_map_of(keys, values.update(pos, value));
    assert(keys.contains(keys[pos]));
    assert forall|k: ObjectID| after.contains_key(k) implies #[trigger] after[k] == expected[k] by {
        let i = choose|i: int| 0 <= i < keys.len() && keys[i] == k;
        assert(after[keys[i]] == values.update(pos, value)[i]);
        assert(map_of(keys, values)[keys[i]] == values[i]);
    }
    assert(after =~= expected);
}

/// Putting a new key in its place binds it and leaves the other bindings.
proof fn lemma_map_of_insert<V>(keys: Seq<ObjectID>, values: Seq<V>, pos: int, id: ObjectID, value: V)
    requires
        strictly_increasing(keys),
        keys.len() == values.len(),
        0 <= pos <= keys.len(),
        forall|i: int| 0 <= i < pos ==> keys[i].0 < id.0,
        forall|i: int| pos <= i < keys.len() ==> id.0 < keys[i].0,
    ensures
        strictly_increasing(keys.insert(pos, id)),
        map_of(keys.insert(pos, id), values.insert(pos, value)) == map_of(keys, values).insert(
            id,
            value,
        ),
{
    let more_keys = keys.insert(pos, id);
    let more_values = values.insert(pos, value);
    assert forall|i: int, j: int| 0 <= i < j < more_keys.len() implies more_keys[i].0
        < more_keys[j].0 by {
        let ki = if i < pos {
            keys[i]
        } else if i == pos {
            id
        } else {
            keys[i - 1]
        };
        let kj = if j < pos {
            keys[j]
        } else if j == pos {
            id
        } else {
            keys[j - 1]
        };
        assert(more_keys[i] == ki);
        assert(more_keys[j] == kj);
    }
    let after = map_of(more_keys, more_values);
    let expected = map_of(keys, values).insert(id, value);
    lemma_map_of(keys, values);
    lemma_map_of(more_keys, more_values);
    assert(more_keys[pos] == id);
    assert(more_values[pos] == value);
    assert forall|k: ObjectID| after.contains_key(k) <==> expected.contains_key(k) by {
        if more_keys.contains(k) {
            let i = choose|i: int| 0 <= i < more_keys.len() && more_keys[i] == k;
            if i < pos {
                assert(keys[i] == k);
            } else if i > pos {
                assert(keys[i - 1] == k);
            }
        }
        if keys.contains(k) {
            let i = choose|i: int| 0 <= i < keys.len() && keys[i] == k;
            if i < pos {
                assert(more_keys[i] == k);
            } else {
                assert(more_keys[i + 1] == k);
            }
        }
    }
    assert forall|k: ObjectID| after.contains_key(k) implies #[trigger] after[k] == expected[k] by {
        let i = choose|i: int| 0 <= i < more_keys.len() && more_keys[i] == k;
        assert(after[more_keys[i]] == more_values[i]);
        if i < pos {
            assert(keys[i] == k);
            assert(map_of(keys, values)[keys[i]] == values[i]);
        } else if i > pos {
            assert(keys[i - 1] == k);
            assert(map_of(keys, values)[keys[i - 1]] == values[i - 1]);
        }
    }
    assert(after =~= expected);
}

/// A map from object identifiers to values, walked in increasing order of identifier.
#[derive(Clone, Debug, PartialEq, Eq)]
pub struct IdMap<V> {
    entries: Vec<(ObjectID, V)>,
}

impl<V> IdMap<V> {
    /// The identifiers held, in the order in which the map is walked.
    pub closed spec fn keys(&self) -> Seq<ObjectID> {
        self.entries@.map_values(|e: (ObjectID, V)| e.0)
    }

    /// The values held, in the order in which the map is walked.
    pub closed spec fn values(&self) -> Seq<V> {
        self.entries@.map_values(|e: (ObjectID, V)| e.1)
    }

    /// The invariant of the representation: identifiers strictly increase.
    pub closed spec fn wf(&self) -> bool {
        strictly_increasing(self.keys())
    }

    /// The map as a mathematical map.
    pub closed spec fn view(&self) -> Map<ObjectID, V> {
        map_of(self.keys(), self.values())
    }

    /// The walk order read off the entries.
    proof fn lemma_entries(&self)
        ensures
            self.keys().len() == self.entries@.len(),
            self.values().len() == self.entries@.len(),
            forall|i: int|
                0 <= i < self.entries@.len() ==> self.keys()[i] == (#[trigger] self.entries@[i]).0
                    && self.values()[i] == self.entries@[i].1,
    {
    }

    /// How the walk order relates to the mathematical map.
    pub proof fn lemma_walk(&self)
        requires
            self.wf(),
        ensures
            strictly_increasing(self.keys()),
            self.keys().len() == self.values().len(),
            self.keys().no_duplicates(),
            self@.dom().finite(),
            self@.dom().len() == self.keys().len(),
            forall|id: ObjectID| self@.contains_key(id) <==> self.keys().contains(id),
            forall|i: int|
                0 <= i < self.keys().len() ==> self@.contains_key(#[trigger] self.keys()[i])
                    && self@[self.keys()[i]] == self.values()[i],
    {
        let keys = self.keys();
        assert(keys.no_duplicates());
        assert forall|i: int| 0 <= i < keys.len() implies self@.contains_key(#[trigger] keys[i])
            && self@[keys[i]] == self.values()[i] by {
            assert(keys.contains(keys[i]));
            let k = keys.index_of(keys[i]);
            assert(0 <= k < keys.len() && keys[k] == keys[i]);
            assert(k == i);
        }
        assert(self@.dom() =~= keys.to_set());
        keys.unique_seq_to_set();
        vstd::seq_lib::seq_to_set_is_finite(keys);
    }

    /// The walk visits the identifiers of the map in increasing order.
    pub proof fn lemma_keys_sorted(&self)
        requires
            self.wf(),
        ensures
            self.keys() == sorted_ids(self@.dom()),
    {
        self.lemma_walk();
        assert forall|id: ObjectID| self.keys().contains(id) <==> self@.dom().contains(id) by {
            assert(self@.contains_key(id) <==> self@.dom().contains(id));
        }
        lemma_sorted_ids_of(self.keys(), self@.dom());
    }

    pub fn new() -> (m: Self)
        ensures
            m.wf(),
            m@ == Map::<ObjectID, V>::empty(),
            m.keys() == Seq::<ObjectID>::empty(),
    {
        let m = IdMap { entries: Vec::new() };
        proof {
            assert(m.keys() =~= Seq::<ObjectID>::empty());
            assert(m@ =~= Map::<ObjectID, V>::empty());
        }
        m
    }

    pub fn len(&self) -> (n: usize)
        ensures
            n == self.keys().len(),
            n == self.values().len(),
    {
        self.entries.len()
    }

    pub fn is_empty(&self) -> (r: bool)
        ensures
            r == (self.keys().len() == 0),
    {
        self.entries.len() == 0
    }

    /// The identifier at position `i` of the walk.
    pub fn key_at(&self, i: usize) -> (id: ObjectID)
        requires
            i < self.keys().len(),
        ensures
            id == self.keys()[i as int],
    {
        proof {
            self.lemma_entries();
        }
        self.entries[i].0
    }

    /// The value at position `i` of the walk.
    pub fn value_at(&self, i: usize) -> (v: &V)
        requires
            i < self.keys().len(),
        ensures
            *v == self.values()[i as int],
    {
        proof {
            self.lemma_entries();
        }
        &self.entries[i].1
    }

    /// The first position whose identifier is not below `id`.
    fn lower_bound(&self, id: &ObjectID) -> (pos: usize)
        requires
            self.wf(),
        ensures
            pos <= self.keys().len(),
            forall|i: int| 0 <= i < pos ==> self.keys()[i].0 < id.0,
            forall|i: int| pos <= i < self.keys().len() ==> id.0 <= self.keys()[i].0,
    {
        let mut low: usize = 0;
        let mut high: usize = self.entries.len();
        proof {
            self.lemma_entries();
        }
        while low < high
            invariant
                self.wf(),
                low <= high <= self.keys().len(),
                self.keys().len() == self.entries@.len(),
                forall|i: int|
                    0 <= i < self.entries@.len() ==> self.keys()[i] == (#[trigger] self.entries@[i]).0,
                forall|i: int| 0 <= i < low ==> self.keys()[i].0 < id.0,
                forall|i: int| high <= i < self.keys().len() ==> id.0 <= self.keys()[i].0,
            decreases high - low,
        {
            let mid: usize = low + (high - low) / 2;
            assert(self.keys()[mid as int] == self.entries@[mid as int].0);
            if self.entries[mid].0.0 < id.0 {
                low = mid + 1;
            } else {
                high = mid;
            }
        }
        low
    }

    pub fn contains_key(&self, id: &ObjectID) -> (r: bool)
        requires
            self.wf(),
        ensures
            r == self@.contains_key(*id),
    {
        let pos = self.lower_bound(id);
        let r = pos < self.entries.len() && self.entries[pos].0.0 == id.0;
        proof {
            self.lemma_walk();
            self.lemma_entries();
            if r {
                assert(self.keys()[pos as int] == *id);
            } else if self.keys().contains(*id) {
                let k = self.keys().index_of(*id);
                assert(self.keys()[k] == *id);
            }
        }
        r
    }

    pub fn get(&self, id: &ObjectID) -> (r: Option<&V>)
        requires
            self.wf(),
        ensures
            r is Some == self@.contains_key(*id),
            r is Some ==> *r->0 == self@[*id],
    {
        let pos = self.lower_bound(id);
        proof {
            self.lemma_walk();
            self.lemma_entries();
        }
        if pos < self.entries.len() && self.entries[pos].0.0 == id.0 {
            proof {
                assert(self.keys()[pos as int] == *id);
            }
            Some(&self.entries[pos].1)
        } else {
            proof {
                if self.keys().contains(*id) {
                    let k = self.keys().index_of(*id);
                    assert(self.keys()[k] == *id);
                }
            }
            None
        }
    }

    /// Binds `id` to `value`, replacing what it was bound to.
    pub fn insert(&mut self, id: ObjectID, value: V)
        requires
            old(self).wf(),
        ensures
            final(self).wf(),
            final(self)@ == old(self)@.insert(id, value),
    {
        let pos = self.lower_bound(&id);
        let ghost before = *self;
        proof {
            before.lemma_entries();
        }
        if pos < self.entries.len() && self.entries[pos].0.0 == id.0 {
            self.entries.set(pos, (id, value));
            proof {
                self.lemma_entries();
                assert(self.keys() =~= before.keys());
                assert(self.values() =~= before.values().update(pos as int, value));
                assert(before.keys()[pos as int] == id);
                lemma_map_of_update(before.keys(), before.values(), pos as int, value);
            }
        } else {
            self.entries.insert(pos, (id, value));
            proof {
                self.lemma_entries();
                assert(self.keys() =~= before.keys().insert(pos as int, id));
                assert(self.values() =~= before.values().insert(pos as int, value));
                lemma_map_of_insert(before.keys(), before.values(), pos as int, id, value);
            }
        }
    }

    /// Forgets every binding.
    pub fn clear(&mut self)
        ensures
            final(self).wf(),
            final(self)@ == Map::<ObjectID, V>::empty(),
            final(self).keys() == Seq::<ObjectID>::empty(),
    {
        self.entries.clear();
        proof {
            assert(self.keys() =~= Seq::<ObjectID>::empty());
            assert(self@ =~= Map::<ObjectID, V>::empty());
        }
    }
}

} // verus!
