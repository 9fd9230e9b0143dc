//! What is left of a store once its transaction is over.

use crate::base_types::{ObjectID, ObjectRef, SequenceNumber, SuiAddress};
use crate::event::TransactionEvents;
use crate::finalize_model::{FinalWritten, InnerView};
use crate::id_map::{sorted_ids, IdMap};
use crate::messages::objects_view;
use crate::object::Object;
use crate::storage::{DeleteKind, WriteKind};
use vstd::prelude::*;

verus! {

/// The values of the written objects of a post-image.
pub open spec fn final_written_view(written: Map<ObjectID, (ObjectRef, Object, WriteKind)>) -> Map<
    ObjectID,
    FinalWritten,
> {
    written.map_values(|e: (ObjectRef, Object, WriteKind)| (e.0, e.1@, e.2))
}

/// The post-image of a transaction: its inputs, what it wrote and deleted, and its events.
#[derive(Clone, Debug, PartialEq, Eq)]
pub struct InnerTemporaryStore {
    pub objects: IdMap<Object>,
    pub mutable_inputs: Vec<ObjectRef>,
    pub written: IdMap<(ObjectRef, Object, WriteKind)>,
    pub deleted: IdMap<(SequenceNumber, DeleteKind)>,
    pub events: TransactionEvents,
}

impl View for InnerTemporaryStore {
    type V = InnerView;

    open spec fn view(&self) -> InnerView {
        InnerView {
            objects: objects_view(self.objects@),
            mutable_inputs: self.mutable_inputs@,
            written: final_written_view(self.written@),
            deleted: self.deleted@,
            events: self.events@,
        }
    }
}

impl InnerView {
    /// The identifiers among `ids` of the objects that the transaction created, in order.
    pub open spec fn created_among(self, ids: Seq<ObjectID>) -> Seq<ObjectID>
        decreases ids.len(),
    {
        if ids.len() == 0 {
            Seq::empty()
        } else if self.written[ids.last()].2 is Create {
            self.created_among(ids.drop_last()).push(self.written[ids.last()].0.0)
        } else {
            self.created_among(ids.drop_last())
        }
    }

    /// The identifiers of the objects that the transaction created, in increasing order.
    pub open spec fn created(self) -> Seq<ObjectID> {
        self.created_among(sorted_ids(self.written.dom()))
    }

    /// The identifiers among `ids` of the written objects that `address` owns, in order.
    pub open spec fn owned_among(self, address: SuiAddress, ids: Seq<ObjectID>) -> Seq<ObjectID>
        decreases ids.len(),
    {
        if ids.len() == 0 {
            Seq::empty()
        } else if self.written[ids.last()].1.single_owner() == Some(address) {
            self.owned_among(address, ids.drop_last()).push(self.written[ids.last()].1.id())
        } else {
            self.owned_among(address, ids.drop_last())
        }
    }

    /// The identifiers of the written objects that `address` owns, in increasing order.
    pub open spec fn written_objects_owned_by(self, address: SuiAddress) -> Seq<ObjectID> {
        self.owned_among(address, sorted_ids(self.written.dom()))
    }
}

impl InnerTemporaryStore {
    /// The invariant of the representation.
    pub open spec fn wf(&self) -> bool {
        self.objects.wf() && self.written.wf() && self.deleted.wf()
    }

    /// The object written under `id`, if there is one.
    pub fn get_written_object(&self, id: &ObjectID) -> (r: Option<&Object>)
        requires
            self.wf(),
        ensures
            r is Some == self@.written.contains_key(*id),
            r is Some ==> r->0@ == self@.written[*id].1,
    {
        match self.written.get(id) {
            Some(entry) => Some(&entry.1),
            None => None,
        }
    }

    /// The identifiers of the objects that the transaction created.
    pub fn created(&self) -> (r: Vec<ObjectID>)
        requires
            self.wf(),
        ensures
            r@ == self@.created(),
    {
        let mut created: Vec<ObjectID> = Vec::new();
        let ghost v = self@;
        let ghost keys = self.written.keys();
        proof {
            self.written.lemma_keys_sorted();
            self.written.lemma_walk();
            assert(v.written.dom() =~= self.written@.dom());
        }
        let mut i: usize = 0;
        while i < self.written.len()
            invariant
                i <= keys.len(),
                v == self@,
                keys == self.written.keys(),
                keys.len() == self.written.values().len(),
                forall|k: int|
                    0 <= k < keys.len() ==> self.written@.contains_key(#[trigger] keys[k])
                        && self.written@[keys[k]] == self.written.values()[k],
                created@ == v.created_among(keys.take(i as int)),
            decreases keys.len() - i,
        {
            let entry = self.written.value_at(i);
            proof {
                assert(keys.take(i + 1).drop_last() =~= keys.take(i as int));
                assert(keys.take(i + 1).last() == keys[i as int]);
                assert(self.written@.contains_key(keys[i as int]));
            }
            match entry.2 {
                WriteKind::Create => {
                    created.push(entry.0.0);
                },
                _ => {},
            }
            i = i + 1;
        }
        proof {
            assert(keys.take(i as int) =~= keys);
        }
        created
    }

    /// The identifiers of the written objects that `address` owns.
    pub fn get_written_objects_owned_by(&self, address: &SuiAddress) -> (r: Vec<ObjectID>)
        requires
            self.wf(),
        ensures
            r@ == self@.written_objects_owned_by(*address),
    {
        let mut owned: Vec<ObjectID> = Vec::new();
        let ghost v = self@;
        let ghost keys = self.written.keys();
        proof {
            self.written.lemma_keys_sorted();
            self.written.lemma_walk();
            assert(v.written.dom() =~= self.written@.dom());
        }
        let mut i: usize = 0;
        while i < self.written.len()
            invariant
                i <= keys.len(),
                v == self@,
                keys == self.written.keys(),
                keys.len() == self.written.values().len(),
                forall|k: int|
                    0 <= k < keys.len() ==> self.written@.contains_key(#[trigger] keys[k])
                        && self.written@[keys[k]] == self.written.values()[k],
                owned@ == v.owned_among(*address, keys.take(i as int)),
            decreases keys.len() - i,
        {
            let entry = self.written.value_at(i);
            proof {
                assert(keys.take(i + 1).drop_last() =~= keys.take(i as int));
                assert(keys.take(i + 1).last() == keys[i as int]);
                assert(self.written@.contains_key(keys[i as int]));
            }
            match entry.1.get_single_owner() {
                Some(owner) => {
                    if owner == *address {
                        owned.push(entry.1.id());
                    }
                },
                None => {},
            }
            i = i + 1;
        }
        proof {
            assert(keys.take(i as int) =~= keys);
        }
        owned
    }
}

} // verus!
