//! What a transaction declares as its inputs, and the rules it runs under.

use crate::base_types::{
    ObjectDigest, ObjectID, ObjectRef, ProtocolVersion, SequenceNumber, MAX_VERSION,
};
use crate::id_map::IdMap;
use crate::object::{Object, ObjectView, is_digest_fn};
use vstd::prelude::*;

verus! {

/// The rules of the protocol that the store reads.
#[derive(Clone, Copy, Debug, PartialEq, Eq, Structural)]
pub struct ProtocolConfig {
    /// The version of the rules.
    pub version: ProtocolVersion,
    /// The share of a storage rebate that goes back to the sender, in parts of ten thousand.
    pub storage_rebate_rate: u64,
}

impl ProtocolConfig {
    pub fn new(version: ProtocolVersion, storage_rebate_rate: u64) -> (c: Self)
        ensures
            c == (ProtocolConfig { version, storage_rebate_rate }),
    {
        ProtocolConfig { version, storage_rebate_rate }
    }

    /// The rules of the first version of the protocol.
    pub fn get_for_min_version() -> (c: Self)
        ensures
            c == (ProtocolConfig { version: ProtocolVersion(1), storage_rebate_rate: 9900 }),
    {
        ProtocolConfig { version: ProtocolVersion(1), storage_rebate_rate: 9900 }
    }

    pub fn storage_rebate_rate(&self) -> (r: u64)
        ensures
            r == self.storage_rebate_rate,
    {
        self.storage_rebate_rate
    }
}

/// How a transaction uses one of its inputs.
#[derive(Clone, Copy, Debug, PartialEq, Eq)]
pub enum InputObjectKind {
    /// A package that the transaction calls into.
    MovePackage(ObjectID),
    /// An object that is owned or frozen, at the version given.
    ImmOrOwnedMoveObject(ObjectRef),
    /// A shared object, which the transaction may or may not change.
    SharedMoveObject { id: ObjectID, initial_shared_version: SequenceNumber, mutable: bool },
}

impl InputObjectKind {
    pub open spec fn object_id(self) -> ObjectID {
        match self {
            InputObjectKind::MovePackage(id) => id,
            InputObjectKind::ImmOrOwnedMoveObject(r) => r.0,
            InputObjectKind::SharedMoveObject { id, .. } => id,
        }
    }
}

pub type InputView = (InputObjectKind, ObjectView);

/// Whether one input is consistent: it is declared under its own identifier,
/// its version is not the last one, a package is frozen, and what is declared
/// shared and mutable is not.
pub open spec fn input_ok(input: InputView) -> bool {
    let (kind, object) = input;
    &&& kind.object_id() == object.id()
    &&& object.version.0 < MAX_VERSION
    &&& (object.is_package() ==> object.is_immutable())
    &&& (kind matches InputObjectKind::SharedMoveObject { mutable, .. } ==> !(mutable
        && object.is_immutable()))
}

/// Whether the inputs are consistent: each is, and no object occurs twice.
pub open spec fn inputs_wf(inputs: Seq<InputView>) -> bool {
    &&& forall|i: int| 0 <= i < inputs.len() ==> input_ok(#[trigger] inputs[i])
    &&& forall|i: int, j: int|
        0 <= i < j < inputs.len() ==> (#[trigger] inputs[i]).1.id() != (#[trigger] inputs[j]).1.id()
}

/// Consistent inputs stay consistent without the last of them.
pub proof fn lemma_inputs_wf_prefix(inputs: Seq<InputView>)
    requires
        inputs_wf(inputs),
        inputs.len() > 0,
    ensures
        inputs_wf(inputs.drop_last()),
{
    let init = inputs.drop_last();
    assert forall|i: int| 0 <= i < init.len() implies input_ok(#[trigger] init[i]) by {
        assert(init[i] == inputs[i]);
    }
    assert forall|i: int, j: int| 0 <= i < j < init.len() implies (#[trigger] init[i]).1.id() != (
    #[trigger] init[j]).1.id() by {
        assert(init[i] == inputs[i]);
        assert(init[j] == inputs[j]);
    }
}

/// The largest version among the inputs.
pub open spec fn max_version(inputs: Seq<InputView>) -> u64
    decreases inputs.len(),
{
    if inputs.len() == 0 {
        0
    } else {
        let rest = max_version(inputs.drop_last());
        let object = inputs.last().1;
        if object.version.0 > rest {
            object.version.0
        } else {
            rest
        }
    }
}

/// The version that follows every version among the inputs.
pub open spec fn inputs_lamport_timestamp(inputs: Seq<InputView>) -> SequenceNumber {
    SequenceNumber((max_version(inputs) + 1) as u64)
}

/// The reference under which one input may be mutated, if it may.
pub open spec fn mutable_ref_of<F: Fn(&Object) -> ObjectDigest>(input: InputView, f: &F) -> Option<
    ObjectRef,
> {
    match input.0 {
        InputObjectKind::MovePackage(_) => None,
        InputObjectKind::ImmOrOwnedMoveObject(object_ref) => if input.1.is_immutable() {
            None
        } else {
            Some(object_ref)
        },
        InputObjectKind::SharedMoveObject { mutable, .. } => if mutable {
            Some(input.1.object_reference(f))
        } else {
            None
        },
    }
}

/// The references of the inputs that the transaction may mutate, in the order of the inputs.
pub open spec fn inputs_mutable_refs<F: Fn(&Object) -> ObjectDigest>(
    inputs: Seq<InputView>,
    f: &F,
) -> Seq<ObjectRef>
    decreases inputs.len(),
{
    if inputs.len() == 0 {
        Seq::empty()
    } else {
        let rest = inputs_mutable_refs(inputs.drop_last(), f);
        match mutable_ref_of(inputs.last(), f) {
            Some(r) => rest.push(r),
            None => rest,
        }
    }
}

/// The inputs by identifier; of two inputs with one identifier the later counts.
pub open spec fn inputs_object_map(inputs: Seq<InputView>) -> Map<ObjectID, ObjectView>
    decreases inputs.len(),
{
    if inputs.len() == 0 {
        Map::empty()
    } else {
        inputs_object_map(inputs.drop_last()).insert(inputs.last().1.id(), inputs.last().1)
    }
}

/// The values of the objects of a map.
pub open spec fn objects_view(objects: Map<ObjectID, Object>) -> Map<ObjectID, ObjectView> {
    objects.map_values(|o: Object| o@)
}

/// Without inputs there is nothing to mutate.
pub proof fn lemma_no_inputs<F: Fn(&Object) -> ObjectDigest>(f: &F)
    ensures
        inputs_mutable_refs(Seq::<InputView>::empty(), f) == Seq::<ObjectRef>::empty(),
        inputs_object_map(Seq::<InputView>::empty()) == Map::<ObjectID, ObjectView>::empty(),
        max_version(Seq::<InputView>::empty()) == 0,
{
}

/// Every mutable reference names an input that is not frozen.
pub proof fn lemma_mutable_refs_in_inputs<F: Fn(&Object) -> ObjectDigest>(
    inputs: Seq<InputView>,
    f: &F,
)
    requires
        inputs_wf(inputs),
    ensures
        forall|i: int|
            0 <= i < inputs_mutable_refs(inputs, f).len() ==> {
                let r = #[trigger] inputs_mutable_refs(inputs, f)[i];
                exists|k: int| 0 <= k < inputs.len() && (#[trigger] inputs[k]).1.id() == r.0
                    && !inputs[k].1.is_immutable()
            },
    decreases inputs.len(),
{
    if inputs.len() > 0 {
        let init = inputs.drop_last();
        lemma_inputs_wf_prefix(inputs);
        lemma_mutable_refs_in_inputs(init, f);
        let rest = inputs_mutable_refs(init, f);
        let all = inputs_mutable_refs(inputs, f);
        assert forall|i: int| 0 <= i < all.len() implies {
            let r = #[trigger] all[i];
            exists|k: int| 0 <= k < inputs.len() && (#[trigger] inputs[k]).1.id() == r.0
                && !inputs[k].1.is_immutable()
        } by {
            if i < rest.len() {
                let r = rest[i];
                assert(all[i] == r);
                let k = choose|k: int| 0 <= k < init.len() && (#[trigger] init[k]).1.id() == r.0
                    && !init[k].1.is_immutable();
                assert(inputs[k] == init[k]);
            } else {
                let k = inputs.len() - 1;
                let last = inputs[k];
                assert(last == inputs.last());
                assert(mutable_ref_of(last, f) is Some);
                assert(all[i] == mutable_ref_of(last, f)->0);
                assert(input_ok(last));
                assert(last.0.object_id() == last.1.id());
                assert(inputs[k].1.id() == all[i].0 && !inputs[k].1.is_immutable());
            }
        }
    }
}

/// The object map holds the objects of the inputs, each under its identifier.
pub proof fn lemma_inputs_object_map(inputs: Seq<InputView>)
    ensures
        inputs_object_map(inputs).dom().finite(),
        forall|id: ObjectID| #[trigger]
            inputs_object_map(inputs).contains_key(id) ==> inputs_object_map(inputs)[id].id() == id
                && exists|k: int|
                0 <= k < inputs.len() && (#[trigger] inputs[k]).1 == inputs_object_map(inputs)[id],
        forall|k: int|
            0 <= k < inputs.len() ==> inputs_object_map(inputs).contains_key(
                (#[trigger] inputs[k]).1.id(),
            ),
    decreases inputs.len(),
{
    if inputs.len() > 0 {
        let init = inputs.drop_last();
        lemma_inputs_object_map(init);
        let m = inputs_object_map(inputs);
        assert forall|id: ObjectID| #[trigger] m.contains_key(id) implies m[id].id() == id
            && exists|k: int| 0 <= k < inputs.len() && (#[trigger] inputs[k]).1 == m[id] by {
            if id == inputs.last().1.id() {
                assert(inputs[inputs.len() - 1].1 == m[id]);
            } else {
                assert(inputs_object_map(init).contains_key(id));
                let k = choose|k: int|
                    0 <= k < init.len() && (#[trigger] init[k]).1 == inputs_object_map(init)[id];
                assert(inputs[k].1 == init[k].1);
            }
        }
        assert forall|k: int| 0 <= k < inputs.len() implies m.contains_key(
            (#[trigger] inputs[k]).1.id(),
        ) by {
            if k < init.len() {
                assert(init[k] == inputs[k]);
            }
        }
    }
}

/// The largest version among the inputs bounds each of them, and is below the last version.
pub proof fn lemma_max_version(inputs: Seq<InputView>)
    requires
        inputs_wf(inputs),
    ensures
        max_version(inputs) < MAX_VERSION,
        forall|k: int|
            0 <= k < inputs.len() ==> (#[trigger] inputs[k]).1.version.0 <= max_version(inputs),
    decreases inputs.len(),
{
    if inputs.len() > 0 {
        let init = inputs.drop_last();
        lemma_inputs_wf_prefix(inputs);
        lemma_max_version(init);
        assert(inputs[inputs.len() - 1] == inputs.last());
        assert(input_ok(inputs[inputs.len() - 1]));
        assert forall|k: int| 0 <= k < inputs.len() implies (#[trigger] inputs[k]).1.version.0
            <= max_version(inputs) by {
            if k < init.len() {
                assert(init[k] == inputs[k]);
            }
        }
    }
}

/// The inputs of a transaction, each with the way it is used.
pub struct InputObjects {
    objects: Vec<(InputObjectKind, Object)>,
}

impl InputObjects {
    /// The inputs as mathematical values, in their order.
    pub closed spec fn view(&self) -> Seq<InputView> {
        self.objects@.map_values(|e: (InputObjectKind, Object)| (e.0, e.1@))
    }

    pub fn new(objects: Vec<(InputObjectKind, Object)>) -> (r: Self)
        ensures
            r@ == objects@.map_values(|e: (InputObjectKind, Object)| (e.0, e.1@)),
    {
        InputObjects { objects }
    }

    pub fn len(&self) -> (n: usize)
        ensures
            n == self@.len(),
    {
        self.objects.len()
    }

    pub fn is_empty(&self) -> (r: bool)
        ensures
            r == (self@.len() == 0),
    {
        self.objects.len() == 0
    }

    /// Whether the inputs are consistent, as a store over them takes for granted.
    pub fn is_consistent(&self) -> (r: bool)
        ensures
            r == inputs_wf(self@),
    {
        let mut seen: IdMap<bool> = IdMap::new();
        let mut i: usize = 0;
        while i < self.objects.len()
            invariant
                i <= self.objects.len(),
                self@.len() == self.objects@.len(),
                seen.wf(),
                forall|k: int| 0 <= k < i ==> input_ok(#[trigger] self@[k]),
                forall|k: int, j: int|
                    0 <= k < j < i ==> (#[trigger] self@[k]).1.id() != (#[trigger] self@[j]).1.id(),
                forall|id: ObjectID|
                    seen@.contains_key(id) <==> exists|k: int|
                        0 <= k < i && (#[trigger] self@[k]).1.id() == id,
            decreases self.objects.len() - i,
        {
            let kind = self.objects[i].0;
            let object = &self.objects[i].1;
            proof {
                assert(self@[i as int] == (self.objects@[i as int].0, self.objects@[i as int].1@));
            }
            let declared = match kind {
                InputObjectKind::MovePackage(id) => id,
                InputObjectKind::ImmOrOwnedMoveObject(object_ref) => object_ref.0,
                InputObjectKind::SharedMoveObject { id, initial_shared_version: _, mutable: _ } => id,
            };
            let frozen_but_mutable = match kind {
                InputObjectKind::SharedMoveObject { id: _, initial_shared_version: _, mutable } => {
                    mutable && object.is_immutable()
                },
                _ => false,
            };
            let ok = declared == object.id() && object.version.0 < MAX_VERSION && (!object.is_package()
                || object.is_immutable()) && !frozen_but_mutable;
            if !ok {
                proof {
                    assert(!input_ok(self@[i as int]));
                }
                return false;
            }
            if seen.contains_key(&object.id()) {
                proof {
                    let k = choose|k: int| 0 <= k < i && (#[trigger] self@[k]).1.id() == object@.id();
                    assert(self@[k].1.id() == self@[i as int].1.id());
                }
                return false;
            }
            let ghost before = seen@;
            seen.insert(object.id(), true);
            proof {
                assert forall|id: ObjectID| seen@.contains_key(id) <==> exists|k: int|
                    0 <= k < i + 1 && (#[trigger] self@[k]).1.id() == id by {
                    if before.contains_key(id) {
                        let k = choose|k: int| 0 <= k < i && (#[trigger] self@[k]).1.id() == id;
                        assert(0 <= k < i + 1 && self@[k].1.id() == id);
                    }
                    if id == object@.id() {
                        assert(self@[i as int].1.id() == id);
                    }
                    if exists|k: int| 0 <= k < i + 1 && (#[trigger] self@[k]).1.id() == id {
                        let k = choose|k: int| 0 <= k < i + 1 && (#[trigger] self@[k]).1.id() == id;
                        if k < i {
                            assert(before.contains_key(id));
                        }
                    }
                }
                assert forall|k: int, j: int| 0 <= k < j < i + 1 implies (#[trigger] self@[k]).1.id() != (
                #[trigger] self@[j]).1.id() by {
                    if j == i {
                        if self@[k].1.id() == self@[j].1.id() {
                            assert(before.contains_key(self@[j].1.id()));
                        }
                    }
                }
            }
            i = i + 1;
        }
        true
    }

    /// The references of the inputs that the transaction may mutate.
    pub fn mutable_inputs<F: Fn(&Object) -> ObjectDigest>(&self, digest_of: &F) -> (r: Vec<ObjectRef>)
        requires
            is_digest_fn(digest_of),
        ensures
            r@ == inputs_mutable_refs(self@, digest_of),
    {
        let mut refs: Vec<ObjectRef> = Vec::new();
        let mut i: usize = 0;
        while i < self.objects.len()
            invariant
                i <= self.objects.len(),
                is_digest_fn(digest_of),
                self@.len() == self.objects@.len(),
                refs@ == inputs_mutable_refs(self@.take(i as int), digest_of),
            decreases self.objects.len() - i,
        {
            proof {
                assert(self@.take(i + 1).drop_last() =~= self@.take(i as int));
                assert(self@.take(i + 1).last() == self@[i as int]);
                assert(self@[i as int] == (self.objects@[i as int].0, self.objects@[i as int].1@));
            }
            let kind = self.objects[i].0;
            let object = &self.objects[i].1;
            match kind {
                InputObjectKind::MovePackage(_) => {},
                InputObjectKind::ImmOrOwnedMoveObject(object_ref) => {
                    if !object.is_immutable() {
                        refs.push(object_ref);
                    }
                },
                InputObjectKind::SharedMoveObject { id: _, initial_shared_version: _, mutable } => {
                    if mutable {
                        refs.push(object.compute_object_reference(digest_of));
                    }
                },
            }
            i = i + 1;
        }
        assert(self@.take(i as int) =~= self@);
        refs
    }

    /// The version that follows every version among the inputs.
    pub fn lamport_timestamp(&self) -> (r: SequenceNumber)
        requires
            inputs_wf(self@),
        ensures
            r == inputs_lamport_timestamp(self@),
    {
        let mut max: u64 = 0;
        let mut i: usize = 0;
        while i < self.objects.len()
            invariant
                i <= self.objects.len(),
                self@.len() == self.objects@.len(),
                max == max_version(self@.take(i as int)),
            decreases self.objects.len() - i,
        {
            proof {
                assert(self@.take(i + 1).drop_last() =~= self@.take(i as int));
                assert(self@.take(i + 1).last() == self@[i as int]);
                assert(self@[i as int] == (self.objects@[i as int].0, self.objects@[i as int].1@));
            }
            let object = &self.objects[i].1;
            if object.version.0 > max {
                max = object.version.0;
            }
            i = i + 1;
        }
        proof {
            assert(self@.take(i as int) =~= self@);
            lemma_max_version(self@);
        }
        SequenceNumber(max + 1)
    }

    /// The inputs by identifier.
    pub fn into_object_map(self) -> (m: IdMap<Object>)
        ensures
            m.wf(),
            objects_view(m@) == inputs_object_map(self@),
    {
        let mut m: IdMap<Object> = IdMap::new();
        let mut i: usize = 0;
        assert(objects_view(m@) =~= inputs_object_map(self@.take(0)));
        while i < self.objects.len()
            invariant
                i <= self.objects.len(),
                self@.len() == self.objects@.len(),
                m.wf(),
                objects_view(m@) == inputs_object_map(self@.take(i as int)),
            decreases self.objects.len() - i,
        {
            proof {
                assert(self@.take(i + 1).drop_last() =~= self@.take(i as int));
                assert(self@.take(i + 1).last() == self@[i as int]);
                assert(self@[i as int] == (self.objects@[i as int].0, self.objects@[i as int].1@));
            }
            let object = self.objects[i].1.duplicate();
            let ghost before = m@;
            m.insert(object.id(), object);
            proof {
                assert(objects_view(m@) =~= objects_view(before).insert(object@.id(), object@));
            }
            i = i + 1;
        }
        assert(self@.take(i as int) =~= self@);
        m
    }
}

} // verus!
