use temp_store::base_types::{
    ObjectDigest, ObjectID, ObjectRef, ProtocolVersion, SequenceNumber, SuiAddress,
    TransactionDigest,
};
use temp_store::error::SuiError;
use temp_store::event::TransactionEvents;
use temp_store::id_map::IdMap;
use temp_store::inner_store::InnerTemporaryStore;
use temp_store::messages::{InputObjectKind, InputObjects, ProtocolConfig};
use temp_store::object::{
    MoveModule, MoveObject, MoveObjectType, MovePackage, Object, ObjectView, Owner,
};
use temp_store::resolver_model::ModuleSource;
use temp_store::storage::{
    is_system_package, BackingPackageStore, ChildObjectResolver, DeleteKind, ParentSync,
    SingleTxContext, WriteKind,
};
use temp_store::store::TemporaryStore;
use temp_store::system_state::{SuiSystemState, SuiSystemStateWrapper};

const A: SuiAddress = SuiAddress(0xA);

struct Backing {
    objects: Vec<Object>,
    broken: bool,
}

impl ChildObjectResolver for Backing {
    fn spec_read_child_object(&self, _parent: ObjectID, _child: ObjectID) -> Result<Option<ObjectView>, SuiError> {
        Ok(None)
    }

    fn read_child_object(&self, parent: &ObjectID, child: &ObjectID) -> Result<Option<Object>, SuiError> {
        if self.broken {
            return Err(SuiError::BadObjectType);
        }
        Ok(self
            .objects
            .iter()
            .find(|o| o.id() == *child && o.owner == Owner::ObjectOwner(*parent))
            .map(|o| o.duplicate()))
    }
}

impl ParentSync for Backing {
    fn spec_get_latest_parent_entry_ref(&self, _object_id: ObjectID) -> Result<Option<ObjectRef>, SuiError> {
        Ok(None)
    }

    fn get_latest_parent_entry_ref(&self, object_id: ObjectID) -> Result<Option<ObjectRef>, SuiError> {
        if self.broken {
            return Err(SuiError::BadObjectType);
        }
        Ok(self
            .objects
            .iter()
            .find(|o| o.id() == object_id)
            .map(|o| (o.id(), o.version(), digest(o))))
    }
}

impl BackingPackageStore for Backing {
    fn spec_get_package(&self, _package_id: ObjectID) -> Result<Option<ObjectView>, SuiError> {
        Ok(None)
    }

    fn get_package(&self, package_id: &ObjectID) -> Result<Option<Object>, SuiError> {
        if self.broken {
            return Err(SuiError::ModuleNotFound);
        }
        Ok(self.objects.iter().find(|o| o.id() == *package_id).map(|o| o.duplicate()))
    }
}

fn digest(object: &Object) -> ObjectDigest {
    ObjectDigest::new(object.version.0 as u128, object.id().0)
}

fn thing(id: u128, bytes: Vec<u8>, owner: Owner, version: u64) -> Object {
    Object::new_move(
        MoveObject::new(ObjectID(id), MoveObjectType::Other("0x7::m::T".to_string()), true, bytes),
        owner,
        SequenceNumber(version),
        TransactionDigest::genesis(),
    )
}

fn package(id: u128, modules: &[(&str, &[u8])]) -> Object {
    Object::new_package(
        MovePackage::new(
            ObjectID(id),
            modules.iter().map(|(n, b)| MoveModule::new(n.to_string(), b.to_vec())).collect(),
        ),
        SequenceNumber(1),
        TransactionDigest::genesis(),
    )
}

fn ctx() -> SingleTxContext {
    SingleTxContext::new(ObjectID(0x77), "m".to_string(), A)
}

fn store_with(backing: Backing, inputs: &[&Object]) -> TemporaryStore<Backing> {
    let inputs = InputObjects::new(
        inputs
            .iter()
            .map(|o| {
                let kind = if o.is_package() {
                    InputObjectKind::MovePackage(o.id())
                } else {
                    InputObjectKind::ImmOrOwnedMoveObject((o.id(), o.version(), digest(o)))
                };
                (kind, o.duplicate())
            })
            .collect(),
    );
    TemporaryStore::new(
        backing,
        inputs,
        TransactionDigest::new(0, 5),
        &ProtocolConfig::new(ProtocolVersion(1), 9900),
        &digest,
    )
}

#[test]
fn child_reads_prefer_what_was_written() {
    let parent = ObjectID(1);
    let stored = thing(2, vec![1], Owner::ObjectOwner(parent), 3);
    let mut store = store_with(Backing { objects: vec![stored.duplicate()], broken: false }, &[]);
    assert_eq!(store.read_child_object(&parent, &ObjectID(2)), Ok(Some(stored.duplicate())));
    assert_eq!(store.read_child_object(&parent, &ObjectID(3)), Ok(None));
    assert_eq!(store.read_child_object(&ObjectID(9), &ObjectID(2)), Ok(None));
    let newer = thing(2, vec![1, 2], Owner::ObjectOwner(parent), 3);
    store.write_object(&ctx(), newer.duplicate(), WriteKind::Mutate);
    let read = store.read_child_object(&parent, &ObjectID(2)).unwrap().unwrap();
    assert_eq!(read.data, newer.data);
    assert_eq!(read.previous_transaction, TransactionDigest::new(0, 5));
}

#[test]
fn child_reads_hand_on_the_error_of_the_backing_store() {
    let mut store = store_with(Backing { objects: vec![], broken: true }, &[]);
    assert_eq!(store.read_child_object(&ObjectID(1), &ObjectID(2)), Err(SuiError::BadObjectType));
    store.write_object(&ctx(), thing(2, vec![], Owner::ObjectOwner(ObjectID(1)), 0), WriteKind::Create);
    assert!(store.read_child_object(&ObjectID(1), &ObjectID(2)).unwrap().is_some());
}

#[test]
fn parent_entries_come_from_the_backing_store() {
    let stored = thing(2, vec![1], Owner::AddressOwner(A), 3);
    let mut store = store_with(Backing { objects: vec![stored.duplicate()], broken: false }, &[]);
    store.delete_object(&ctx(), &ObjectID(2), SequenceNumber(0), DeleteKind::Wrap);
    assert_eq!(
        store.get_latest_parent_entry_ref(ObjectID(2)),
        Ok(Some((ObjectID(2), SequenceNumber(3), digest(&stored))))
    );
    assert_eq!(store.get_latest_parent_entry_ref(ObjectID(3)), Ok(None));
    let broken = store_with(Backing { objects: vec![], broken: true }, &[]);
    assert_eq!(broken.get_latest_parent_entry_ref(ObjectID(2)), Err(SuiError::BadObjectType));
}

#[test]
fn modules_come_from_the_store_then_from_the_backing_store() {
    let input = package(10, &[("a", &[1]), ("b", &[2, 2])]);
    let stored = package(20, &[("c", &[3])]);
    let not_a_package = thing(30, vec![1], Owner::AddressOwner(A), 1);
    let store = store_with(
        Backing { objects: vec![stored, not_a_package.duplicate()], broken: false },
        &[&input],
    );
    assert_eq!(store.get_module(&ObjectID(10), &"b".to_string()), Ok(Some(vec![2, 2])));
    assert_eq!(store.get_module(&ObjectID(10), &"c".to_string()), Ok(None));
    assert_eq!(store.get_module(&ObjectID(20), &"c".to_string()), Ok(Some(vec![3])));
    assert_eq!(store.get_module(&ObjectID(40), &"c".to_string()), Ok(None));
    assert_eq!(store.get_module(&ObjectID(30), &"c".to_string()), Err(SuiError::BadObjectType));
    let broken = store_with(Backing { objects: vec![], broken: true }, &[&not_a_package]);
    assert_eq!(broken.get_module(&ObjectID(20), &"c".to_string()), Err(SuiError::ModuleNotFound));
    assert_eq!(broken.get_module(&ObjectID(30), &"c".to_string()), Err(SuiError::BadObjectType));
}

#[test]
fn modules_by_id_tell_where_to_look() {
    let input = package(10, &[("a", &[1])]);
    let mut store = store_with(Backing { objects: vec![], broken: false }, &[&input]);
    assert_eq!(store.get_module_by_id(&ObjectID(10), &"a".to_string()), Ok(ModuleSource::Backing));
    store.write_object(&ctx(), package(50, &[("x", &[7, 8])]), WriteKind::Create);
    store.write_object(&ctx(), thing(60, vec![1], Owner::AddressOwner(A), 0), WriteKind::Create);
    assert_eq!(
        store.get_module_by_id(&ObjectID(50), &"x".to_string()),
        Ok(ModuleSource::Written(vec![7, 8]))
    );
    assert_eq!(
        store.get_module_by_id(&ObjectID(50), &"y".to_string()),
        Err(SuiError::ModuleNotFound)
    );
    assert_eq!(
        store.get_module_by_id(&ObjectID(60), &"x".to_string()),
        Err(SuiError::BadObjectType)
    );
}

#[test]
fn resources_are_the_bytes_of_well_typed_objects() {
    let input = thing(5, vec![9, 8, 7], Owner::AddressOwner(A), 1);
    let pack = package(10, &[("a", &[1])]);
    let mut store = store_with(Backing { objects: vec![], broken: false }, &[&input, &pack]);
    let tag = MoveObjectType::Other("0x7::m::T".to_string());
    assert_eq!(store.get_resource(&ObjectID(5), &tag), Ok(Some(vec![9, 8, 7])));
    assert_eq!(store.get_resource(&ObjectID(6), &tag), Ok(None));
    assert_eq!(
        store.get_resource(&ObjectID(5), &MoveObjectType::Other("0x7::m::U".to_string())),
        Err(SuiError::ExecutionInvariantViolation)
    );
    assert_eq!(
        store.get_resource(&ObjectID(5), &MoveObjectType::GasCoin),
        Err(SuiError::ExecutionInvariantViolation)
    );
    assert_eq!(
        store.get_resource(&ObjectID(10), &tag),
        Err(SuiError::ExecutionInvariantViolation)
    );
    store.write_object(&ctx(), thing(5, vec![1], Owner::AddressOwner(A), 1), WriteKind::Mutate);
    assert_eq!(store.get_resource(&ObjectID(5), &tag), Ok(Some(vec![1])));
}

#[test]
fn system_packages_are_one_and_two() {
    assert!(is_system_package(ObjectID(1)));
    assert!(is_system_package(ObjectID(2)));
    assert!(!is_system_package(ObjectID(0)));
    assert!(!is_system_package(ObjectID(3)));
}

fn post_image(objects: Vec<Object>) -> InnerTemporaryStore {
    let mut written = IdMap::new();
    for o in objects {
        written.insert(o.id(), ((o.id(), o.version(), digest(&o)), o, WriteKind::Mutate));
    }
    InnerTemporaryStore {
        objects: IdMap::new(),
        mutable_inputs: vec![],
        written,
        deleted: IdMap::new(),
        events: TransactionEvents { data: vec![] },
    }
}

fn wrapper_bytes(id: u128, version: u64) -> Vec<u8> {
    let mut bytes = id.to_le_bytes().to_vec();
    bytes.extend_from_slice(&version.to_le_bytes());
    bytes
}

fn field_id(parent: ObjectID, name: u64) -> ObjectID {
    ObjectID(parent.0 * 1000 + name as u128)
}

#[test]
fn system_state_wrapper_is_read_from_what_was_written() {
    let wrapper = thing(5, wrapper_bytes(5, 1), Owner::Shared { initial_shared_version: SequenceNumber(1) }, 4);
    let inner = post_image(vec![wrapper]);
    assert_eq!(
        inner.get_sui_system_state_wrapper_object(),
        Some(SuiSystemStateWrapper { id: ObjectID(5), version: 1 })
    );
    assert_eq!(post_image(vec![]).get_sui_system_state_wrapper_object(), None);
    let short = thing(5, vec![1, 2, 3], Owner::Immutable, 4);
    assert_eq!(post_image(vec![short]).get_sui_system_state_wrapper_object(), None);
    assert_eq!(post_image(vec![package(5, &[])]).get_sui_system_state_wrapper_object(), None);
    let elsewhere = thing(6, wrapper_bytes(5, 1), Owner::Immutable, 4);
    assert_eq!(post_image(vec![elsewhere]).get_sui_system_state_wrapper_object(), None);
}

#[test]
fn system_state_is_the_field_of_the_wrapper() {
    let wrapper = thing(5, wrapper_bytes(5, 1), Owner::Immutable, 4);
    let mut field_bytes = wrapper_bytes(5001, 1);
    field_bytes.extend_from_slice(&[42, 43, 44]);
    let field = thing(5001, field_bytes, Owner::ObjectOwner(ObjectID(5)), 4);
    let inner = post_image(vec![wrapper.duplicate(), field]);
    assert_eq!(
        inner.get_sui_system_state_object(&field_id),
        Some(SuiSystemState { version: 1, contents: vec![42, 43, 44] })
    );
    assert_eq!(post_image(vec![wrapper.duplicate()]).get_sui_system_state_object(&field_id), None);
    let newer = thing(5, wrapper_bytes(5, 2), Owner::Immutable, 4);
    let newer_field = thing(5002, wrapper_bytes(5002, 2), Owner::ObjectOwner(ObjectID(5)), 4);
    assert_eq!(post_image(vec![newer, newer_field]).get_sui_system_state_object(&field_id), None);
    let short_field = thing(5001, vec![1, 2], Owner::ObjectOwner(ObjectID(5)), 4);
    assert_eq!(
        post_image(vec![wrapper.duplicate(), short_field]).get_sui_system_state_object(&field_id),
        None
    );
    let empty_state = thing(5001, wrapper_bytes(5001, 1), Owner::ObjectOwner(ObjectID(5)), 4);
    assert_eq!(
        post_image(vec![wrapper, empty_state]).get_sui_system_state_object(&field_id),
        Some(SuiSystemState { version: 1, contents: vec![] })
    );
}
