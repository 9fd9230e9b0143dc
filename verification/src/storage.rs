//! What the execution engine tells the store, and what the store asks of the
//! persistent storage behind it.

use crate::base_types::{ObjectID, ObjectRef, SequenceNumber, SuiAddress};
use crate::error::SuiError;
use crate::object::{Object, ObjectView};
use vstd::prelude::*;

verus! {

/// Identifier of the package that holds the framework of the system.
pub const SUI_FRAMEWORK_OBJECT_ID: u128 = 2;

/// Whether `id` names a package of the system itself.
pub open spec fn spec_is_system_package(id: ObjectID) -> bool {
    id.0 == 1 || id.0 == 2
}

pub fn is_system_package(id: ObjectID) -> (r: bool)
    ensures
        r == spec_is_system_package(id),
{
    id.0 == 1 || id.0 == 2
}

/// How a written object came to be written.
#[derive(Clone, Copy, Debug, PartialEq, Eq, Structural)]
pub enum WriteKind {
    /// An existing object was changed.
    Mutate,
    /// A new object came into being.
    Create,
    /// An object that was wrapped inside another is a top-level object again.
    Unwrap,
}

/// How a deleted object came to be deleted.
#[derive(Clone, Copy, Debug, PartialEq, Eq, Structural)]
pub enum DeleteKind {
    /// An object of the ledger was destroyed.
    Normal,
    /// An object was unwrapped and destroyed in the same transaction.
    UnwrapThenDelete,
    /// An object was wrapped into another object.
    Wrap,
}

/// On whose behalf, and from which module, a change is made.
#[derive(Clone, Debug, PartialEq, Eq)]
pub struct SingleTxContext {
    pub package_id: ObjectID,
    pub transaction_module: String,
    pub sender: SuiAddress,
}

/// A context as a mathematical value.
pub struct SingleTxContextView {
    pub package_id: ObjectID,
    pub transaction_module: Seq<char>,
    pub sender: SuiAddress,
}

impl View for SingleTxContext {
    type V = SingleTxContextView;

    open spec fn view(&self) -> SingleTxContextView {
        SingleTxContextView {
            package_id: self.package_id,
            transaction_module: self.transaction_module@,
            sender: self.sender,
        }
    }
}

impl SingleTxContextView {
    /// The context of a change that `sender` makes through module `module` of the framework.
    pub open spec fn sui_transaction(module: Seq<char>, sender: SuiAddress) -> SingleTxContextView {
        SingleTxContextView {
            package_id: ObjectID(SUI_FRAMEWORK_OBJECT_ID),
            transaction_module: module,
            sender,
        }
    }

    /// The context under which the engine charges gas to `sender`.
    pub open spec fn gas(sender: SuiAddress) -> SingleTxContextView {
        Self::sui_transaction("gas"@, sender)
    }

    /// The context under which the engine bumps an input that the
    /// transaction of `sender` left untouched.
    pub open spec fn unused_input(sender: SuiAddress) -> SingleTxContextView {
        Self::sui_transaction("unused_input_object"@, sender)
    }
}

impl SingleTxContext {
    pub fn new(package_id: ObjectID, transaction_module: String, sender: SuiAddress) -> (c: Self)
        ensures
            c@ == (SingleTxContextView {
                package_id,
                transaction_module: transaction_module@,
                sender,
            }),
    {
        SingleTxContext { package_id, transaction_module, sender }
    }

    /// The context under which the engine charges gas to `sender`.
    pub fn gas(sender: SuiAddress) -> (c: Self)
        ensures
            c@ == SingleTxContextView::gas(sender),
    {
        SingleTxContext {
            package_id: ObjectID(SUI_FRAMEWORK_OBJECT_ID),
            transaction_module: "gas".to_owned(),
            sender,
        }
    }

    /// The context under which the engine bumps an input that the transaction left untouched.
    pub fn unused_input(sender: SuiAddress) -> (c: Self)
        ensures
            c@ == SingleTxContextView::unused_input(sender),
    {
        SingleTxContext {
            package_id: ObjectID(SUI_FRAMEWORK_OBJECT_ID),
            transaction_module: "unused_input_object".to_owned(),
            sender,
        }
    }

    pub fn duplicate(&self) -> (r: Self)
        ensures
            r@ == self@,
    {
        SingleTxContext {
            package_id: self.package_id,
            transaction_module: self.transaction_module.clone(),
            sender: self.sender,
        }
    }
}

/// One change that the engine asks the store to stage.
#[derive(Clone, Debug, PartialEq, Eq)]
pub enum ObjectChange {
    Write(SingleTxContext, Object, WriteKind),
    Delete(SingleTxContext, SequenceNumber, DeleteKind),
}

/// A change as a mathematical value.
pub enum ObjectChangeView {
    Write(SingleTxContextView, ObjectView, WriteKind),
    Delete(SingleTxContextView, SequenceNumber, DeleteKind),
}

impl View for ObjectChange {
    type V = ObjectChangeView;

    open spec fn view(&self) -> ObjectChangeView {
        match self {
            ObjectChange::Write(ctx, object, kind) => ObjectChangeView::Write(ctx@, object@, *kind),
            ObjectChange::Delete(ctx, version, kind) => ObjectChangeView::Delete(ctx@, *version, *kind),
        }
    }
}

/// Whether `r` is the result `expected`, object for object by value.
pub open spec fn is_object_result(
    r: Result<Option<Object>, SuiError>,
    expected: Result<Option<ObjectView>, SuiError>,
) -> bool {
    match expected {
        Ok(Some(o)) => r is Ok && r->Ok_0 is Some && r->Ok_0->0@ == o,
        Ok(None) => r is Ok && r->Ok_0 is None,
        Err(e) => r == Err::<Option<Object>, SuiError>(e),
    }
}

/// Whether `r` is the result `expected`, byte for byte.
pub open spec fn is_bytes_result(
    r: Result<Option<Vec<u8>>, SuiError>,
    expected: Result<Option<Seq<u8>>, SuiError>,
) -> bool {
    match expected {
        Ok(Some(bytes)) => r is Ok && r->Ok_0 is Some && r->Ok_0->0@ == bytes,
        Ok(None) => r is Ok && r->Ok_0 is None,
        Err(e) => r == Err::<Option<Vec<u8>>, SuiError>(e),
    }
}

/// Storage that finds the child of an object.
pub trait ChildObjectResolver {
    /// What the storage holds for `child` under `parent`.
    spec fn spec_read_child_object(&self, parent: ObjectID, child: ObjectID) -> Result<
        Option<ObjectView>,
        SuiError,
    >;

    fn read_child_object(&self, parent: &ObjectID, child: &ObjectID) -> (r: Result<
        Option<Object>,
        SuiError,
    >)
        ensures
            is_object_result(r, self.spec_read_child_object(*parent, *child)),
    ;
}

/// Storage that knows the latest reference under which an object was seen.
pub trait ParentSync {
    spec fn spec_get_latest_parent_entry_ref(&self, object_id: ObjectID) -> Result<
        Option<ObjectRef>,
        SuiError,
    >;

    fn get_latest_parent_entry_ref(&self, object_id: ObjectID) -> (r: Result<Option<ObjectRef>, SuiError>)
        ensures
            r == self.spec_get_latest_parent_entry_ref(object_id),
    ;
}

/// Storage that holds published packages.
pub trait BackingPackageStore {
    spec fn spec_get_package(&self, package_id: ObjectID) -> Result<Option<ObjectView>, SuiError>;

    fn get_package(&self, package_id: &ObjectID) -> (r: Result<Option<Object>, SuiError>)
        ensures
            is_object_result(r, self.spec_get_package(*package_id)),
    ;
}

} // verus!
