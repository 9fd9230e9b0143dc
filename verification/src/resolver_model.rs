//! What the lookups of the store return, as mathematics.

use crate::base_types::ObjectID;
use crate::error::SuiError;
use crate::model::StoreView;
use crate::object::{DataView, MoveObjectTypeView, ObjectView};
use vstd::prelude::*;

verus! {

/// Where the module of a package is to be had.
#[derive(Debug, PartialEq, Eq)]
pub enum ModuleSource {
    /// The transaction wrote the package: these are the bytes of the module.
    Written(Vec<u8>),
    /// The transaction did not write the package: the storage behind the store has it, if any has.
    Backing,
}

/// Where the module of a package is to be had, as a mathematical value.
pub enum ModuleSourceView {
    Written(Seq<u8>),
    Backing,
}

impl View for ModuleSource {
    type V = ModuleSourceView;

    open spec fn view(&self) -> ModuleSourceView {
        match self {
            ModuleSource::Written(bytes) => ModuleSourceView::Written(bytes@),
            ModuleSource::Backing => ModuleSourceView::Backing,
        }
    }
}

/// The module `name` of what should be package `package`: an error where it is no package.
pub open spec fn module_of(package: ObjectView, name: Seq<char>) -> Result<Option<Seq<u8>>, SuiError> {
    match package.data {
        DataView::Package(p) => Ok(p.module_bytes(name)),
        DataView::Move(_) => Err(SuiError::BadObjectType),
    }
}

impl StoreView {
    /// The child `child` as the store sees it: what was written under it,
    /// else what the storage behind the store holds.
    pub open spec fn read_child_object(
        self,
        child: ObjectID,
        backing: Result<Option<ObjectView>, SuiError>,
    ) -> Result<Option<ObjectView>, SuiError> {
        if self.written.contains_key(child) {
            Ok(Some(self.written[child].1))
        } else {
            backing
        }
    }

    /// The module `name` of package `package_id`: from the package as the
    /// store reads it, else from the storage behind the store.
    pub open spec fn get_module(
        self,
        package_id: ObjectID,
        name: Seq<char>,
        backing: Result<Option<ObjectView>, SuiError>,
    ) -> Result<Option<Seq<u8>>, SuiError> {
        match self.read(package_id) {
            Some(package) => module_of(package, name),
            None => match backing {
                Ok(Some(package)) => module_of(package, name),
                Ok(None) => Ok(None),
                Err(e) => Err(e),
            },
        }
    }

    /// The bytes of the Move object `id`, which should be of type
    /// `struct_tag`: nothing where the store cannot read the object; where
    /// it is a package or of another type, the error that tells of an
    /// inconsistency of the engine.
    pub open spec fn get_resource(self, id: ObjectID, struct_tag: MoveObjectTypeView) -> Result<
        Option<Seq<u8>>,
        SuiError,
    > {
        match self.read(id) {
            None => Ok(None),
            Some(object) => match object.data {
                DataView::Move(m) => if m.type_ == struct_tag {
                    Ok(Some(m.contents))
                } else {
                    Err(SuiError::ExecutionInvariantViolation)
                },
                DataView::Package(_) => Err(SuiError::ExecutionInvariantViolation),
            },
        }
    }

    /// Where module `name` of package `package_id` is to be had: with the
    /// store where the transaction wrote the package, else with the storage
    /// behind it.
    pub open spec fn get_module_by_id(self, package_id: ObjectID, name: Seq<char>) -> Result<
        ModuleSourceView,
        SuiError,
    > {
        if self.written.contains_key(package_id) {
            match self.written[package_id].1.data {
                DataView::Package(p) => match p.module_bytes(name) {
                    Some(bytes) => Ok(ModuleSourceView::Written(bytes)),
                    None => Err(SuiError::ModuleNotFound),
                },
                DataView::Move(_) => Err(SuiError::BadObjectType),
            }
        } else {
            Ok(ModuleSourceView::Backing)
        }
    }

    /// Whether every written object was last changed by the transaction of the store.
    pub open spec fn written_stamped(self) -> bool {
        forall|id: ObjectID| #[trigger]
            self.written.contains_key(id) ==> self.written[id].1.previous_transaction == self.tx_digest
    }
}

} // verus!
