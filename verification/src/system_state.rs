//! The state of the system itself, as far as a post-image shows it.
//!
//! The state hangs below a wrapper object with a fixed identifier. The
//! wrapper holds its own identifier and the version of the state; the state
//! is the dynamic field of the wrapper under that version.

use crate::base_types::ObjectID;
use crate::coin::{bcs_from_bytes, coin_balance_of, coin_id_of, is_coin_bytes};
use crate::finalize_model::InnerView;
use crate::inner_store::InnerTemporaryStore;
use crate::object::{Data, DataView};
use vstd::prelude::*;

verus! {

/// Identifier of the wrapper of the system state.
pub const SUI_SYSTEM_STATE_OBJECT_ID: u128 = 5;

/// The only version of the system state that can be read.
pub const SUI_SYSTEM_STATE_VERSION: u64 = 1;

/// Number of bytes that a dynamic field holds before its value: its
/// identifier and its name.
pub const FIELD_HEADER_LENGTH: usize = 24;

/// The wrapper of the system state.
#[derive(Clone, Copy, Debug, PartialEq, Eq, Structural)]
pub struct SuiSystemStateWrapper {
    pub id: ObjectID,
    pub version: u64,
}

/// The system state: its version and its serialized form.
#[derive(Debug, PartialEq, Eq)]
pub struct SuiSystemState {
    pub version: u64,
    pub contents: Vec<u8>,
}

/// Whether `d` can stand for the rule that names the dynamic fields of an
/// object: it accepts every parent and name, and returns one identifier for each.
pub open spec fn is_field_id_fn<D: Fn(ObjectID, u64) -> ObjectID>(d: &D) -> bool {
    &&& forall|parent: ObjectID, name: u64| #[trigger] call_requires(d, (parent, name))
    &&& forall|parent: ObjectID, name: u64, x: ObjectID, y: ObjectID|
        #[trigger] call_ensures(d, (parent, name), x) && #[trigger] call_ensures(d, (parent, name), y)
            ==> x == y
}

/// The identifier that `d` gives to the dynamic field `name` of `parent`.
pub open spec fn field_id<D: Fn(ObjectID, u64) -> ObjectID>(d: &D, parent: ObjectID, name: u64) -> ObjectID {
    choose|id: ObjectID| call_ensures(d, (parent, name), id)
}

impl InnerView {
    /// The wrapper of the system state, where the transaction wrote it as a
    /// Move object whose bytes can be read.
    pub open spec fn system_state_wrapper(self) -> Option<SuiSystemStateWrapper> {
        let id = ObjectID(SUI_SYSTEM_STATE_OBJECT_ID);
        if self.written.contains_key(id) {
            match self.written[id].1.data {
                DataView::Move(m) => if is_coin_bytes(m.contents) {
                    Some(
                        SuiSystemStateWrapper {
                            id: coin_id_of(m.contents),
                            version: coin_balance_of(m.contents),
                        },
                    )
                } else {
                    None
                },
                DataView::Package(_) => None,
            }
        } else {
            None
        }
    }

    /// The serialized system state, where the transaction wrote the wrapper
    /// at the version that can be read and, as a Move object, the dynamic
    /// field of the wrapper under that version.
    pub open spec fn system_state<D: Fn(ObjectID, u64) -> ObjectID>(self, d: &D) -> Option<Seq<u8>> {
        match self.system_state_wrapper() {
            Some(wrapper) => {
                let id = field_id(d, wrapper.id, wrapper.version);
                if wrapper.version == SUI_SYSTEM_STATE_VERSION && self.written.contains_key(id) {
                    match self.written[id].1.data {
                        DataView::Move(m) => if m.contents.len() >= FIELD_HEADER_LENGTH {
                            Some(m.contents.subrange(FIELD_HEADER_LENGTH as int, m.contents.len() as int))
                        } else {
                            None
                        },
                        DataView::Package(_) => None,
                    }
                } else {
                    None
                }
            },
            None => None,
        }
    }
}

/// The bytes of `v` from position `start` on.
fn copy_bytes_from(v: &Vec<u8>, start: usize) -> (r: Vec<u8>)
    requires
        start <= v.len(),
    ensures
        r@ == v@.subrange(start as int, v.len() as int),
{
    let mut r: Vec<u8> = Vec::new();
    let mut i: usize = start;
    while i < v.len()
        invariant
            start <= i <= v.len(),
            r@ == v@.subrange(start as int, i as int),
        decreases v.len() - i,
    {
        r.push(v[i]);
        i = i + 1;
        assert(r@ =~= v@.subrange(start as int, i as int));
    }
    r
}

impl InnerTemporaryStore {
    /// The wrapper of the system state, if the transaction wrote it.
    pub fn get_sui_system_state_wrapper_object(&self) -> (r: Option<SuiSystemStateWrapper>)
        requires
            self.wf(),
        ensures
            r == self@.system_state_wrapper(),
    {
        match self.written.get(&ObjectID(SUI_SYSTEM_STATE_OBJECT_ID)) {
            Some(entry) => {
                match &entry.1.data {
                    Data::Move(m) => {
                        match bcs_from_bytes(m.contents.as_slice()) {
                            Ok(pair) => Some(SuiSystemStateWrapper { id: ObjectID(pair.0), version: pair.1 }),
                            Err(_) => None,
                        }
                    },
                    Data::Package(_) => None,
                }
            },
            None => None,
        }
    }

    /// The system state, if the transaction wrote it. The identifier of the
    /// dynamic field that holds it comes from `field_id_of`.
    pub fn get_sui_system_state_object<D: Fn(ObjectID, u64) -> ObjectID>(&self, field_id_of: &D) -> (r:
        Option<SuiSystemState>)
        requires
            self.wf(),
            is_field_id_fn(field_id_of),
        ensures
            match self@.system_state(field_id_of) {
                Some(contents) => r is Some && r->0.version == SUI_SYSTEM_STATE_VERSION && r->0.contents@
                    == contents,
                None => r is None,
            },
    {
        match self.get_sui_system_state_wrapper_object() {
            Some(wrapper) => {
                if wrapper.version != SUI_SYSTEM_STATE_VERSION {
                    return None;
                }
                let id = field_id_of(wrapper.id, wrapper.version);
                match self.written.get(&id) {
                    Some(entry) => {
                        match &entry.1.data {
                            Data::Move(m) => {
                                if m.contents.len() >= FIELD_HEADER_LENGTH {
                                    Some(
                                        SuiSystemState {
                                            version: wrapper.version,
                                            contents: copy_bytes_from(&m.contents, FIELD_HEADER_LENGTH),
                                        },
                                    )
                                } else {
                                    None
                                }
                            },
                            Data::Package(_) => None,
                        }
                    },
                    None => None,
                }
            },
            None => None,
        }
    }
}

} // verus!
