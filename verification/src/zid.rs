//! The id of a Zenoh node.

use vstd::prelude::*;
use crate::message::same_bytes;
use crate::outside::zenoh_id;

verus! {

/// Whether sixteen little-endian bytes are the bytes of a Zenoh id: an id is any number of at
/// most sixteen bytes but zero.
pub open spec fn is_zenoh_id(bytes: Seq<u8>) -> bool {
    &&& bytes.len() == 16
    &&& exists|i: int| 0 <= i < 16 && bytes[i] != 0
}

/// The id of a Zenoh node: sixteen little-endian bytes that are not all zero.
#[derive(Debug, Clone, Copy)]
pub struct ZenohId {
    bytes: [u8; 16],
}

impl View for ZenohId {
    type V = Seq<u8>;

    closed spec fn view(&self) -> Seq<u8> {
        self.bytes@
    }
}

impl ZenohId {
    #[verifier::type_invariant]
    pub open spec fn wf(self) -> bool {
        is_zenoh_id(self@)
    }

    /// The id with those bytes, if they are the bytes of an id.
    pub fn from_le_bytes(bytes: [u8; 16]) -> (zid: Option<ZenohId>)
        ensures
            zid is Some <==> is_zenoh_id(bytes@),
            zid matches Some(id) ==> id@ == bytes@,
    {
        match zenoh_id(&bytes) {
            Some(kept) => Some(ZenohId { bytes: kept }),
            None => None,
        }
    }

    /// The bytes of the id.
    pub fn to_le_bytes(&self) -> (bytes: [u8; 16])
        ensures
            bytes@ == self@,
            is_zenoh_id(bytes@),
    {
        proof {
            use_type_invariant(self);
        }
        self.bytes
    }
}

/// Two ids are equal if their bytes are.
impl PartialEq for ZenohId {
    fn eq(&self, other: &ZenohId) -> (same: bool) {
        same_bytes(&self.bytes, &other.bytes)
    }
}

impl vstd::std_specs::cmp::PartialEqSpecImpl for ZenohId {
    open spec fn obeys_eq_spec() -> bool {
        true
    }

    open spec fn eq_spec(&self, other: &ZenohId) -> bool {
        self@ == other@
    }
}

impl Eq for ZenohId {

}

} // verus!
