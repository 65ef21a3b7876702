//! Event-stream handles.
//!
//! An event handle is not a first-class stored entity: it is a resource
//! sub-structure consisting of a monotonically increasing counter and a
//! unique event key. It is recovered from a resource field by re-encoding
//! the field's decoded value into canonical bytes and re-reading those bytes
//! in the handle's fixed shape.

use vstd::prelude::*;
use crate::address::{Address, ADDRESS_LENGTH};
use crate::codec::{spec_encoded, spec_encoded_fields, spec_encoded_field, spec_encoded_seq};
use crate::move_types::{SpecMoveField, SpecMoveValue};

verus! {

/// Mathematical form of an event key.
#[verifier::ext_equal]
pub struct SpecEventKey {
    pub creation_number: u64,
    pub address: Seq<u8>,
}

/// Mathematical form of an event handle.
#[verifier::ext_equal]
pub struct SpecEventHandle {
    pub counter: u64,
    pub key: SpecEventKey,
}

/// An opaque identifier addressing one per-account event stream: a creation
/// number qualified by the owning account's address.
#[derive(Debug)]
pub struct EventKey {
    pub creation_number: u64,
    pub account_address: Address,
}

impl EventKey {
    pub open spec fn model(self) -> SpecEventKey {
        SpecEventKey {
            creation_number: self.creation_number,
            address: self.account_address.model(),
        }
    }

    pub open spec fn wf(self) -> bool {
        self.account_address.wf()
    }
}

/// A resource sub-structure referencing an event stream: a counter and the
/// stream's key.
#[derive(Debug)]
pub struct EventHandle {
    pub counter: u64,
    pub key: EventKey,
}

impl EventHandle {
    pub open spec fn model(self) -> SpecEventHandle {
        SpecEventHandle { counter: self.counter, key: self.key.model() }
    }

    pub open spec fn wf(self) -> bool {
        self.key.wf()
    }
}

/// Width of an encoded event handle: counter, creation number, address.
pub const EVENT_HANDLE_LENGTH: usize = 48;

/// The canonical byte form of an event handle.
pub open spec fn spec_encoded_handle(h: SpecEventHandle) -> Seq<u8> {
    vstd::bytes::spec_u64_to_le_bytes(h.counter) + vstd::bytes::spec_u64_to_le_bytes(
        h.key.creation_number,
    ) + h.key.address
}

/// The event handle carried by a byte sequence, if the bytes have the
/// handle's fixed shape.
pub open spec fn spec_handle_of_bytes(s: Seq<u8>) -> Option<SpecEventHandle> {
    if s.len() == EVENT_HANDLE_LENGTH as int {
        Some(
            SpecEventHandle {
                counter: vstd::bytes::spec_u64_from_le_bytes(s.subrange(0, 8)),
                key: SpecEventKey {
                    creation_number: vstd::bytes::spec_u64_from_le_bytes(s.subrange(8, 16)),
                    address: s.subrange(16, EVENT_HANDLE_LENGTH as int),
                },
            },
        )
    } else {
        None
    }
}

/// Re-reads canonical bytes in the event handle's shape. The bytes of a
/// field value that is not an event handle have the wrong width and are
/// rejected; that rejection is the caller's to classify.
pub fn decode_event_handle(s: &Vec<u8>) -> (r: Option<EventHandle>)
    ensures
        match r {
            Some(h) => spec_handle_of_bytes(s@) == Some(h.model()) && h.wf(),
            None => spec_handle_of_bytes(s@) is None,
        },
{
    if s.len() != EVENT_HANDLE_LENGTH {
        return None;
    }
    let counter = vstd::bytes::u64_from_le_bytes(vstd::slice::slice_subrange(s.as_slice(), 0, 8));
    let creation_number = vstd::bytes::u64_from_le_bytes(
        vstd::slice::slice_subrange(s.as_slice(), 8, 16),
    );
    let addr_bytes = vstd::slice::slice_to_vec(
        vstd::slice::slice_subrange(s.as_slice(), 16, EVENT_HANDLE_LENGTH),
    );
    let account_address = Address { bytes: addr_bytes };
    Some(EventHandle { counter, key: EventKey { creation_number, account_address } })
}

/// Reading back the canonical bytes of a well-formed event handle recovers
/// the handle.
pub proof fn lemma_handle_round_trip(h: SpecEventHandle)
    requires
        h.key.address.len() == ADDRESS_LENGTH as int,
    ensures
        spec_handle_of_bytes(spec_encoded_handle(h)) == Some(h),
{
    let s = spec_encoded_handle(h);
    vstd::bytes::lemma_auto_spec_u64_to_from_le_bytes();
    assert(s.subrange(0, 8) =~= vstd::bytes::spec_u64_to_le_bytes(h.counter));
    assert(s.subrange(8, 16) =~= vstd::bytes::spec_u64_to_le_bytes(h.key.creation_number));
    assert(s.subrange(16, EVENT_HANDLE_LENGTH as int) =~= h.key.address);
    assert(spec_handle_of_bytes(s)->Some_0 =~= h);
}

/// The canonical structured-value shape of an event handle: a counter and a
/// nested globally unique identifier.
pub open spec fn spec_event_handle_value(h: SpecEventHandle) -> SpecMoveValue {
    SpecMoveValue::Struct(
        seq![
            SpecMoveField { name: "counter"@, value: SpecMoveValue::U64(h.counter) },
            SpecMoveField {
                name: "guid"@,
                value: SpecMoveValue::Struct(
                    seq![
                        SpecMoveField {
                            name: "creation_num"@,
                            value: SpecMoveValue::U64(h.key.creation_number),
                        },
                        SpecMoveField {
                            name: "addr"@,
                            value: SpecMoveValue::Address(h.key.address),
                        },
                    ],
                ),
            },
        ],
    )
}

/// A resource field holding the canonical event-handle shape encodes to the
/// handle's canonical bytes; re-reading them yields the handle unchanged.
pub proof fn lemma_event_handle_value_round_trip(h: SpecEventHandle)
    requires
        h.key.address.len() == ADDRESS_LENGTH as int,
    ensures
        spec_encoded(spec_event_handle_value(h)) == spec_encoded_handle(h),
        spec_handle_of_bytes(spec_encoded(spec_event_handle_value(h))) == Some(h),
{
    let v = spec_event_handle_value(h);
    let fs = v->Struct_0;
    let inner = fs[1].value->Struct_0;
    vstd::bytes::lemma_auto_spec_u64_to_from_le_bytes();
    assert(spec_encoded_fields(inner, 2) == Seq::<u8>::empty());
    assert(spec_encoded_fields(inner, 1) == spec_encoded_field(inner[1])
        + spec_encoded_fields(inner, 2));
    assert(spec_encoded_fields(inner, 0) == spec_encoded_field(inner[0])
        + spec_encoded_fields(inner, 1));
    assert(spec_encoded_fields(fs, 2) == Seq::<u8>::empty());
    assert(spec_encoded_fields(fs, 1) == spec_encoded_field(fs[1]) + spec_encoded_fields(fs, 2));
    assert(spec_encoded_fields(fs, 0) == spec_encoded_field(fs[0]) + spec_encoded_fields(fs, 1));
    assert(spec_encoded(v) =~= spec_encoded_handle(h));
    lemma_handle_round_trip(h);
}

} // verus!
