//! The resolver's error taxonomy.
//!
//! Three kinds, each with a fixed propagation policy: `NotFound` (the
//! requested version, account, resource or field does not exist at the
//! queried point in history), `BadRequest` (the caller's input does not
//! match an expected shape once resolved against real data), and `Internal`
//! (a storage fault or corrupted stored data). Errors are constructed at the
//! point of failure and propagated unchanged; nothing is retried.

use vstd::prelude::*;
use crate::address::Address;
use crate::move_types::{SpecStructTag, StructTag};

verus! {

/// The category label a not-found error is reported under.
#[derive(Clone, Copy, Debug, PartialEq, Eq, Structural)]
pub enum NotFoundCategory {
    Ledger,
    Account,
    Resource,
}

/// What a malformed request got wrong.
#[derive(Clone, Copy, Debug, PartialEq, Eq, Structural)]
pub enum BadRequestReason {
    /// The type descriptor named as the event handle's owner is malformed.
    InvalidStructTag,
    /// The named field exists but does not have the event-handle shape.
    FieldTypeNotEventHandle,
}

/// What operational fault was detected.
#[derive(Clone, Copy, Debug, PartialEq, Eq, Structural)]
pub enum InternalReason {
    /// The storage collaborator itself failed.
    ReadFromStorage,
    /// Bytes confirmed present in storage failed to decode against their own
    /// declared type.
    InvalidStoredData,
    /// Stored module bytecode failed to parse.
    InvalidStoredBytecode,
}

/// Mathematical form of a resolver error.
#[verifier::ext_equal]
pub enum SpecApiError {
    LedgerNotFound { version: u64, latest_version: u64 },
    AccountNotFound { address: Seq<u8>, ledger_version: u64, latest_version: u64 },
    ResourceNotFound {
        address: Seq<u8>,
        struct_tag: SpecStructTag,
        ledger_version: u64,
        latest_version: u64,
    },
    FieldNotFound {
        address: Seq<u8>,
        struct_tag: SpecStructTag,
        field_name: Seq<char>,
        ledger_version: u64,
        latest_version: u64,
    },
    BadRequest { reason: BadRequestReason },
    Internal { reason: InternalReason },
}

/// A classified resolver error, carrying the context a caller needs: for a
/// not-found error, what was looked up and the latest known ledger version,
/// so that a caller can tell a query that is merely ahead of the chain from
/// one for data that is permanently absent.
#[derive(Debug)]
pub enum ApiError {
    LedgerNotFound { version: u64, latest_version: u64 },
    AccountNotFound { address: Address, ledger_version: u64, latest_version: u64 },
    ResourceNotFound {
        address: Address,
        struct_tag: StructTag,
        ledger_version: u64,
        latest_version: u64,
    },
    FieldNotFound {
        address: Address,
        struct_tag: StructTag,
        field_name: String,
        ledger_version: u64,
        latest_version: u64,
    },
    BadRequest { reason: BadRequestReason },
    Internal { reason: InternalReason },
}

impl ApiError {
    pub open spec fn model(self) -> SpecApiError {
        match self {
            ApiError::LedgerNotFound { version, latest_version } => SpecApiError::LedgerNotFound {
                version,
                latest_version,
            },
            ApiError::AccountNotFound { address, ledger_version, latest_version } =>
                SpecApiError::AccountNotFound {
                    address: address.model(),
                    ledger_version,
                    latest_version,
                },
            ApiError::ResourceNotFound { address, struct_tag, ledger_version, latest_version } =>
                SpecApiError::ResourceNotFound {
                    address: address.model(),
                    struct_tag: struct_tag.model(),
                    ledger_version,
                    latest_version,
                },
            ApiError::FieldNotFound {
                address,
                struct_tag,
                field_name,
                ledger_version,
                latest_version,
            } => SpecApiError::FieldNotFound {
                address: address.model(),
                struct_tag: struct_tag.model(),
                field_name: field_name@,
                ledger_version,
                latest_version,
            },
            ApiError::BadRequest { reason } => SpecApiError::BadRequest { reason },
            ApiError::Internal { reason } => SpecApiError::Internal { reason },
        }
    }

    /// The not-found category of this error, where it is a not-found error.
    pub fn not_found_category(&self) -> (r: Option<NotFoundCategory>)
        ensures
            r == spec_not_found_category(self.model()),
    {
        match self {
            ApiError::LedgerNotFound { .. } => Some(NotFoundCategory::Ledger),
            ApiError::AccountNotFound { .. } => Some(NotFoundCategory::Account),
            ApiError::ResourceNotFound { .. } => Some(NotFoundCategory::Resource),
            ApiError::FieldNotFound { .. } => Some(NotFoundCategory::Resource),
            ApiError::BadRequest { .. } => None,
            ApiError::Internal { .. } => None,
        }
    }

    /// The latest ledger version carried by a not-found error.
    pub fn latest_version(&self) -> (r: Option<u64>)
        ensures
            match *self {
                ApiError::LedgerNotFound { latest_version, .. } => r == Some(latest_version),
                ApiError::AccountNotFound { latest_version, .. } => r == Some(latest_version),
                ApiError::ResourceNotFound { latest_version, .. } => r == Some(latest_version),
                ApiError::FieldNotFound { latest_version, .. } => r == Some(latest_version),
                ApiError::BadRequest { .. } => r is None,
                ApiError::Internal { .. } => r is None,
            },
    {
        match self {
            ApiError::LedgerNotFound { latest_version, .. } => Some(*latest_version),
            ApiError::AccountNotFound { latest_version, .. } => Some(*latest_version),
            ApiError::ResourceNotFound { latest_version, .. } => Some(*latest_version),
            ApiError::FieldNotFound { latest_version, .. } => Some(*latest_version),
            ApiError::BadRequest { .. } => None,
            ApiError::Internal { .. } => None,
        }
    }
}

/// The category a not-found error is reported under. A missing piece of a
/// resource (a field the caller named) is reported as a missing resource,
/// matching the resolver's externally observable behaviour.
pub open spec fn spec_not_found_category(e: SpecApiError) -> Option<NotFoundCategory> {
    match e {
        SpecApiError::LedgerNotFound { .. } => Some(NotFoundCategory::Ledger),
        SpecApiError::AccountNotFound { .. } => Some(NotFoundCategory::Account),
        SpecApiError::ResourceNotFound { .. } => Some(NotFoundCategory::Resource),
        SpecApiError::FieldNotFound { .. } => Some(NotFoundCategory::Resource),
        SpecApiError::BadRequest { .. } => None,
        SpecApiError::Internal { .. } => None,
    }
}

/// A fault reported by the storage collaborator, opaque to the resolver.
#[derive(Clone, Copy, Debug, PartialEq, Eq, Structural)]
pub struct StorageFault {
}

impl NotFoundCategory {
    /// The category's wire label.
    pub fn label(&self) -> (r: &'static str)
        ensures
            *self matches NotFoundCategory::Ledger ==> r@ == "ledger"@,
            *self matches NotFoundCategory::Account ==> r@ == "account"@,
            *self matches NotFoundCategory::Resource ==> r@ == "resource"@,
    {
        match self {
            NotFoundCategory::Ledger => "ledger",
            NotFoundCategory::Account => "account",
            NotFoundCategory::Resource => "resource",
        }
    }
}

} // verus!
