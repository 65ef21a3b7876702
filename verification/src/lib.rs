//! A read-only, versioned account/resource resolver.
//!
//! Given an account address and an optional historical ledger version, the
//! library resolves the resources and modules owned by that address at that
//! version, and can locate an event-stream handle nested inside a resource.
//! Storage reads and module-metadata extraction are performed by surrounding
//! infrastructure; their results enter the library as plain values, and every
//! decision made on those values is verified.

pub mod account;
pub mod address;
pub mod codec;
pub mod error;
pub mod event;
pub mod ledger;
pub mod move_types;
pub mod release;
