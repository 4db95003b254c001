//! Core engine of a content-addressable package registry.
//!
//! A *bindle* is a named, versioned collection of binary blobs
//! (*parcels*) described by a manifest document (*invoice*).  This crate
//! implements the storage and validation engine underneath any transport
//! layer: the invoice/label/parcel data model, a content-addressable,
//! digest-verifying parcel store, an immutable-once-written invoice store
//! with irreversible yanking, missing-parcel detection for the two-phase
//! publish workflow, and a deterministic query layer over the stored
//! invoices.

pub mod api;
pub mod digest;
pub mod error;
pub mod invoice;
pub mod invoice_store;
pub mod keyed;
pub mod parcel_store;
pub mod publish;
pub mod search;
pub mod version;
