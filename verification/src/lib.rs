//! A multi-tenant key-value store core.
//!
//! Every caller is identified by an opaque bearer token; the keys a caller can
//! see are prefixed by a deterministic hash of that token, which isolates the
//! tenants without a stored account table.  The modules hold the namespace
//! derivation, the listing pipeline (pagination, ordering, namespace
//! stripping), the JSON field-masking projector, and the status mapping for
//! the object-store adapter.

pub mod auth;
pub mod json;
pub mod listing;
pub mod project;
pub mod store;
pub mod text;
