//! Helpers for keeping an external search index in sync.
//!
//! Two independent pieces:
//!
//! * [`reconcile`]: a decision core that updates an index's searchable and
//!   filterable attribute lists only when they differ from the desired state.
//! * [`acl`]: a privacy-preserving, filter-safe encoding of access-control
//!   role lists, with the administrator role elided.

pub mod acl;
pub mod auth;
pub mod hexcode;
pub mod reconcile;
