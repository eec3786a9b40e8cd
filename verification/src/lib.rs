//! A relation-tuple authorization engine.
//!
//! The library stores facts of the form `(object, relation, subject)` --
//! "subject holds relation on object" -- and answers reachability queries:
//! does a subject hold a relation on an object, either directly or
//! transitively through group membership?  A subject may itself be a
//! group reference (an object/relation pair), so chains of indirection of
//! arbitrary depth, including cyclic ones, are legal data.

pub mod engine;
pub mod laws;
pub mod model;
pub mod store;
