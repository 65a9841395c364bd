//! Yoetz - a rule based decision core.
//!
//! Scoring routines offer scored behavior suggestions for an entity; once per
//! cycle the advisor picks a winner (with a consistency bonus toward the
//! behavior that is already active) and reconciles the entity's persisted
//! behavior records with it: refreshing the record in place when the winning
//! suggestion is the same logical behavior as before, and replacing it when it
//! is not.
//!
//! The crate has two halves:
//!
//! * a schema layer that validates a declarative description of a suggestion
//!   union (each field tagged with a role: key, input or state) and derives
//!   from it the identity type, the per-variant record types and the
//!   transition operations;
//! * a decision engine, generic over any schema satisfying the
//!   [`advisor::YoetzSuggestion`] contract, that performs the per-cycle
//!   selection and reconciliation.

pub mod advisor;
pub mod attr;
pub mod compile;
pub mod dynamic;
pub mod enemy;
pub mod schema;
