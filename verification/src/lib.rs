//! Policy evaluation for IAM principals: which of the policies attached to a
//! user or a role allow a given action.
//!
//! The crate holds the rules and nothing that talks to the outside world: it
//! decodes policy documents, matches their statements against an action name,
//! and plans which documents a caller has to fetch for a principal.

pub mod document;
pub mod entity;
pub mod glob;
pub mod json;
pub mod pattern;
pub mod policy;
pub mod report;
pub mod resolver;
pub mod statement;
pub mod text;
