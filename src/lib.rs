//! Resolution of a project's dependencies into exact `name:version`
//! identifiers, and the decisions of a strictly sequential, fail-fast run that
//! builds each of them with an external build tool.

pub mod orchestrate;
pub mod doc;
pub mod error;
pub mod ident;
pub mod lock;
pub mod manifest;
pub mod resolve;
pub mod semver;
pub mod text;
