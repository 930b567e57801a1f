//! Debian packaging metadata for a Rust project: the control file, the
//! first changelog entry, the install lists and the generated makefile,
//! computed from a description of the project and merged with what a
//! maintainer already wrote.
//!
//! Control files, dependency lists and versions are read and written by
//! the `debian` crate. What this library decides is proved against
//! contracts that state, for each call into that crate, what is taken from
//! it on trust.

pub mod error;
pub mod text;
pub mod name;
pub mod project;
pub mod version;
pub mod order;
pub mod depends;
pub mod control;
pub mod makefile;
pub mod rules;
pub mod binary;
pub mod merge;
pub mod packaging;
pub mod laws;

pub use error::{DebianizeError, ParseError};
pub use makefile::MakefileRule;
pub use name::xform_pkg_name;
pub use packaging::{debianize, Packaging};
