//! What can stop a packaging pass.

use vstd::prelude::*;

verus! {

/// A version or a dependency list that could not be read.
#[derive(Debug)]
pub struct ParseError {
    /// The text that was rejected.
    pub text: String,
    /// Why it was rejected.
    pub reason: String,
}

/// The field of the source paragraph in which a dependency list stands.
#[derive(Clone, Copy, Debug, PartialEq, Eq, Structural)]
pub enum DependsField {
    BuildDepends,
    BuildDependsIndep,
}

/// Why a packaging pass produced nothing.
#[derive(Debug)]
pub enum DebianizeError {
    /// A dependency field of the control file at hand cannot be read.
    Parse(DependsField, ParseError),
    /// A changelog is already there, and adding to one is not supported.
    UnsupportedUpdate,
}

} // verus!
