//! The project to be packaged, as plain values: what its manifest declares
//! and what its build produces.

use vstd::prelude::*;

verus! {

/// What a dependency is needed for.
#[derive(Clone, Copy, Debug, PartialEq, Eq, Structural)]
pub enum DependencyKind {
    Normal,
    Development,
    Build,
}

/// Where a dependency's source comes from.
#[derive(Clone, Copy, Debug, PartialEq, Eq, Structural)]
pub enum SourceKind {
    Registry,
    Git,
    Path,
}

/// One declared dependency of the project.
#[derive(Debug)]
pub struct ProjectDependency {
    pub name: String,
    pub version_req: String,
    pub kind: DependencyKind,
    pub optional: bool,
    pub source: SourceKind,
}

/// What a build target is.
#[derive(Clone, Copy, Debug, PartialEq, Eq, Structural)]
pub enum TargetKind {
    Lib,
    Bin,
    Example,
}

/// One build target of the project.
#[derive(Debug)]
pub struct BuildTarget {
    pub name: String,
    pub kind: TargetKind,
    /// The build profile's name, such as `release` or `test`.
    pub profile: String,
    /// The path of the root source file, as the compiler is to be given it.
    pub src_path: String,
    /// The string that makes the target's symbols unique.
    pub metadata: String,
    /// What follows the target's name in the names of its output files.
    pub extra_filename: String,
}

/// The project: its manifest's metadata, dependencies and build targets.
#[derive(Debug)]
pub struct Project {
    pub name: String,
    pub version: String,
    pub description: Option<String>,
    pub homepage: Option<String>,
    pub repository: Option<String>,
    pub dependencies: Vec<ProjectDependency>,
    pub targets: Vec<BuildTarget>,
}

/// Who uploads the package.
#[derive(Debug)]
pub struct Maintainer {
    pub name: String,
    pub email: String,
}

/// A dependency that has a package of its own. A development dependency
/// that lives at a local path is a crate of the same repository, used for
/// tests only: it has none.
pub open spec fn is_packaged(dep: ProjectDependency) -> bool {
    !(dep.source == SourceKind::Path && dep.kind == DependencyKind::Development)
}

/// A library target built with the release profile: the targets that are
/// packaged.
pub open spec fn is_release_lib(target: BuildTarget) -> bool {
    target.kind == TargetKind::Lib && target.profile@ == "release"@
}

impl ProjectDependency {
    /// Whether the dependency has a package of its own.
    pub fn packaged(&self) -> (r: bool)
        ensures
            r == is_packaged(*self),
    {
        !(self.source == SourceKind::Path && self.kind == DependencyKind::Development)
    }
}

impl BuildTarget {
    /// Whether the target is a library built with the release profile.
    pub fn release_lib(&self) -> (r: bool)
        ensures
            r == is_release_lib(*self),
    {
        self.kind == TargetKind::Lib && self.profile == String::from_str("release")
    }
}

} // verus!
