//! Dependency lists: the groups, alternatives and version constraints of a
//! `Build-Depends` field. The `debian` crate reads and writes them.

use vstd::prelude::*;
use vstd::string::*;
use debian::Version;
use crate::error::ParseError;
use crate::text::{join, join_strings, texts};
use crate::version::{digit_runs_fit, longest_digit_run, too_many_digits, version_text, DIGIT_LIMIT};

verus! {

/// The relation between a package's version and the version named in a
/// constraint.
#[derive(Clone, Copy, Debug, PartialEq, Eq, Structural)]
pub enum VRel {
    GreaterOrEqual,
    Greater,
    LesserOrEqual,
    Lesser,
    Equal,
}

/// One alternative of a dependency.
#[derive(Debug)]
pub struct SingleDependency {
    pub package: String,
    pub version: Option<(VRel, Version)>,
    pub arch: Option<String>,
}

/// A dependency: alternatives of which one has to be installed.
#[derive(Debug)]
pub struct Dependency {
    pub alternatives: Vec<SingleDependency>,
}

/// What a `SingleDependency` holds; the version stands as its text.
pub struct SingleDependencySpec {
    pub package: Seq<char>,
    pub version: Option<(VRel, Seq<char>)>,
    pub arch: Option<Seq<char>>,
}

impl View for SingleDependency {
    type V = SingleDependencySpec;

    open spec fn view(&self) -> SingleDependencySpec {
        SingleDependencySpec {
            package: self.package@,
            version: match self.version {
                Some((rel, v)) => Some((rel, version_text(v))),
                None => None,
            },
            arch: match self.arch {
                Some(a) => Some(a@),
                None => None,
            },
        }
    }
}

impl View for Dependency {
    type V = Seq<SingleDependencySpec>;

    open spec fn view(&self) -> Seq<SingleDependencySpec> {
        self.alternatives@.map_values(|a: SingleDependency| a@)
    }
}

/// The views of a list of dependencies.
pub open spec fn deps_view(deps: Seq<Dependency>) -> Seq<Seq<SingleDependencySpec>> {
    deps.map_values(|d: Dependency| d@)
}

/// A dependency on `package` alone, of any version, on any architecture.
pub open spec fn plain_dependency(package: Seq<char>) -> Seq<SingleDependencySpec> {
    seq![SingleDependencySpec { package: package, version: None, arch: None }]
}

/// A dependency on `package` alone, in a version related by `rel` to the
/// version whose text is `version`.
pub open spec fn versioned_dependency(package: Seq<char>, rel: VRel, version: Seq<char>) -> Seq<
    SingleDependencySpec,
> {
    seq![SingleDependencySpec { package: package, version: Some((rel, version)), arch: None }]
}

/// The sign of a relation.
pub open spec fn relation_text(rel: VRel) -> Seq<char> {
    match rel {
        VRel::GreaterOrEqual => ">="@,
        VRel::Greater => ">>"@,
        VRel::LesserOrEqual => "<="@,
        VRel::Lesser => "<<"@,
        VRel::Equal => "="@,
    }
}

/// The text of one alternative: the package, then the constraint in round
/// brackets, then the architecture in square brackets, as far as it has
/// them.
pub open spec fn single_text(d: SingleDependencySpec) -> Seq<char> {
    d.package + (match d.version {
        Some((rel, v)) => " ("@ + relation_text(rel) + " "@ + v + ")"@,
        None => Seq::empty(),
    }) + (match d.arch {
        Some(a) => " ["@ + a + "]"@,
        None => Seq::empty(),
    })
}

/// The text of a dependency: its alternatives with ` | ` between them.
pub open spec fn dependency_text(d: Seq<SingleDependencySpec>) -> Seq<char> {
    join(d.map_values(|a: SingleDependencySpec| single_text(a)), " | "@)
}

/// The text of a dependency field: its dependencies with `, ` between
/// them.
pub open spec fn dep_list_text(deps: Seq<Seq<SingleDependencySpec>>) -> Seq<char> {
    join(deps.map_values(|d: Seq<SingleDependencySpec>| dependency_text(d)), ", "@)
}

/// Some alternative of some dependency of `deps` is the package `name`.
pub open spec fn names_package(deps: Seq<Seq<SingleDependencySpec>>, name: Seq<char>) -> bool {
    exists|i: int, j: int|
        0 <= i < deps.len() && 0 <= j < deps[i].len() && (#[trigger] deps[i][j]).package == name
}

/// Every dependency of `deps` has at least one alternative.
pub open spec fn all_have_alternatives(deps: Seq<Seq<SingleDependencySpec>>) -> bool {
    forall|i: int| 0 <= i < deps.len() ==> (#[trigger] deps[i]).len() > 0
}

/// What the `debian` crate reads from the text of a dependency field: the
/// list of dependencies, or the reason for which it rejects the text.
pub uninterp spec fn dep_list_of(text: Seq<char>) -> Result<Seq<Seq<SingleDependencySpec>>, Seq<char>>;

/// What reading `text` as a dependency field gives: a text with too long a
/// number is rejected by this library, every other text is read by the
/// `debian` crate.
pub open spec fn read_dep_list(text: Seq<char>) -> Result<Seq<Seq<SingleDependencySpec>>, Seq<char>> {
    if longest_digit_run(text) > DIGIT_LIMIT {
        Err(too_many_digits())
    } else {
        dep_list_of(text)
    }
}

/// Calls `debian::control::parse_dep_list` and copies what it returns,
/// field by field, into the library's types; the condition in angle
/// brackets, which the crate never writes back, is left behind. The result
/// is named by `dep_list_of`. Two things are stated beyond the name. The
/// parser adds up each run of digits of a version in a `u64`, so texts with
/// a run that may not fit are left out. And what stands between two commas
/// is split at its bars, which gives at least one alternative.
#[verifier::external_body]
pub(crate) fn parse_list_outside(text: &str) -> (r: Result<Vec<Dependency>, String>)
    requires
        longest_digit_run(text@) <= DIGIT_LIMIT,
    ensures
        match r {
            Ok(deps) => dep_list_of(text@) == Ok::<_, Seq<char>>(deps_view(deps@))
                && all_have_alternatives(deps_view(deps@)),
            Err(reason) => dep_list_of(text@) == Err::<Seq<Seq<SingleDependencySpec>>, _>(reason@),
        },
{
    match debian::control::parse_dep_list(text) {
        Err(reason) => Err(reason.to_string()),
        Ok(list) => Ok(list.into_iter().map(|d| Dependency {
            alternatives: d.alternatives.into_iter().map(|a| SingleDependency {
                package: a.package,
                arch: a.arch,
                version: a.version.map(|(rel, v)| (match rel {
                    debian::control::VRel::GreaterOrEqual => VRel::GreaterOrEqual,
                    debian::control::VRel::Greater => VRel::Greater,
                    debian::control::VRel::LesserOrEqual => VRel::LesserOrEqual,
                    debian::control::VRel::Lesser => VRel::Lesser,
                    debian::control::VRel::Equal => VRel::Equal,
                }, v)),
            }).collect() }).collect()),
    }
}

/// Hands the dependency to the `debian` crate, field by field, and calls
/// its `Display`: the alternatives with ` | ` between them, each as
/// `single_text` says, with the version written as `version_text` names it.
#[verifier::external_body]
pub(crate) fn render_outside(dep: &Dependency) -> (text: String)
    ensures
        text@ == dependency_text(dep@),
{
    debian::control::Dependency {
        alternatives: dep.alternatives.iter().map(|a| debian::control::SingleDependency {
            package: a.package.clone(),
            arch: a.arch.clone(),
            condition: None,
            version: a.version.clone().map(|(rel, v)| (match rel {
                VRel::GreaterOrEqual => debian::control::VRel::GreaterOrEqual,
                VRel::Greater => debian::control::VRel::Greater,
                VRel::LesserOrEqual => debian::control::VRel::LesserOrEqual,
                VRel::Lesser => debian::control::VRel::Lesser,
                VRel::Equal => debian::control::VRel::Equal,
            }, v)),
        }).collect() }.to_string()
}

impl Dependency {
    /// A dependency on `package` alone, of any version.
    pub fn plain(package: String) -> (dep: Dependency)
        ensures
            dep@ == plain_dependency(package@),
    {
        let dep = Dependency {
            alternatives: vec![SingleDependency { package: package, version: None, arch: None }],
        };
        assert(dep@ =~= plain_dependency(package@));
        dep
    }

    /// A dependency on `package` alone, in a version that stands in the
    /// relation `rel` to `version`.
    pub fn versioned(package: String, rel: VRel, version: Version) -> (dep: Dependency)
        ensures
            dep@ == versioned_dependency(package@, rel, version_text(version)),
    {
        let dep = Dependency {
            alternatives: vec![
                SingleDependency { package: package, version: Some((rel, version)), arch: None },
            ],
        };
        assert(dep@ =~= versioned_dependency(package@, rel, version_text(version)));
        dep
    }
}

/// Reads the text of a dependency field. Every dependency that is read
/// has at least one alternative.
pub fn parse_dep_list(text: &str) -> (r: Result<Vec<Dependency>, ParseError>)
    ensures
        match r {
            Ok(deps) => read_dep_list(text@) == Ok::<_, Seq<char>>(deps_view(deps@))
                && all_have_alternatives(deps_view(deps@)),
            Err(e) => e.text@ == text@ && read_dep_list(text@) == Err::<
                Seq<Seq<SingleDependencySpec>>,
                _,
            >(e.reason@),
        },
{
    if !digit_runs_fit(text) {
        return Err(
            ParseError {
                text: String::from_str(text),
                reason: String::from_str("a number has too many digits"),
            },
        );
    }
    match parse_list_outside(text) {
        Ok(deps) => Ok(deps),
        Err(reason) => Err(ParseError { text: String::from_str(text), reason: reason }),
    }
}

/// Writes the text of a dependency field.
pub fn render_dep_list(deps: &Vec<Dependency>) -> (text: String)
    ensures
        text@ == dep_list_text(deps_view(deps@)),
{
    let mut parts: Vec<String> = Vec::new();
    let mut i: usize = 0;
    while i < deps.len()
        invariant
            i <= deps.len(),
            parts@.len() == i,
            forall|k: int| 0 <= k < i ==> (#[trigger] parts@[k])@ == dependency_text(deps@[k]@),
        decreases deps.len() - i,
    {
        let part = render_outside(&deps[i]);
        parts.push(part);
        i += 1;
    }
    assert(texts(parts@) =~= deps_view(deps@).map_values(
        |d: Seq<SingleDependencySpec>| dependency_text(d),
    ));
    join_strings(&parts, ", ")
}

/// Whether some alternative of some dependency of `deps` is the package
/// `name`.
pub fn mentions_package(deps: &Vec<Dependency>, name: &String) -> (found: bool)
    ensures
        found == names_package(deps_view(deps@), name@),
{
    let mut i: usize = 0;
    while i < deps.len()
        invariant
            i <= deps.len(),
            forall|a: int, b: int|
                0 <= a < i && 0 <= b < deps@[a]@.len() ==> (#[trigger] deps@[a]@[b]).package
                    != name@,
        decreases deps.len() - i,
    {
        let alternatives = &deps[i].alternatives;
        let mut j: usize = 0;
        while j < alternatives.len()
            invariant
                i < deps.len(),
                j <= alternatives.len(),
                alternatives@ == deps@[i as int].alternatives@,
                forall|b: int| 0 <= b < j ==> (#[trigger] deps@[i as int]@[b]).package != name@,
            decreases alternatives.len() - j,
        {
            if alternatives[j].package == *name {
                assert(deps_view(deps@)[i as int][j as int].package == name@);
                return true;
            }
            j += 1;
        }
        i += 1;
    }
    false
}

} // verus!
