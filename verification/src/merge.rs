//! The merge: what the project declares is brought into the control file
//! without touching what a maintainer wrote there.

use vstd::prelude::*;
use vstd::string::*;
use debian::control::{ControlFile, ControlParagraph};
use debian::Version;
use crate::binary::{add_binary_paragraphs, binary_paragraphs, describe, long_description};
use crate::control::{file_paragraphs, lookup, paragraph_entries, upsert, with_default, Entry};
use crate::depends::{
    dep_list_text, deps_view, mentions_package, names_package, parse_dep_list, plain_dependency,
    read_dep_list, render_dep_list, versioned_dependency, Dependency, SingleDependencySpec, VRel,
};
use crate::error::{DebianizeError, DependsField, ParseError};
use crate::name::{xform_pkg_name, xform_spec};
use crate::project::{is_packaged, Maintainer, Project, ProjectDependency};
use crate::text::concat3;
use crate::version::{lemma_digit_run_within_length, parse_version, parsed_version, version_text};

verus! {

/// Why a merge failed: the dependency field that could not be read, its
/// text, and the reason.
pub struct MergeFailure {
    pub field: DependsField,
    pub text: Seq<char>,
    pub reason: Seq<char>,
}

/// A source paragraph made from nothing: the source package's name.
pub open spec fn fresh_source(deb_name: Seq<char>) -> Seq<Entry> {
    seq![("Source"@, deb_name)]
}

/// The paragraph that the merge starts from: the first paragraph of the
/// control file at hand, with all that it holds; without a control file,
/// or with one that has no paragraph, a fresh one.
pub open spec fn base_entries(existing: Option<Seq<Seq<Entry>>>, deb_name: Seq<char>) -> Seq<Entry> {
    match existing {
        Some(paragraphs) => if paragraphs.len() > 0 {
            paragraphs[0]
        } else {
            fresh_source(deb_name)
        },
        None => fresh_source(deb_name),
    }
}

/// The value of `Uploaders` for a maintainer.
pub open spec fn uploaders_text(maintainer: Maintainer) -> Seq<char> {
    maintainer.name@ + " <"@ + maintainer.email@ + ">"@
}

/// `entries` with each of the five defaulted fields set where it was
/// missing; a field that is there keeps its value.
pub open spec fn with_defaults(entries: Seq<Entry>, uploaders: Seq<char>) -> Seq<Entry> {
    let e1 = with_default(entries, "Priority"@, "optional"@);
    let e2 = with_default(e1, "Section"@, "rust"@);
    let e3 = with_default(e2, "Maintainer"@, "Debian Rust Team <rust@debian.org>"@);
    let e4 = with_default(e3, "Uploaders"@, uploaders);
    with_default(e4, "Standards-Version"@, "3.9.6"@)
}

/// The dependencies that the field `key` of `entries` lists: none where
/// the field is missing.
pub open spec fn field_deps(entries: Seq<Entry>, key: Seq<char>) -> Result<
    Seq<Seq<SingleDependencySpec>>,
    Seq<char>,
> {
    match lookup(entries, key) {
        Some(text) => read_dep_list(text),
        None => Ok(Seq::empty()),
    }
}

/// The text of the oldest `debhelper` that can build the package.
pub open spec fn debhelper_floor() -> Seq<char> {
    "9.20150101.1+nmu1"@
}

/// The version of the oldest `debhelper` that can build the package, as
/// the `debian` crate writes it.
pub open spec fn debhelper_version() -> Seq<char> {
    match parsed_version(debhelper_floor()) {
        Ok(v) => v,
        Err(_) => Seq::empty(),
    }
}

/// The package `name` is listed in one of the two dependency fields.
pub open spec fn is_known(
    bd: Seq<Seq<SingleDependencySpec>>,
    bdi: Seq<Seq<SingleDependencySpec>>,
    name: Seq<char>,
) -> bool {
    names_package(bd, name) || names_package(bdi, name)
}

/// What building any package of this kind needs and the two fields do not
/// list yet: the packaging helper, and the compiler.
pub open spec fn toolchain_additions(
    bd: Seq<Seq<SingleDependencySpec>>,
    bdi: Seq<Seq<SingleDependencySpec>>,
) -> Seq<Seq<SingleDependencySpec>> {
    (if is_known(bd, bdi, "debhelper"@) {
        Seq::empty()
    } else {
        seq![versioned_dependency("debhelper"@, VRel::GreaterOrEqual, debhelper_version())]
    }) + (if is_known(bd, bdi, "rustc"@) {
        Seq::empty()
    } else {
        seq![plain_dependency("rustc"@)]
    })
}

/// The development package of a dependency of the project.
pub open spec fn dev_package(dep: ProjectDependency) -> Seq<char> {
    xform_spec(dep.name@) + "-dev"@
}

/// The development packages of the project's dependencies that the two
/// fields do not list yet, in the order of `deps`; a dependency without a
/// package of its own gives none.
pub open spec fn crate_additions(
    bd: Seq<Seq<SingleDependencySpec>>,
    bdi: Seq<Seq<SingleDependencySpec>>,
    deps: Seq<ProjectDependency>,
) -> Seq<Seq<SingleDependencySpec>>
    decreases deps.len(),
{
    if deps.len() == 0 {
        Seq::empty()
    } else {
        let before = crate_additions(bd, bdi, deps.drop_last());
        let dep = deps.last();
        if is_packaged(dep) && !is_known(bd, bdi, dev_package(dep)) {
            before.push(plain_dependency(dev_package(dep)))
        } else {
            before
        }
    }
}

/// The build dependencies after the merge: those that `Build-Depends`
/// listed, then what was missing.
pub open spec fn synced_build_depends(
    bd: Seq<Seq<SingleDependencySpec>>,
    bdi: Seq<Seq<SingleDependencySpec>>,
    deps: Seq<ProjectDependency>,
) -> Seq<Seq<SingleDependencySpec>> {
    bd + toolchain_additions(bd, bdi) + crate_additions(bd, bdi, deps)
}

/// `entries` with `Build-Depends` brought up to date; a failure where one
/// of the two dependency fields cannot be read, `Build-Depends` first.
pub open spec fn with_build_depends(entries: Seq<Entry>, deps: Seq<ProjectDependency>) -> Result<
    Seq<Entry>,
    MergeFailure,
> {
    match field_deps(entries, "Build-Depends"@) {
        Err(reason) => Err(
            MergeFailure {
                field: DependsField::BuildDepends,
                text: lookup(entries, "Build-Depends"@).unwrap(),
                reason: reason,
            },
        ),
        Ok(bd) => match field_deps(entries, "Build-Depends-Indep"@) {
            Err(reason) => Err(
                MergeFailure {
                    field: DependsField::BuildDependsIndep,
                    text: lookup(entries, "Build-Depends-Indep"@).unwrap(),
                    reason: reason,
                },
            ),
            Ok(bdi) => Ok(
                upsert(entries, "Build-Depends"@, dep_list_text(synced_build_depends(bd, bdi, deps))),
            ),
        },
    }
}

/// `entries` with the fields that the project decides: the two `Vcs`
/// fields from the repository, `Homepage` from the home page, each only
/// where the project states it.
pub open spec fn with_overrides(
    entries: Seq<Entry>,
    repository: Option<String>,
    homepage: Option<String>,
) -> Seq<Entry> {
    let e1 = match repository {
        Some(r) => upsert(upsert(entries, "Vcs-Git"@, r@), "Vcs-Browser"@, r@),
        None => entries,
    };
    match homepage {
        Some(h) => upsert(e1, "Homepage"@, h@),
        None => e1,
    }
}

/// The source paragraph after the merge, from the paragraph it starts
/// from.
pub open spec fn merged_source(project: Project, uploaders: Seq<char>, base: Seq<Entry>) -> Result<
    Seq<Entry>,
    MergeFailure,
> {
    match with_build_depends(with_defaults(base, uploaders), project.dependencies@) {
        Ok(entries) => Ok(with_overrides(entries, project.repository, project.homepage)),
        Err(failure) => Err(failure),
    }
}

/// The paragraphs of the control file after the merge: the source
/// paragraph, then the binary paragraphs. `existing` holds the paragraphs
/// of the control file at hand, where there is one.
pub open spec fn merged_control(
    project: Project,
    maintainer: Maintainer,
    existing: Option<Seq<Seq<Entry>>>,
) -> Result<Seq<Seq<Entry>>, MergeFailure> {
    let deb_name = xform_spec(project.name@);
    match merged_source(project, uploaders_text(maintainer), base_entries(existing, deb_name)) {
        Ok(source) => Ok(
            seq![source] + binary_paragraphs(
                deb_name,
                project.version@,
                long_description(project.description),
                project.targets@,
            ),
        ),
        Err(failure) => Err(failure),
    }
}

/// The paragraphs of a control file that may be missing.
pub open spec fn existing_paragraphs(existing: Option<&ControlFile>) -> Option<Seq<Seq<Entry>>> {
    match existing {
        Some(file) => Some(file_paragraphs(*file)),
        None => None,
    }
}

/// A control file is at hand and has no paragraph: its source paragraph is
/// made afresh.
pub open spec fn lacks_source(existing: Option<Seq<Seq<Entry>>>) -> bool {
    match existing {
        Some(paragraphs) => paragraphs.len() == 0,
        None => false,
    }
}

/// What a `DebianizeError` says, over views.
pub open spec fn failure_of(e: DebianizeError) -> Option<MergeFailure> {
    match e {
        DebianizeError::Parse(field, err) => Some(
            MergeFailure { field: field, text: err.text@, reason: err.reason@ },
        ),
        DebianizeError::UnsupportedUpdate => None,
    }
}

/// The paragraph that the merge starts from, and whether a control file
/// was at hand that had no paragraph to start from.
pub fn base_paragraph(deb_name: &str, existing: Option<&ControlFile>) -> (r: (ControlParagraph, bool))
    ensures
        paragraph_entries(r.0) == base_entries(existing_paragraphs(existing), deb_name@),
        r.1 == lacks_source(existing_paragraphs(existing)),
{
    match existing {
        Some(file) => {
            let paragraphs = file.get_paragraphs();
            if paragraphs.len() > 0 {
                return (paragraphs[0].clone(), false);
            }
        },
        None => {},
    }
    let mut fresh = ControlParagraph::default();
    fresh.add_entry("Source", String::from_str(deb_name));
    assert(paragraph_entries(fresh) =~= fresh_source(deb_name@));
    (fresh, existing.is_some())
}

/// Sets each of the five defaulted fields where it is missing.
pub fn populate_defaults(gp: &mut ControlParagraph, uploaders: String)
    ensures
        paragraph_entries(*final(gp)) == with_defaults(paragraph_entries(*old(gp)), uploaders@),
{
    if !gp.has_entry("Priority") {
        gp.add_entry("Priority", String::from_str("optional"));
    }
    if !gp.has_entry("Section") {
        gp.add_entry("Section", String::from_str("rust"));
    }
    if !gp.has_entry("Maintainer") {
        gp.add_entry("Maintainer", String::from_str("Debian Rust Team <rust@debian.org>"));
    }
    if !gp.has_entry("Uploaders") {
        gp.add_entry("Uploaders", uploaders);
    }
    if !gp.has_entry("Standards-Version") {
        gp.add_entry("Standards-Version", String::from_str("3.9.6"));
    }
}

/// The dependencies that the field `key` of `gp` lists.
pub fn read_depends_field(gp: &ControlParagraph, key: &str) -> (r: Result<Vec<Dependency>, ParseError>)
    ensures
        match r {
            Ok(deps) => field_deps(paragraph_entries(*gp), key@) == Ok::<_, Seq<char>>(
                deps_view(deps@),
            ),
            Err(e) => lookup(paragraph_entries(*gp), key@) == Some(e.text@) && field_deps(
                paragraph_entries(*gp),
                key@,
            ) == Err::<Seq<Seq<SingleDependencySpec>>, _>(e.reason@),
        },
{
    match gp.get_entry(key) {
        Some(text) => parse_dep_list(text),
        None => {
            let none: Vec<Dependency> = Vec::new();
            assert(deps_view(none@) =~= Seq::empty());
            Ok(none)
        },
    }
}

/// The version of the oldest `debhelper` that can build the package.
pub fn debhelper_minimum() -> (v: Version)
    ensures
        version_text(v) == debhelper_version(),
{
    proof {
        reveal_strlit("9.20150101.1+nmu1");
        lemma_digit_run_within_length(debhelper_floor());
    }
    match parse_version("9.20150101.1+nmu1") {
        Ok(v) => v,
        Err(_) => unreached(),
    }
}

/// What is missing from the two lists: the packaging helper, the compiler,
/// and the development package of each dependency that has one.
pub fn missing_build_depends(
    bd: &Vec<Dependency>,
    bdi: &Vec<Dependency>,
    deps: &Vec<ProjectDependency>,
) -> (missing: Vec<Dependency>)
    ensures
        deps_view(missing@) == toolchain_additions(deps_view(bd@), deps_view(bdi@))
            + crate_additions(deps_view(bd@), deps_view(bdi@), deps@),
{
    let mut missing: Vec<Dependency> = Vec::new();
    let debhelper = String::from_str("debhelper");
    if !(mentions_package(bd, &debhelper) || mentions_package(bdi, &debhelper)) {
        missing.push(Dependency::versioned(debhelper, VRel::GreaterOrEqual, debhelper_minimum()));
    }
    let rustc = String::from_str("rustc");
    if !(mentions_package(bd, &rustc) || mentions_package(bdi, &rustc)) {
        missing.push(Dependency::plain(rustc));
    }
    assert(deps_view(missing@) =~= toolchain_additions(deps_view(bd@), deps_view(bdi@)));
    let mut i: usize = 0;
    while i < deps.len()
        invariant
            i <= deps.len(),
            deps_view(missing@) == toolchain_additions(deps_view(bd@), deps_view(bdi@))
                + crate_additions(deps_view(bd@), deps_view(bdi@), deps@.take(i as int)),
        decreases deps.len() - i,
    {
        proof {
            assert(deps@.take(i + 1).drop_last() =~= deps@.take(i as int));
            assert(deps@.take(i + 1).last() == deps@[i as int]);
        }
        if deps[i].packaged() {
            let mut dev_name = xform_pkg_name(deps[i].name.as_str());
            dev_name.append("-dev");
            if !(mentions_package(bd, &dev_name) || mentions_package(bdi, &dev_name)) {
                let ghost before = deps_view(missing@);
                let dep = Dependency::plain(dev_name);
                missing.push(dep);
                assert(deps_view(missing@) =~= before.push(dep@));
            }
        }
        i += 1;
    }
    assert(deps@.take(deps.len() as int) =~= deps@);
    missing
}

/// Brings `Build-Depends` up to date: what it lists stays, in its order,
/// and what is missing from it and from `Build-Depends-Indep` follows.
/// Where one of the two fields cannot be read, the paragraph stays as it
/// was.
pub fn sync_build_depends(gp: &mut ControlParagraph, deps: &Vec<ProjectDependency>) -> (r: Result<
    (),
    DebianizeError,
>)
    ensures
        match r {
            Ok(_) => with_build_depends(paragraph_entries(*old(gp)), deps@) == Ok::<_, MergeFailure>(
                paragraph_entries(*final(gp)),
            ),
            Err(e) => paragraph_entries(*final(gp)) == paragraph_entries(*old(gp)) && failure_of(e)
                is Some && with_build_depends(paragraph_entries(*old(gp)), deps@) == Err::<
                Seq<Entry>,
                _,
            >(failure_of(e).unwrap()),
        },
{
    let mut bd = match read_depends_field(gp, "Build-Depends") {
        Ok(list) => list,
        Err(e) => {
            return Err(DebianizeError::Parse(DependsField::BuildDepends, e));
        },
    };
    let bdi = match read_depends_field(gp, "Build-Depends-Indep") {
        Ok(list) => list,
        Err(e) => {
            return Err(DebianizeError::Parse(DependsField::BuildDependsIndep, e));
        },
    };
    let ghost listed = deps_view(bd@);
    let mut missing = missing_build_depends(&bd, &bdi, deps);
    let ghost added = deps_view(missing@);
    bd.append(&mut missing);
    assert(deps_view(bd@) =~= listed + added);
    assert(listed + added =~= synced_build_depends(listed, deps_view(bdi@), deps@));
    gp.update_entry("Build-Depends", render_dep_list(&bd));
    Ok(())
}

/// Sets the fields that the project decides, whatever they held.
pub fn override_fields(
    gp: &mut ControlParagraph,
    repository: &Option<String>,
    homepage: &Option<String>,
)
    ensures
        paragraph_entries(*final(gp)) == with_overrides(
            paragraph_entries(*old(gp)),
            *repository,
            *homepage,
        ),
{
    match repository {
        Some(val) => {
            gp.update_entry("Vcs-Git", val.clone());
            gp.update_entry("Vcs-Browser", val.clone());
        },
        None => {},
    }
    match homepage {
        Some(val) => {
            gp.update_entry("Homepage", val.clone());
        },
        None => {},
    }
}

/// The control file after the merge, and whether a control file was at
/// hand that had no source paragraph. Nothing is produced where a
/// dependency field of the control file at hand cannot be read.
pub fn merge_control(project: &Project, maintainer: &Maintainer, existing: Option<&ControlFile>) -> (r:
    Result<(ControlFile, bool), DebianizeError>)
    ensures
        match r {
            Ok((file, regenerated)) => merged_control(
                *project,
                *maintainer,
                existing_paragraphs(existing),
            ) == Ok::<_, MergeFailure>(file_paragraphs(file)) && regenerated == lacks_source(
                existing_paragraphs(existing),
            ),
            Err(e) => failure_of(e) is Some && merged_control(
                *project,
                *maintainer,
                existing_paragraphs(existing),
            ) == Err::<Seq<Seq<Entry>>, _>(failure_of(e).unwrap()),
        },
{
    let deb_name = xform_pkg_name(project.name.as_str());
    let (mut gp, regenerated) = base_paragraph(deb_name.as_str(), existing);
    let mut uploaders = concat3(maintainer.name.as_str(), " <", maintainer.email.as_str());
    uploaders.append(">");
    populate_defaults(&mut gp, uploaders);
    match sync_build_depends(&mut gp, &project.dependencies) {
        Ok(_) => {},
        Err(e) => {
            return Err(e);
        },
    }
    override_fields(&mut gp, &project.repository, &project.homepage);
    let mut file = ControlFile::default();
    file.add_paragraph(gp);
    let long = describe(&project.description);
    add_binary_paragraphs(
        &mut file,
        deb_name.as_str(),
        project.version.as_str(),
        &long,
        &project.targets,
    );
    Ok((file, regenerated))
}

} // verus!
