//! One packaging pass: everything that is to stand in the packaging
//! directory, computed before anything is written.

use vstd::prelude::*;
use vstd::string::*;
use debian::control::ControlFile;
use crate::control::{file_paragraphs, Entry};
use crate::error::DebianizeError;
use crate::merge::{
    existing_paragraphs, failure_of, lacks_source, merge_control, merged_control, MergeFailure,
};
use crate::name::{xform_pkg_name, xform_spec};
use crate::project::{is_release_lib, BuildTarget, Maintainer, Project};
use crate::rules::{build_rules, makefile_rules, makefile_text, render_makefile};
use crate::text::{concat2, concat3};

verus! {

/// When a file is written.
#[derive(Clone, Copy, Debug, PartialEq, Eq, Structural)]
pub enum WritePolicy {
    /// Whatever stands at the path is replaced.
    Always,
    /// A file that stands at the path is left as it is.
    IfAbsent,
}

/// A file to be written, with its path below the packaging directory.
#[derive(Debug)]
pub struct OutputFile {
    pub path: String,
    pub contents: String,
    pub policy: WritePolicy,
}

/// What an `OutputFile` holds.
pub struct OutputFileSpec {
    pub path: Seq<char>,
    pub contents: Seq<char>,
    pub policy: WritePolicy,
}

impl View for OutputFile {
    type V = OutputFileSpec;

    open spec fn view(&self) -> OutputFileSpec {
        OutputFileSpec { path: self.path@, contents: self.contents@, policy: self.policy }
    }
}

/// The first entry of a changelog: the source package, its version, and
/// the lines that say what changed.
#[derive(Debug)]
pub struct ChangelogSeed {
    pub package: String,
    pub version: String,
    pub detail: String,
}

/// What one packaging pass produces.
#[derive(Debug)]
pub struct Packaging {
    /// The entry of the changelog that is to be made.
    pub changelog: ChangelogSeed,
    /// The control file.
    pub control: ControlFile,
    /// The other files, in the order in which they are to be written.
    pub files: Vec<OutputFile>,
    /// A control file was at hand that had no paragraph, so the source
    /// paragraph was made afresh: worth a warning.
    pub source_regenerated: bool,
}

/// The views of a list of files.
pub open spec fn files_view(files: Seq<OutputFile>) -> Seq<OutputFileSpec> {
    files.map_values(|f: OutputFile| f@)
}

/// The pattern of a target's installed files that end in `ending`, on a
/// line of its own.
pub open spec fn install_line(target: BuildTarget, ending: Seq<char>) -> Seq<char> {
    "/usr/lib/x86_64-linux-gnu/rust/1.0/lib/rustlib/x86_64-unknown-linux-gnu/lib/lib"@
        + target.name@ + "-*"@ + ending + "\n"@
}

/// The install list of the package that holds the dynamic library.
pub open spec fn library_install(deb_name: Seq<char>, version: Seq<char>, target: BuildTarget) -> OutputFileSpec {
    OutputFileSpec {
        path: deb_name + "-"@ + version + ".install"@,
        contents: install_line(target, ".so"@),
        policy: WritePolicy::Always,
    }
}

/// The install list of the package that holds the development files.
pub open spec fn development_install(deb_name: Seq<char>, target: BuildTarget) -> OutputFileSpec {
    OutputFileSpec {
        path: deb_name + "-dev.install"@,
        contents: install_line(target, ".rlib"@) + install_line(target, ".a"@),
        policy: WritePolicy::Always,
    }
}

/// The install lists for `targets`: the two lists once for each packaged
/// target, in the order of the targets.
pub open spec fn install_files(deb_name: Seq<char>, version: Seq<char>, targets: Seq<BuildTarget>) -> Seq<
    OutputFileSpec,
>
    decreases targets.len(),
{
    if targets.len() == 0 {
        Seq::empty()
    } else if is_release_lib(targets.last()) {
        install_files(deb_name, version, targets.drop_last()) + seq![
            library_install(deb_name, version, targets.last()),
            development_install(deb_name, targets.last()),
        ]
    } else {
        install_files(deb_name, version, targets.drop_last())
    }
}

/// The generated makefile.
pub open spec fn makefile_file(targets: Seq<BuildTarget>) -> OutputFileSpec {
    OutputFileSpec {
        path: "Makefile.cargo"@,
        contents: makefile_text(makefile_rules(targets)),
        policy: WritePolicy::Always,
    }
}

/// The files that are the same for every project, each written only where
/// none stands yet.
pub open spec fn fixed_files() -> Seq<OutputFileSpec> {
    seq![
        OutputFileSpec { path: "compat"@, contents: "9\n"@, policy: WritePolicy::IfAbsent },
        OutputFileSpec {
            path: "source/format"@,
            contents: "3.0 (quilt)\n"@,
            policy: WritePolicy::IfAbsent,
        },
        OutputFileSpec {
            path: "rules"@,
            contents: "#!/usr/bin/make -f\n\n%:\n\tdh $@\n"@,
            policy: WritePolicy::IfAbsent,
        },
    ]
}

/// The files of a pass besides the changelog and the control file: the
/// install lists, the makefile, and the fixed files.
pub open spec fn packaging_files(project: Project) -> Seq<OutputFileSpec> {
    install_files(xform_spec(project.name@), project.version@, project.targets@) + seq![
        makefile_file(project.targets@),
    ] + fixed_files()
}

/// What a pass fails with: a changelog that is already there stops it
/// before anything else is looked at, then a dependency field that cannot
/// be read.
pub open spec fn pass_failure(
    project: Project,
    maintainer: Maintainer,
    existing: Option<Seq<Seq<Entry>>>,
    changelog_exists: bool,
) -> Option<Option<MergeFailure>> {
    if changelog_exists {
        Some(None)
    } else {
        match merged_control(project, maintainer, existing) {
            Ok(_) => None,
            Err(failure) => Some(Some(failure)),
        }
    }
}

/// The pattern of a target's installed files that end in `ending`.
pub fn install_line_of(target: &BuildTarget, ending: &str) -> (line: String)
    ensures
        line@ == install_line(*target, ending@),
{
    let mut line = concat3(
        "/usr/lib/x86_64-linux-gnu/rust/1.0/lib/rustlib/x86_64-unknown-linux-gnu/lib/lib",
        target.name.as_str(),
        "-*",
    );
    line.append(ending);
    line.append("\n");
    line
}

/// The first entry of the changelog of a project that has none.
pub fn initial_changelog(project: &Project) -> (seed: ChangelogSeed)
    ensures
        seed.package@ == xform_spec(project.name@),
        seed.version@ == project.version@ + "-1"@,
        seed.detail@ == "  * Initial debianization by cargo.\n"@,
{
    ChangelogSeed {
        package: xform_pkg_name(project.name.as_str()),
        version: concat2(project.version.as_str(), "-1"),
        detail: String::from_str("  * Initial debianization by cargo.\n"),
    }
}

/// The files of a pass besides the changelog and the control file.
pub fn output_files(project: &Project) -> (files: Vec<OutputFile>)
    ensures
        files_view(files@) == packaging_files(*project),
{
    let deb_name = xform_pkg_name(project.name.as_str());
    let ghost name = xform_spec(project.name@);
    let ghost version = project.version@;
    let targets = &project.targets;
    let mut files: Vec<OutputFile> = Vec::new();
    let mut i: usize = 0;
    assert(files_view(files@) =~= install_files(name, version, targets@.take(0)));
    while i < targets.len()
        invariant
            i <= targets.len(),
            deb_name@ == name,
            version == project.version@,
            targets == &project.targets,
            files_view(files@) == install_files(name, version, targets@.take(i as int)),
        decreases targets.len() - i,
    {
        proof {
            assert(targets@.take(i + 1).drop_last() =~= targets@.take(i as int));
            assert(targets@.take(i + 1).last() == targets@[i as int]);
        }
        let target = &targets[i];
        if target.release_lib() {
            let ghost before = files_view(files@);
            let mut path = concat3(deb_name.as_str(), "-", project.version.as_str());
            path.append(".install");
            let library = OutputFile {
                path: path,
                contents: install_line_of(target, ".so"),
                policy: WritePolicy::Always,
            };
            let mut lines = install_line_of(target, ".rlib");
            lines.append(install_line_of(target, ".a").as_str());
            let development = OutputFile {
                path: concat2(deb_name.as_str(), "-dev.install"),
                contents: lines,
                policy: WritePolicy::Always,
            };
            assert(library@ == library_install(name, version, *target));
            assert(development@ == development_install(name, *target));
            files.push(library);
            files.push(development);
            assert(files_view(files@) =~= before + seq![
                library_install(name, version, *target),
                development_install(name, *target),
            ]);
        }
        i += 1;
    }
    assert(targets@.take(targets.len() as int) =~= targets@);
    let ghost lists = files_view(files@);
    let rules = build_rules(targets);
    files.push(
        OutputFile {
            path: String::from_str("Makefile.cargo"),
            contents: render_makefile(&rules),
            policy: WritePolicy::Always,
        },
    );
    files.push(
        OutputFile {
            path: String::from_str("compat"),
            contents: String::from_str("9\n"),
            policy: WritePolicy::IfAbsent,
        },
    );
    files.push(
        OutputFile {
            path: String::from_str("source/format"),
            contents: String::from_str("3.0 (quilt)\n"),
            policy: WritePolicy::IfAbsent,
        },
    );
    files.push(
        OutputFile {
            path: String::from_str("rules"),
            contents: String::from_str("#!/usr/bin/make -f\n\n%:\n\tdh $@\n"),
            policy: WritePolicy::IfAbsent,
        },
    );
    assert(files_view(files@) =~= lists + seq![makefile_file(targets@)] + fixed_files());
    files
}

/// One packaging pass. `existing` is the control file at hand, where there
/// is one; `changelog_exists` says whether a changelog is already there.
/// The pass either produces everything or fails and produces nothing, so
/// that a caller writes no file of a pass that cannot be finished.
pub fn debianize(
    project: &Project,
    maintainer: &Maintainer,
    existing: Option<&ControlFile>,
    changelog_exists: bool,
) -> (r: Result<Packaging, DebianizeError>)
    ensures
        match r {
            Ok(p) => {
                &&& pass_failure(*project, *maintainer, existing_paragraphs(existing), changelog_exists)
                    is None
                &&& merged_control(*project, *maintainer, existing_paragraphs(existing)) == Ok::<
                    _,
                    MergeFailure,
                >(file_paragraphs(p.control))
                &&& p.changelog.package@ == xform_spec(project.name@)
                &&& p.changelog.version@ == project.version@ + "-1"@
                &&& p.changelog.detail@ == "  * Initial debianization by cargo.\n"@
                &&& files_view(p.files@) == packaging_files(*project)
                &&& p.source_regenerated == lacks_source(existing_paragraphs(existing))
            },
            Err(e) => pass_failure(
                *project,
                *maintainer,
                existing_paragraphs(existing),
                changelog_exists,
            ) == Some(failure_of(e)),
        },
{
    if changelog_exists {
        return Err(DebianizeError::UnsupportedUpdate);
    }
    let changelog = initial_changelog(project);
    let (control, regenerated) = match merge_control(project, maintainer, existing) {
        Ok(merged) => merged,
        Err(e) => {
            return Err(e);
        },
    };
    let files = output_files(project);
    Ok(
        Packaging {
            changelog: changelog,
            control: control,
            files: files,
            source_regenerated: regenerated,
        },
    )
}

} // verus!
