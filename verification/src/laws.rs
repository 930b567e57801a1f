//! What holds of every merge: which fields it leaves alone, which it
//! decides, what it adds to the build dependencies, and that a second
//! merge changes nothing.

use vstd::prelude::*;
use crate::binary::binary_entries;
use crate::control::{
    has_key, lemma_lookup_upsert, lemma_lookup_with_default, lemma_names_stay_unique,
    lemma_upsert_same_value, lookup, names_unique, upsert, with_default, Entry,
};
use crate::depends::{
    dep_list_text, names_package, plain_dependency, read_dep_list, SingleDependencySpec,
};
use crate::merge::{
    base_entries, crate_additions, dev_package, field_deps, fresh_source, is_known,
    merged_control, merged_source, synced_build_depends, toolchain_additions, uploaders_text,
    with_build_depends, with_defaults, with_overrides, MergeFailure,
};
use crate::name::xform_spec;
use crate::project::{is_packaged, Maintainer, Project, ProjectDependency};

verus! {

/// The fields that the project decides: a merge gives them the value that
/// follows from the project, whatever they held.
pub open spec fn is_decided(name: Seq<char>) -> bool {
    name == "Build-Depends"@ || name == "Vcs-Git"@ || name == "Vcs-Browser"@ || name
        == "Homepage"@
}

/// The fields that get a default where they are missing.
pub open spec fn is_defaulted(name: Seq<char>) -> bool {
    name == "Priority"@ || name == "Section"@ || name == "Maintainer"@ || name == "Uploaders"@
        || name == "Standards-Version"@
}

/// The default of a defaulted field.
pub open spec fn default_of(name: Seq<char>, uploaders: Seq<char>) -> Seq<char> {
    if name == "Priority"@ {
        "optional"@
    } else if name == "Section"@ {
        "rust"@
    } else if name == "Maintainer"@ {
        "Debian Rust Team <rust@debian.org>"@
    } else if name == "Uploaders"@ {
        uploaders
    } else {
        "3.9.6"@
    }
}

/// The names of the fields that a merge knows differ from each other.
pub proof fn lemma_field_names_differ()
    ensures
        forall|name: Seq<char>| is_defaulted(name) ==> !is_decided(name),
        !is_decided("Source"@),
        !is_defaulted("Source"@),
        !is_decided("Build-Depends-Indep"@),
        !is_defaulted("Build-Depends-Indep"@),
        "Priority"@ != "Section"@,
        "Priority"@ != "Maintainer"@,
        "Priority"@ != "Uploaders"@,
        "Priority"@ != "Standards-Version"@,
        "Section"@ != "Maintainer"@,
        "Section"@ != "Uploaders"@,
        "Section"@ != "Standards-Version"@,
        "Maintainer"@ != "Uploaders"@,
        "Maintainer"@ != "Standards-Version"@,
        "Uploaders"@ != "Standards-Version"@,
        "Build-Depends"@ != "Vcs-Git"@,
        "Build-Depends"@ != "Vcs-Browser"@,
        "Build-Depends"@ != "Homepage"@,
        "Vcs-Git"@ != "Vcs-Browser"@,
        "Vcs-Git"@ != "Homepage"@,
        "Vcs-Browser"@ != "Homepage"@,
{
    reveal_strlit("Priority");
    reveal_strlit("Section");
    reveal_strlit("Maintainer");
    reveal_strlit("Uploaders");
    reveal_strlit("Standards-Version");
    reveal_strlit("Build-Depends");
    reveal_strlit("Build-Depends-Indep");
    reveal_strlit("Vcs-Git");
    reveal_strlit("Vcs-Browser");
    reveal_strlit("Homepage");
    reveal_strlit("Source");
    assert("Priority"@.len() == 8 && "Homepage"@.len() == 8);
    assert("Section"@.len() == 7 && "Vcs-Git"@.len() == 7);
    assert("Source"@.len() == 6);
    assert("Uploaders"@.len() == 9);
    assert("Maintainer"@.len() == 10);
    assert("Vcs-Browser"@.len() == 11);
    assert("Build-Depends"@.len() == 13);
    assert("Standards-Version"@.len() == 17);
    assert("Build-Depends-Indep"@.len() == 19);
    assert("Section"@[0] != "Vcs-Git"@[0]);
    assert("Priority"@[0] != "Homepage"@[0]);
}

/// What the defaults do to a lookup: a field that was there is found as
/// before, a defaulted field that was missing is found with its default,
/// and no other field appears.
pub proof fn lemma_lookup_with_defaults(entries: Seq<Entry>, uploaders: Seq<char>, name: Seq<char>)
    ensures
        lookup(with_defaults(entries, uploaders), name) == (if lookup(entries, name) is Some {
            lookup(entries, name)
        } else if is_defaulted(name) {
            Some(default_of(name, uploaders))
        } else {
            None
        }),
{
    lemma_field_names_differ();
    let e1 = with_default(entries, "Priority"@, "optional"@);
    let e2 = with_default(e1, "Section"@, "rust"@);
    let e3 = with_default(e2, "Maintainer"@, "Debian Rust Team <rust@debian.org>"@);
    let e4 = with_default(e3, "Uploaders"@, uploaders);
    lemma_lookup_with_default(entries, "Priority"@, "optional"@, name);
    lemma_lookup_with_default(e1, "Section"@, "rust"@, name);
    lemma_lookup_with_default(e2, "Maintainer"@, "Debian Rust Team <rust@debian.org>"@, name);
    lemma_lookup_with_default(e3, "Uploaders"@, uploaders, name);
    lemma_lookup_with_default(e4, "Standards-Version"@, "3.9.6"@, name);
}

/// What the project's own fields do to a lookup.
pub proof fn lemma_lookup_with_overrides(
    entries: Seq<Entry>,
    repository: Option<String>,
    homepage: Option<String>,
    name: Seq<char>,
)
    ensures
        lookup(with_overrides(entries, repository, homepage), name) == (if name == "Homepage"@
            && homepage is Some {
            Some(homepage.unwrap()@)
        } else if (name == "Vcs-Git"@ || name == "Vcs-Browser"@) && repository is Some {
            Some(repository.unwrap()@)
        } else {
            lookup(entries, name)
        }),
{
    lemma_field_names_differ();
    let e1 = match repository {
        Some(r) => upsert(upsert(entries, "Vcs-Git"@, r@), "Vcs-Browser"@, r@),
        None => entries,
    };
    match repository {
        Some(r) => {
            lemma_lookup_upsert(entries, "Vcs-Git"@, r@, name);
            lemma_lookup_upsert(upsert(entries, "Vcs-Git"@, r@), "Vcs-Browser"@, r@, name);
        },
        None => {},
    }
    match homepage {
        Some(h) => {
            lemma_lookup_upsert(e1, "Homepage"@, h@, name);
        },
        None => {},
    }
}

/// A merge leaves alone every field that the project does not decide: a
/// field that the paragraph held keeps its value, whoever wrote it. So a
/// `Priority` that a maintainer set to `extra` stays `extra`, and a
/// `Source` that was there is still there.
pub proof fn lemma_merge_keeps_fields(
    project: Project,
    uploaders: Seq<char>,
    base: Seq<Entry>,
    name: Seq<char>,
)
    requires
        !is_decided(name),
        has_key(base, name),
    ensures
        match merged_source(project, uploaders, base) {
            Ok(merged) => lookup(merged, name) == lookup(base, name),
            Err(_) => true,
        },
{
    lemma_lookup_with_defaults(base, uploaders, name);
    let defaulted = with_defaults(base, uploaders);
    match with_build_depends(defaulted, project.dependencies@) {
        Ok(synced) => {
            let bd = field_deps(defaulted, "Build-Depends"@)->Ok_0;
            let bdi = field_deps(defaulted, "Build-Depends-Indep"@)->Ok_0;
            let text = dep_list_text(synced_build_depends(bd, bdi, project.dependencies@));
            lemma_lookup_upsert(defaulted, "Build-Depends"@, text, name);
            lemma_lookup_with_overrides(synced, project.repository, project.homepage, name);
        },
        Err(_) => {},
    }
}

/// A merge sets each defaulted field that the paragraph lacked to its
/// default.
pub proof fn lemma_merge_sets_defaults(
    project: Project,
    uploaders: Seq<char>,
    base: Seq<Entry>,
    name: Seq<char>,
)
    requires
        is_defaulted(name),
        !has_key(base, name),
    ensures
        match merged_source(project, uploaders, base) {
            Ok(merged) => lookup(merged, name) == Some(default_of(name, uploaders)),
            Err(_) => true,
        },
{
    lemma_field_names_differ();
    lemma_lookup_with_defaults(base, uploaders, name);
    let defaulted = with_defaults(base, uploaders);
    match with_build_depends(defaulted, project.dependencies@) {
        Ok(synced) => {
            let bd = field_deps(defaulted, "Build-Depends"@)->Ok_0;
            let bdi = field_deps(defaulted, "Build-Depends-Indep"@)->Ok_0;
            let text = dep_list_text(synced_build_depends(bd, bdi, project.dependencies@));
            lemma_lookup_upsert(defaulted, "Build-Depends"@, text, name);
            lemma_lookup_with_overrides(synced, project.repository, project.homepage, name);
        },
        Err(_) => {},
    }
}

/// The project's home page and repository win: after a merge `Homepage`
/// holds the project's home page and the two `Vcs` fields hold its
/// repository, whatever the paragraph held before.
pub proof fn lemma_merge_overrides(project: Project, uploaders: Seq<char>, base: Seq<Entry>)
    ensures
        match merged_source(project, uploaders, base) {
            Ok(merged) => {
                &&& project.homepage matches Some(h) ==> lookup(merged, "Homepage"@) == Some(h@)
                &&& project.repository matches Some(r) ==> lookup(merged, "Vcs-Git"@) == Some(r@)
                    && lookup(merged, "Vcs-Browser"@) == Some(r@)
            },
            Err(_) => true,
        },
{
    lemma_field_names_differ();
    let defaulted = with_defaults(base, uploaders);
    match with_build_depends(defaulted, project.dependencies@) {
        Ok(synced) => {
            lemma_lookup_with_overrides(synced, project.repository, project.homepage, "Homepage"@);
            lemma_lookup_with_overrides(synced, project.repository, project.homepage, "Vcs-Git"@);
            lemma_lookup_with_overrides(
                synced,
                project.repository,
                project.homepage,
                "Vcs-Browser"@,
            );
        },
        Err(_) => {},
    }
}

/// A source paragraph made afresh names the source package, and a merge
/// keeps that.
pub proof fn lemma_fresh_source_is_named(project: Project, uploaders: Seq<char>, deb_name: Seq<char>)
    ensures
        match merged_source(project, uploaders, fresh_source(deb_name)) {
            Ok(merged) => lookup(merged, "Source"@) == Some(deb_name),
            Err(_) => true,
        },
{
    lemma_field_names_differ();
    assert(fresh_source(deb_name).drop_first() =~= Seq::<Entry>::empty());
    assert(lookup(fresh_source(deb_name), "Source"@) == Some(deb_name));
    lemma_merge_keeps_fields(project, uploaders, fresh_source(deb_name), "Source"@);
}

/// A merge keeps the names of the fields apart: where no two fields of
/// the paragraph it starts from have the same name, no two fields of the
/// merged paragraph have.
pub proof fn lemma_merge_keeps_names_unique(project: Project, uploaders: Seq<char>, base: Seq<Entry>)
    requires
        names_unique(base),
    ensures
        match merged_source(project, uploaders, base) {
            Ok(merged) => names_unique(merged),
            Err(_) => true,
        },
{
    let e1 = with_default(base, "Priority"@, "optional"@);
    let e2 = with_default(e1, "Section"@, "rust"@);
    let e3 = with_default(e2, "Maintainer"@, "Debian Rust Team <rust@debian.org>"@);
    let e4 = with_default(e3, "Uploaders"@, uploaders);
    let defaulted = with_defaults(base, uploaders);
    lemma_names_stay_unique(base, "Priority"@, "optional"@);
    lemma_names_stay_unique(e1, "Section"@, "rust"@);
    lemma_names_stay_unique(e2, "Maintainer"@, "Debian Rust Team <rust@debian.org>"@);
    lemma_names_stay_unique(e3, "Uploaders"@, uploaders);
    lemma_names_stay_unique(e4, "Standards-Version"@, "3.9.6"@);
    match with_build_depends(defaulted, project.dependencies@) {
        Ok(synced) => {
            let bd = field_deps(defaulted, "Build-Depends"@)->Ok_0;
            let bdi = field_deps(defaulted, "Build-Depends-Indep"@)->Ok_0;
            let text = dep_list_text(synced_build_depends(bd, bdi, project.dependencies@));
            lemma_names_stay_unique(defaulted, "Build-Depends"@, text);
            match project.repository {
                Some(r) => {
                    lemma_names_stay_unique(synced, "Vcs-Git"@, r@);
                    lemma_names_stay_unique(upsert(synced, "Vcs-Git"@, r@), "Vcs-Browser"@, r@);
                },
                None => {},
            }
            let e5 = match project.repository {
                Some(r) => upsert(upsert(synced, "Vcs-Git"@, r@), "Vcs-Browser"@, r@),
                None => synced,
            };
            match project.homepage {
                Some(h) => {
                    lemma_names_stay_unique(e5, "Homepage"@, h@);
                },
                None => {},
            }
        },
        Err(_) => {},
    }
}

/// The names of the fields of a binary paragraph differ from each other.
pub proof fn lemma_binary_names_unique(package: Seq<char>, description: Seq<char>)
    ensures
        names_unique(binary_entries(package, description)),
{
    reveal_strlit("Package");
    reveal_strlit("Architecture");
    reveal_strlit("Pre-Depends");
    reveal_strlit("Depends");
    reveal_strlit("Description");
    assert("Package"@.len() == 7 && "Depends"@.len() == 7);
    assert("Package"@[0] != "Depends"@[0]);
    assert("Architecture"@.len() == 12);
    assert("Pre-Depends"@.len() == 11 && "Description"@.len() == 11);
    assert("Pre-Depends"@[0] != "Description"@[0]);
}

/// A package is named in two lists put together where one of them names
/// it.
pub proof fn lemma_names_package_concat(
    first: Seq<Seq<SingleDependencySpec>>,
    second: Seq<Seq<SingleDependencySpec>>,
    name: Seq<char>,
)
    ensures
        names_package(first + second, name) == (names_package(first, name) || names_package(
            second,
            name,
        )),
{
    let both = first + second;
    if names_package(first, name) {
        let (i, j) = choose|i: int, j: int|
            0 <= i < first.len() && 0 <= j < first[i].len() && (#[trigger] first[i][j]).package
                == name;
        assert(both[i][j].package == name);
    }
    if names_package(second, name) {
        let (i, j) = choose|i: int, j: int|
            0 <= i < second.len() && 0 <= j < second[i].len() && (#[trigger] second[i][j]).package
                == name;
        assert(both[first.len() + i][j].package == name);
    }
    if names_package(both, name) {
        let (i, j) = choose|i: int, j: int|
            0 <= i < both.len() && 0 <= j < both[i].len() && (#[trigger] both[i][j]).package
                == name;
        if i < first.len() {
            assert(first[i][j].package == name);
        } else {
            assert(second[i - first.len()][j].package == name);
        }
    }
}

/// What the merge adds for the project's dependencies are development
/// packages of dependencies that have a package of their own and were not
/// listed: nothing else, and so nothing for a development dependency that
/// lives at a local path.
pub proof fn lemma_crate_additions_members(
    bd: Seq<Seq<SingleDependencySpec>>,
    bdi: Seq<Seq<SingleDependencySpec>>,
    deps: Seq<ProjectDependency>,
)
    ensures
        forall|k: int|
            0 <= k < crate_additions(bd, bdi, deps).len() ==> exists|i: int|
                0 <= i < deps.len() && is_packaged(deps[i]) && !is_known(
                    bd,
                    bdi,
                    dev_package(deps[i]),
                ) && #[trigger] crate_additions(bd, bdi, deps)[k] == plain_dependency(
                    dev_package(#[trigger] deps[i]),
                ),
    decreases deps.len(),
{
    if deps.len() > 0 {
        let shorter = deps.drop_last();
        lemma_crate_additions_members(bd, bdi, shorter);
        let before = crate_additions(bd, bdi, shorter);
        let all = crate_additions(bd, bdi, deps);
        assert forall|k: int| 0 <= k < all.len() implies exists|i: int|
            0 <= i < deps.len() && is_packaged(deps[i]) && !is_known(bd, bdi, dev_package(deps[i]))
                && #[trigger] all[k] == plain_dependency(dev_package(#[trigger] deps[i])) by {
            if k < before.len() {
                let i = choose|i: int|
                    0 <= i < shorter.len() && is_packaged(shorter[i]) && !is_known(
                        bd,
                        bdi,
                        dev_package(shorter[i]),
                    ) && before[k] == plain_dependency(dev_package(#[trigger] shorter[i]));
                assert(deps[i] == shorter[i]);
            } else {
                assert(all[k] == plain_dependency(dev_package(deps[deps.len() - 1])));
            }
        }
    }
}

/// A project whose dependencies all lack a package of their own adds no
/// development package to the build dependencies.
pub proof fn lemma_unpackaged_add_nothing(
    bd: Seq<Seq<SingleDependencySpec>>,
    bdi: Seq<Seq<SingleDependencySpec>>,
    deps: Seq<ProjectDependency>,
)
    requires
        forall|i: int| 0 <= i < deps.len() ==> !is_packaged(#[trigger] deps[i]),
    ensures
        crate_additions(bd, bdi, deps) == Seq::<Seq<SingleDependencySpec>>::empty(),
{
    lemma_crate_additions_members(bd, bdi, deps);
    let added = crate_additions(bd, bdi, deps);
    if added.len() > 0 {
        let i = choose|i: int|
            0 <= i < deps.len() && is_packaged(deps[i]) && added[0] == plain_dependency(
                dev_package(#[trigger] deps[i]),
            );
        assert(!is_packaged(deps[i]));
    }
    assert(added =~= Seq::<Seq<SingleDependencySpec>>::empty());
}

/// After the merge every development package that the project needs is
/// listed: it was known before, or it was added.
pub proof fn lemma_crate_additions_cover(
    bd: Seq<Seq<SingleDependencySpec>>,
    bdi: Seq<Seq<SingleDependencySpec>>,
    deps: Seq<ProjectDependency>,
    i: int,
)
    requires
        0 <= i < deps.len(),
        is_packaged(deps[i]),
    ensures
        is_known(bd, bdi, dev_package(deps[i])) || names_package(
            crate_additions(bd, bdi, deps),
            dev_package(deps[i]),
        ),
    decreases deps.len(),
{
    let name = dev_package(deps[i]);
    let shorter = deps.drop_last();
    let before = crate_additions(bd, bdi, shorter);
    let all = crate_additions(bd, bdi, deps);
    if !is_known(bd, bdi, name) {
        if i < deps.len() - 1 {
            assert(shorter[i] == deps[i]);
            lemma_crate_additions_cover(bd, bdi, shorter, i);
            let (a, b) = choose|a: int, b: int|
                0 <= a < before.len() && 0 <= b < before[a].len() && (#[trigger] before[a][b]).package
                    == name;
            assert(all[a][b].package == name);
        } else {
            assert(all[all.len() - 1][0].package == name);
        }
    }
}

/// Where every development package that the project needs is listed, the
/// merge adds none.
pub proof fn lemma_crate_additions_none(
    bd: Seq<Seq<SingleDependencySpec>>,
    bdi: Seq<Seq<SingleDependencySpec>>,
    deps: Seq<ProjectDependency>,
)
    requires
        forall|i: int|
            0 <= i < deps.len() && is_packaged(#[trigger] deps[i]) ==> is_known(
                bd,
                bdi,
                dev_package(deps[i]),
            ),
    ensures
        crate_additions(bd, bdi, deps) == Seq::<Seq<SingleDependencySpec>>::empty(),
    decreases deps.len(),
{
    if deps.len() > 0 {
        let shorter = deps.drop_last();
        assert forall|i: int| 0 <= i < shorter.len() && is_packaged(#[trigger] shorter[i]) implies is_known(
            bd,
            bdi,
            dev_package(shorter[i]),
        ) by {
            assert(shorter[i] == deps[i]);
        }
        lemma_crate_additions_none(bd, bdi, shorter);
        assert(is_packaged(deps[deps.len() - 1]) ==> is_known(
            bd,
            bdi,
            dev_package(deps[deps.len() - 1]),
        ));
    }
}

/// What was known before a merge, and what the merge added, is known
/// after it.
pub proof fn lemma_known_after_sync(
    bd: Seq<Seq<SingleDependencySpec>>,
    bdi: Seq<Seq<SingleDependencySpec>>,
    deps: Seq<ProjectDependency>,
    name: Seq<char>,
)
    requires
        is_known(bd, bdi, name) || names_package(toolchain_additions(bd, bdi), name)
            || names_package(crate_additions(bd, bdi, deps), name),
    ensures
        is_known(synced_build_depends(bd, bdi, deps), bdi, name),
{
    let tools = toolchain_additions(bd, bdi);
    lemma_names_package_concat(bd, tools, name);
    lemma_names_package_concat(bd + tools, crate_additions(bd, bdi, deps), name);
}

/// The build dependencies after a merge lack nothing: merged once more,
/// they stay as they are.
pub proof fn lemma_synced_build_depends_fixed(
    bd: Seq<Seq<SingleDependencySpec>>,
    bdi: Seq<Seq<SingleDependencySpec>>,
    deps: Seq<ProjectDependency>,
)
    ensures
        synced_build_depends(synced_build_depends(bd, bdi, deps), bdi, deps)
            == synced_build_depends(bd, bdi, deps),
{
    let tools = toolchain_additions(bd, bdi);
    let synced = synced_build_depends(bd, bdi, deps);
    if !is_known(bd, bdi, "debhelper"@) {
        assert(tools[0][0].package == "debhelper"@);
    }
    if !is_known(bd, bdi, "rustc"@) {
        assert(tools[tools.len() - 1][0].package == "rustc"@);
    }
    lemma_known_after_sync(bd, bdi, deps, "debhelper"@);
    lemma_known_after_sync(bd, bdi, deps, "rustc"@);
    assert(toolchain_additions(synced, bdi) =~= Seq::<Seq<SingleDependencySpec>>::empty());
    assert forall|i: int| 0 <= i < deps.len() && is_packaged(#[trigger] deps[i]) implies is_known(
        synced,
        bdi,
        dev_package(deps[i]),
    ) by {
        lemma_crate_additions_cover(bd, bdi, deps, i);
        lemma_known_after_sync(bd, bdi, deps, dev_package(deps[i]));
    }
    lemma_crate_additions_none(synced, bdi, deps);
    assert(synced + Seq::<Seq<SingleDependencySpec>>::empty() + Seq::<
        Seq<SingleDependencySpec>,
    >::empty() =~= synced);
}

/// The dependencies that a merge lists in `Build-Depends`, where it
/// succeeds.
pub open spec fn merged_build_depends(project: Project, uploaders: Seq<char>, base: Seq<Entry>) -> Seq<
    Seq<SingleDependencySpec>,
> {
    let defaulted = with_defaults(base, uploaders);
    synced_build_depends(
        field_deps(defaulted, "Build-Depends"@)->Ok_0,
        field_deps(defaulted, "Build-Depends-Indep"@)->Ok_0,
        project.dependencies@,
    )
}

/// The text written for `deps` is read as `deps` again.
pub open spec fn reads_back(deps: Seq<Seq<SingleDependencySpec>>) -> bool {
    read_dep_list(dep_list_text(deps)) == Ok::<_, Seq<char>>(deps)
}

/// A merged source paragraph is a fixed point of the merge: merged again
/// for the same project it comes out unchanged, provided that the
/// `Build-Depends` line that the first merge wrote is read back as the
/// list that it was written from.
pub proof fn lemma_merged_source_fixed(project: Project, uploaders: Seq<char>, base: Seq<Entry>)
    ensures
        match merged_source(project, uploaders, base) {
            Ok(merged) => reads_back(merged_build_depends(project, uploaders, base))
                ==> merged_source(project, uploaders, merged) == Ok::<_, MergeFailure>(merged),
            Err(_) => true,
        },
{
    lemma_field_names_differ();
    let deps = project.dependencies@;
    let defaulted = with_defaults(base, uploaders);
    match merged_source(project, uploaders, base) {
        Ok(merged) => {
            if reads_back(merged_build_depends(project, uploaders, base)) {
                let bd = field_deps(defaulted, "Build-Depends"@)->Ok_0;
                let bdi = field_deps(defaulted, "Build-Depends-Indep"@)->Ok_0;
                let listed = synced_build_depends(bd, bdi, deps);
                let text = dep_list_text(listed);
                let synced = upsert(defaulted, "Build-Depends"@, text);
                assert(with_build_depends(defaulted, deps) == Ok::<_, MergeFailure>(synced));
                assert(merged == with_overrides(synced, project.repository, project.homepage));
                // The defaults find every field in place.
                assert forall|name: Seq<char>| is_defaulted(name) implies has_key(merged, name) by {
                    lemma_lookup_with_defaults(base, uploaders, name);
                    lemma_lookup_upsert(defaulted, "Build-Depends"@, text, name);
                    lemma_lookup_with_overrides(
                        synced,
                        project.repository,
                        project.homepage,
                        name,
                    );
                }
                assert(is_defaulted("Priority"@) && is_defaulted("Section"@) && is_defaulted(
                    "Maintainer"@,
                ) && is_defaulted("Uploaders"@) && is_defaulted("Standards-Version"@));
                assert(with_defaults(merged, uploaders) == merged);
                // The two dependency fields are read as the first merge left them.
                lemma_lookup_upsert(defaulted, "Build-Depends"@, text, "Build-Depends"@);
                lemma_lookup_with_overrides(
                    synced,
                    project.repository,
                    project.homepage,
                    "Build-Depends"@,
                );
                assert(lookup(merged, "Build-Depends"@) == Some(text));
                lemma_lookup_upsert(defaulted, "Build-Depends"@, text, "Build-Depends-Indep"@);
                lemma_lookup_with_overrides(
                    synced,
                    project.repository,
                    project.homepage,
                    "Build-Depends-Indep"@,
                );
                assert(lookup(merged, "Build-Depends-Indep"@) == lookup(
                    defaulted,
                    "Build-Depends-Indep"@,
                ));
                assert(field_deps(merged, "Build-Depends"@) == Ok::<_, Seq<char>>(listed));
                assert(field_deps(merged, "Build-Depends-Indep"@) == Ok::<_, Seq<char>>(bdi));
                // Nothing is missing from them, so the line is written as it stands.
                lemma_synced_build_depends_fixed(bd, bdi, deps);
                lemma_upsert_same_value(merged, "Build-Depends"@, text);
                assert(with_build_depends(merged, deps) == Ok::<_, MergeFailure>(merged));
                // The project's own fields hold what the project says.
                lemma_overrides_fixed(synced, project.repository, project.homepage);
            }
        },
        Err(_) => {},
    }
}

/// Setting the project's own fields a second time changes nothing.
pub proof fn lemma_overrides_fixed(
    entries: Seq<Entry>,
    repository: Option<String>,
    homepage: Option<String>,
)
    ensures
        with_overrides(with_overrides(entries, repository, homepage), repository, homepage)
            == with_overrides(entries, repository, homepage),
{
    lemma_field_names_differ();
    let once = with_overrides(entries, repository, homepage);
    lemma_lookup_with_overrides(entries, repository, homepage, "Vcs-Git"@);
    lemma_lookup_with_overrides(entries, repository, homepage, "Vcs-Browser"@);
    lemma_lookup_with_overrides(entries, repository, homepage, "Homepage"@);
    let e1 = match repository {
        Some(r) => {
            lemma_upsert_same_value(once, "Vcs-Git"@, r@);
            lemma_upsert_same_value(once, "Vcs-Browser"@, r@);
            upsert(upsert(once, "Vcs-Git"@, r@), "Vcs-Browser"@, r@)
        },
        None => once,
    };
    assert(e1 == once);
    match homepage {
        Some(h) => {
            lemma_upsert_same_value(once, "Homepage"@, h@);
        },
        None => {},
    }
}

/// Merging is idempotent. Where a merge succeeds and its result is handed
/// to a second merge for the same project and maintainer, the second merge
/// returns the very same paragraphs, so the control file comes out byte
/// for byte as it was. This holds provided that the `Build-Depends` line
/// that the first merge wrote is read back as the list that it was written
/// from, which is for the `debian` crate to keep.
pub proof fn lemma_merge_idempotent(
    project: Project,
    maintainer: Maintainer,
    existing: Option<Seq<Seq<Entry>>>,
)
    ensures
        match merged_control(project, maintainer, existing) {
            Ok(paragraphs) => reads_back(
                merged_build_depends(
                    project,
                    uploaders_text(maintainer),
                    base_entries(existing, xform_spec(project.name@)),
                ),
            ) ==> merged_control(project, maintainer, Some(paragraphs)) == Ok::<_, MergeFailure>(
                paragraphs,
            ),
            Err(_) => true,
        },
{
    let deb_name = xform_spec(project.name@);
    let uploaders = uploaders_text(maintainer);
    let base = base_entries(existing, deb_name);
    lemma_merged_source_fixed(project, uploaders, base);
    match merged_control(project, maintainer, existing) {
        Ok(paragraphs) => {
            let merged = merged_source(project, uploaders, base)->Ok_0;
            assert(paragraphs[0] == merged);
            assert(base_entries(Some(paragraphs), deb_name) == merged);
        },
        Err(_) => {},
    }
}

} // verus!
