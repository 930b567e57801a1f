use debian::control::{ControlFile, ControlParagraph};
use debianize::error::{DebianizeError, DependsField};
use debianize::merge::merge_control;
use debianize::project::{
    BuildTarget, DependencyKind, Maintainer, Project, ProjectDependency, SourceKind, TargetKind,
};

fn maintainer() -> Maintainer {
    Maintainer { name: "Jane Doe".to_string(), email: "jane@example.org".to_string() }
}

fn dependency(name: &str, kind: DependencyKind, source: SourceKind) -> ProjectDependency {
    ProjectDependency {
        name: name.to_string(),
        version_req: "*".to_string(),
        kind,
        optional: false,
        source,
    }
}

fn library(name: &str) -> BuildTarget {
    BuildTarget {
        name: name.to_string(),
        kind: TargetKind::Lib,
        profile: "release".to_string(),
        src_path: "src/lib.rs".to_string(),
        metadata: "0123abcd".to_string(),
        extra_filename: "-0123abcd".to_string(),
    }
}

fn project() -> Project {
    Project {
        name: "glob".to_string(),
        version: "0.2.1".to_string(),
        description: None,
        homepage: None,
        repository: None,
        dependencies: vec![],
        targets: vec![],
    }
}

fn control_with(fields: &[(&str, &str)]) -> ControlFile {
    control_of(&[fields])
}

fn fields_of(p: &ControlParagraph, names: &[&str]) -> Vec<Option<String>> {
    names.iter().map(|n| p.get_entry(n).map(|v| v.to_string())).collect()
}

fn control_of(paragraphs: &[&[(&str, &str)]]) -> ControlFile {
    let mut f = ControlFile::default();
    for fields in paragraphs {
        let mut p = ControlParagraph::default();
        for (k, v) in fields.iter() {
            p.add_entry(k, v.to_string());
        }
        f.add_paragraph(p);
    }
    f
}

fn shown(file: &ControlFile) -> String {
    format!("{:?}", file)
}

#[test]
fn fresh_control_file_has_the_source_paragraph() {
    let (file, regenerated) = merge_control(&project(), &maintainer(), None).unwrap();
    assert!(!regenerated);
    assert_eq!(file.get_paragraphs().len(), 1);
    assert_eq!(
        shown(&file),
        shown(&control_with(&[
            ("Source", "rust-glob"),
            ("Priority", "optional"),
            ("Section", "rust"),
            ("Maintainer", "Debian Rust Team <rust@debian.org>"),
            ("Uploaders", "Jane Doe <jane@example.org>"),
            ("Standards-Version", "3.9.6"),
            ("Build-Depends", "debhelper (>= 9.20150101.1+nmu1), rustc"),
        ]))
    );
}

#[test]
fn existing_priority_is_kept() {
    let existing = control_with(&[("Source", "rust-glob"), ("Priority", "extra")]);
    let (file, _) = merge_control(&project(), &maintainer(), Some(&existing)).unwrap();
    let source = &file.get_paragraphs()[0];
    assert_eq!(source.get_entry("Priority"), Some("extra"));
    assert_eq!(source.get_entry("Section"), Some("rust"));
}

#[test]
fn every_existing_default_field_is_kept() {
    let existing = control_with(&[
        ("Source", "mine"),
        ("Section", "devel"),
        ("Maintainer", "Me <me@example.org>"),
        ("Uploaders", "You <you@example.org>"),
        ("Standards-Version", "4.0.0"),
        ("X-Comment", "kept as it is"),
    ]);
    let (file, regenerated) = merge_control(&project(), &maintainer(), Some(&existing)).unwrap();
    assert!(!regenerated);
    assert_eq!(
        shown(&file),
        shown(&control_with(&[
            ("Source", "mine"),
            ("Section", "devel"),
            ("Maintainer", "Me <me@example.org>"),
            ("Uploaders", "You <you@example.org>"),
            ("Standards-Version", "4.0.0"),
            ("X-Comment", "kept as it is"),
            ("Priority", "optional"),
            ("Build-Depends", "debhelper (>= 9.20150101.1+nmu1), rustc"),
        ]))
    );
}

#[test]
fn local_development_dependency_is_skipped() {
    let mut p = project();
    p.dependencies = vec![dependency("bar", DependencyKind::Development, SourceKind::Path)];
    let (file, _) = merge_control(&p, &maintainer(), None).unwrap();
    let bd = file.get_paragraphs()[0].get_entry("Build-Depends").unwrap().to_string();
    assert!(!bd.contains("bar-dev"));
    assert_eq!(bd, "debhelper (>= 9.20150101.1+nmu1), rustc");
}

#[test]
fn other_dependencies_get_their_development_package() {
    let mut p = project();
    p.dependencies = vec![
        dependency("bar", DependencyKind::Normal, SourceKind::Path),
        dependency("baz", DependencyKind::Development, SourceKind::Registry),
        dependency("openssl-sys", DependencyKind::Build, SourceKind::Git),
        dependency("libc", DependencyKind::Normal, SourceKind::Registry),
        dependency("rustc-serialize", DependencyKind::Normal, SourceKind::Registry),
        dependency("qux", DependencyKind::Development, SourceKind::Path),
    ];
    let (file, _) = merge_control(&p, &maintainer(), None).unwrap();
    assert_eq!(
        file.get_paragraphs()[0].get_entry("Build-Depends"),
        Some(
            "debhelper (>= 9.20150101.1+nmu1), rustc, rust-bar-dev, rust-baz-dev, \
             libopenssl-rust-dev, libc-rust-dev, rustc-serialize-dev"
        )
    );
}

#[test]
fn listed_build_dependencies_stay_and_are_not_added_again() {
    let existing = control_with(&[
        ("Source", "rust-glob"),
        ("Build-Depends", "rust-bar-dev (>= 1.0) | other, debhelper (>= 10)"),
        ("Build-Depends-Indep", "rustc [amd64]"),
    ]);
    let mut p = project();
    p.dependencies = vec![
        dependency("bar", DependencyKind::Normal, SourceKind::Registry),
        dependency("baz", DependencyKind::Normal, SourceKind::Registry),
    ];
    let (file, _) = merge_control(&p, &maintainer(), Some(&existing)).unwrap();
    let source = &file.get_paragraphs()[0];
    assert_eq!(
        source.get_entry("Build-Depends"),
        Some("rust-bar-dev (>= 1.0) | other, debhelper (>= 10), rust-baz-dev")
    );
    assert_eq!(source.get_entry("Build-Depends-Indep"), Some("rustc [amd64]"));
}

#[test]
fn a_dependency_declared_twice_is_added_twice_and_then_no_more() {
    let mut p = project();
    p.dependencies = vec![
        dependency("bar", DependencyKind::Normal, SourceKind::Registry),
        dependency("bar", DependencyKind::Build, SourceKind::Registry),
    ];
    let (first, _) = merge_control(&p, &maintainer(), None).unwrap();
    assert_eq!(
        first.get_paragraphs()[0].get_entry("Build-Depends"),
        Some("debhelper (>= 9.20150101.1+nmu1), rustc, rust-bar-dev, rust-bar-dev")
    );
    let (second, _) = merge_control(&p, &maintainer(), Some(&first)).unwrap();
    assert_eq!(shown(&second), shown(&first));
}

#[test]
fn homepage_and_repository_are_overridden() {
    let existing = control_with(&[
        ("Source", "rust-glob"),
        ("Homepage", "http://old.example.org"),
        ("Vcs-Git", "git://old"),
    ]);
    let mut p = project();
    p.homepage = Some("http://example.org".to_string());
    p.repository = Some("https://example.org/glob.git".to_string());
    let (file, _) = merge_control(&p, &maintainer(), Some(&existing)).unwrap();
    let source = &file.get_paragraphs()[0];
    assert_eq!(
        fields_of(source, &["Homepage", "Vcs-Git", "Vcs-Browser"]),
        vec![
            Some("http://example.org".to_string()),
            Some("https://example.org/glob.git".to_string()),
            Some("https://example.org/glob.git".to_string()),
        ]
    );
    assert_eq!(
        shown(&file),
        shown(&control_with(&[
            ("Source", "rust-glob"),
            ("Homepage", "http://example.org"),
            ("Vcs-Git", "https://example.org/glob.git"),
            ("Priority", "optional"),
            ("Section", "rust"),
            ("Maintainer", "Debian Rust Team <rust@debian.org>"),
            ("Uploaders", "Jane Doe <jane@example.org>"),
            ("Standards-Version", "3.9.6"),
            ("Build-Depends", "debhelper (>= 9.20150101.1+nmu1), rustc"),
            ("Vcs-Browser", "https://example.org/glob.git"),
        ]))
    );
}

#[test]
fn only_the_first_of_two_fields_of_one_name_is_overridden() {
    let existing = control_with(&[
        ("Source", "rust-glob"),
        ("Homepage", "http://first.example.org"),
        ("Homepage", "http://second.example.org"),
    ]);
    let mut p = project();
    p.homepage = Some("http://example.org".to_string());
    let (file, _) = merge_control(&p, &maintainer(), Some(&existing)).unwrap();
    assert_eq!(
        shown(&file),
        shown(&control_with(&[
            ("Source", "rust-glob"),
            ("Homepage", "http://example.org"),
            ("Homepage", "http://second.example.org"),
            ("Priority", "optional"),
            ("Section", "rust"),
            ("Maintainer", "Debian Rust Team <rust@debian.org>"),
            ("Uploaders", "Jane Doe <jane@example.org>"),
            ("Standards-Version", "3.9.6"),
            ("Build-Depends", "debhelper (>= 9.20150101.1+nmu1), rustc"),
        ]))
    );
}

#[test]
fn homepage_is_set_on_a_fresh_file_and_left_alone_without_one() {
    let mut p = project();
    p.homepage = Some("http://example.org".to_string());
    let (file, _) = merge_control(&p, &maintainer(), None).unwrap();
    assert_eq!(file.get_paragraphs()[0].get_entry("Homepage"), Some("http://example.org"));
    let existing = control_with(&[("Source", "rust-glob"), ("Homepage", "http://kept.example.org")]);
    let (file, _) = merge_control(&project(), &maintainer(), Some(&existing)).unwrap();
    assert_eq!(file.get_paragraphs()[0].get_entry("Homepage"), Some("http://kept.example.org"));
}

#[test]
fn malformed_build_depends_stops_the_merge() {
    let existing = control_with(&[("Source", "rust-glob"), ("Build-Depends", "debhelper (>= 9))")]);
    match merge_control(&project(), &maintainer(), Some(&existing)) {
        Err(DebianizeError::Parse(field, e)) => {
            assert_eq!(field, DependsField::BuildDepends);
            assert_eq!(e.text, "debhelper (>= 9))");
            assert_eq!(e.reason, "garbage after version");
        }
        other => panic!("unexpected: {:?}", other.map(|(f, r)| (shown(&f), r))),
    }
}

#[test]
fn malformed_build_depends_indep_stops_the_merge() {
    let existing = control_with(&[
        ("Source", "rust-glob"),
        ("Build-Depends", "debhelper"),
        ("Build-Depends-Indep", "a b"),
    ]);
    match merge_control(&project(), &maintainer(), Some(&existing)) {
        Err(DebianizeError::Parse(field, e)) => {
            assert_eq!(field, DependsField::BuildDependsIndep);
            assert_eq!(e.text, "a b");
        }
        other => panic!("unexpected: {:?}", other.map(|(f, r)| (shown(&f), r))),
    }
}

#[test]
fn control_file_without_paragraph_is_made_afresh() {
    let empty = ControlFile::default();
    let (file, regenerated) = merge_control(&project(), &maintainer(), Some(&empty)).unwrap();
    assert!(regenerated);
    assert_eq!(file.get_paragraphs()[0].get_entry("Source"), Some("rust-glob"));
}

#[test]
fn binary_paragraphs_follow_for_each_release_library() {
    let mut p = project();
    p.description = Some("  Match paths.\nSecond line.\n\n".to_string());
    let mut test_profile = library("glob");
    test_profile.profile = "test".to_string();
    let mut binary = library("tool");
    binary.kind = TargetKind::Bin;
    p.targets = vec![test_profile, library("glob"), binary];
    let (file, _) = merge_control(&p, &maintainer(), None).unwrap();
    assert_eq!(
        shown(&file),
        shown(&control_of(&[
            &[
                ("Source", "rust-glob"),
                ("Priority", "optional"),
                ("Section", "rust"),
                ("Maintainer", "Debian Rust Team <rust@debian.org>"),
                ("Uploaders", "Jane Doe <jane@example.org>"),
                ("Standards-Version", "3.9.6"),
                ("Build-Depends", "debhelper (>= 9.20150101.1+nmu1), rustc"),
            ],
            &[
                ("Package", "rust-glob-0.2.1"),
                ("Architecture", "amd64 i386"),
                ("Pre-Depends", "${misc:Pre-Depends}"),
                ("Depends", "${misc:Depends}, ${shlibs:Depends}"),
                (
                    "Description",
                    "rust-globrust crate - dylib\n Match paths.\n Second line.\n .\n \
                     This package contains the dynamic library.",
                ),
            ],
            &[
                ("Package", "rust-glob-dev"),
                ("Architecture", "amd64 i386"),
                ("Pre-Depends", "${misc:Pre-Depends}"),
                ("Depends", "${misc:Depends}, ${shlibs:Depends}"),
                (
                    "Description",
                    "rust-globrust crate - rlib and staticlib\n Match paths.\n Second line.\n .\n \
                     This package contains the static and rlib variants of the library.",
                ),
            ],
        ]))
    );
}

#[test]
fn binary_paragraph_without_description_has_the_summary_only() {
    let mut p = project();
    p.targets = vec![library("glob")];
    let (file, _) = merge_control(&p, &maintainer(), None).unwrap();
    let paragraphs = file.get_paragraphs();
    assert_eq!(paragraphs[1].get_entry("Description"), Some("rust-globrust crate - dylib"));
    assert_eq!(
        paragraphs[2].get_entry("Description"),
        Some("rust-globrust crate - rlib and staticlib")
    );
}

#[test]
fn second_merge_changes_nothing() {
    let mut p = project();
    p.description = Some("Match paths.".to_string());
    p.homepage = Some("http://example.org".to_string());
    p.repository = Some("https://example.org/glob.git".to_string());
    p.dependencies = vec![
        dependency("bar", DependencyKind::Normal, SourceKind::Registry),
        dependency("foo-sys", DependencyKind::Build, SourceKind::Registry),
        dependency("local", DependencyKind::Development, SourceKind::Path),
    ];
    p.targets = vec![library("glob")];
    let existing = control_with(&[
        ("Source", "rust-glob"),
        ("Priority", "extra"),
        ("Build-Depends", "cmake (>= 3.0~rc1) | ninja [amd64]"),
        ("Homepage", "http://old.example.org"),
    ]);
    let (first, _) = merge_control(&p, &maintainer(), Some(&existing)).unwrap();
    let (second, _) = merge_control(&p, &maintainer(), Some(&first)).unwrap();
    assert_eq!(shown(&second), shown(&first));
    let (third, _) = merge_control(&p, &maintainer(), Some(&second)).unwrap();
    assert_eq!(shown(&third), shown(&first));
    let (fresh, _) = merge_control(&p, &maintainer(), None).unwrap();
    let (again, _) = merge_control(&p, &maintainer(), Some(&fresh)).unwrap();
    assert_eq!(shown(&again), shown(&fresh));
}

#[test]
fn a_line_that_is_not_read_back_as_written_is_merged_again() {
    let mut p = project();
    p.dependencies = vec![dependency("a,b", DependencyKind::Normal, SourceKind::Registry)];
    let (first, _) = merge_control(&p, &maintainer(), None).unwrap();
    assert_eq!(
        first.get_paragraphs()[0].get_entry("Build-Depends"),
        Some("debhelper (>= 9.20150101.1+nmu1), rustc, rust-a,b-dev")
    );
    let (second, _) = merge_control(&p, &maintainer(), Some(&first)).unwrap();
    assert_eq!(
        second.get_paragraphs()[0].get_entry("Build-Depends"),
        Some("debhelper (>= 9.20150101.1+nmu1), rustc, rust-a, b-dev, rust-a,b-dev")
    );
}
