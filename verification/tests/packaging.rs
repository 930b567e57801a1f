use debian::control::{ControlFile, ControlParagraph};
use debianize::error::{DebianizeError, DependsField};
use debianize::packaging::{debianize, initial_changelog, output_files, WritePolicy};
use debianize::project::{BuildTarget, Maintainer, Project, TargetKind};

fn maintainer() -> Maintainer {
    Maintainer { name: "Jane Doe".to_string(), email: "jane@example.org".to_string() }
}

fn project_with_library() -> Project {
    Project {
        name: "foo-sys".to_string(),
        version: "1.2.3".to_string(),
        description: Some("Bindings.".to_string()),
        homepage: None,
        repository: None,
        dependencies: vec![],
        targets: vec![BuildTarget {
            name: "foo".to_string(),
            kind: TargetKind::Lib,
            profile: "release".to_string(),
            src_path: "src/lib.rs".to_string(),
            metadata: "feed".to_string(),
            extra_filename: "-feed".to_string(),
        }],
    }
}

#[test]
fn changelog_starts_with_the_first_revision() {
    let seed = initial_changelog(&project_with_library());
    assert_eq!(seed.package, "libfoo-rust");
    assert_eq!(seed.version, "1.2.3-1");
    assert_eq!(seed.detail, "  * Initial debianization by cargo.\n");
}

#[test]
fn existing_changelog_stops_the_pass() {
    let r = debianize(&project_with_library(), &maintainer(), None, true);
    assert!(matches!(r, Err(DebianizeError::UnsupportedUpdate)));
}

#[test]
fn existing_changelog_is_reported_before_a_malformed_control_file() {
    let mut p = ControlParagraph::default();
    p.add_entry("Build-Depends", "a b".to_string());
    let mut f = ControlFile::default();
    f.add_paragraph(p);
    let r = debianize(&project_with_library(), &maintainer(), Some(&f), true);
    assert!(matches!(r, Err(DebianizeError::UnsupportedUpdate)));
}

#[test]
fn malformed_build_depends_produces_nothing() {
    let mut p = ControlParagraph::default();
    p.add_entry("Source", "libfoo-rust".to_string());
    p.add_entry("Build-Depends", "debhelper (>= 9))".to_string());
    let mut f = ControlFile::default();
    f.add_paragraph(p);
    match debianize(&project_with_library(), &maintainer(), Some(&f), false) {
        Err(DebianizeError::Parse(field, e)) => {
            assert_eq!(field, DependsField::BuildDepends);
            assert_eq!(e.text, "debhelper (>= 9))");
        }
        _ => panic!("the pass went on"),
    }
    assert_eq!(f.get_paragraphs()[0].get_entry("Build-Depends"), Some("debhelper (>= 9))"));
    assert!(!f.get_paragraphs()[0].has_entry("Priority"));
}

#[test]
fn pass_produces_every_file() {
    let p = debianize(&project_with_library(), &maintainer(), None, false).unwrap();
    assert!(!p.source_regenerated);
    assert_eq!(p.changelog.package, "libfoo-rust");
    assert_eq!(p.changelog.version, "1.2.3-1");
    assert_eq!(p.control.get_paragraphs().len(), 3);
    assert_eq!(p.control.get_paragraphs()[0].get_entry("Source"), Some("libfoo-rust"));
    assert_eq!(p.control.get_paragraphs()[1].get_entry("Package"), Some("libfoo-rust-1.2.3"));
    assert_eq!(p.control.get_paragraphs()[2].get_entry("Package"), Some("libfoo-rust-dev"));
    let paths: Vec<&str> = p.files.iter().map(|f| f.path.as_str()).collect();
    assert_eq!(
        paths,
        vec![
            "libfoo-rust-1.2.3.install",
            "libfoo-rust-dev.install",
            "Makefile.cargo",
            "compat",
            "source/format",
            "rules",
        ]
    );
    let policies: Vec<WritePolicy> = p.files.iter().map(|f| f.policy).collect();
    assert_eq!(
        policies,
        vec![
            WritePolicy::Always,
            WritePolicy::Always,
            WritePolicy::Always,
            WritePolicy::IfAbsent,
            WritePolicy::IfAbsent,
            WritePolicy::IfAbsent,
        ]
    );
}

#[test]
fn install_lists_name_the_installed_files() {
    let files = output_files(&project_with_library());
    let dir = "/usr/lib/x86_64-linux-gnu/rust/1.0/lib/rustlib/x86_64-unknown-linux-gnu/lib/";
    assert_eq!(files[0].contents, format!("{}libfoo-*.so\n", dir));
    assert_eq!(files[1].contents, format!("{d}libfoo-*.rlib\n{d}libfoo-*.a\n", d = dir));
}

#[test]
fn fixed_files_have_their_fixed_text() {
    let files = output_files(&project_with_library());
    assert_eq!(files[3].contents, "9\n");
    assert_eq!(files[4].contents, "3.0 (quilt)\n");
    assert_eq!(files[5].contents, "#!/usr/bin/make -f\n\n%:\n\tdh $@\n");
}

#[test]
fn makefile_is_marked_as_generated() {
    let files = output_files(&project_with_library());
    assert!(files[2]
        .contents
        .starts_with("#!/usr/bin/make -f\n\n# Automatically generated. DO NOT EDIT.\n\nall: build/libfoo.stamp\n\t\n\n"));
    assert!(files[2].contents.ends_with("\n\ttouch build/libfoo.stamp\n"));
}

#[test]
fn project_without_library_has_no_install_list() {
    let mut project = project_with_library();
    project.targets[0].kind = TargetKind::Example;
    let p = debianize(&project, &maintainer(), None, false).unwrap();
    assert_eq!(p.control.get_paragraphs().len(), 1);
    assert_eq!(p.files.len(), 4);
    assert_eq!(p.files[0].path, "Makefile.cargo");
}
