use debianize::binary::{describe, description_of};
use debianize::project::{BuildTarget, DependencyKind, ProjectDependency, SourceKind, TargetKind};
use debianize::text::{chars_of, concat2, concat3, fold, join_strings};

#[test]
fn lines_after_the_first_are_put_behind_a_blank() {
    assert_eq!(fold(""), "");
    assert_eq!(fold("one line"), "one line");
    assert_eq!(fold("a\nb\nc"), "a\n b\n c");
    assert_eq!(fold("a\n\nb\n"), "a\n \n b\n ");
}

#[test]
fn strings_are_joined_with_the_separator_between_them() {
    assert_eq!(join_strings(&vec![], ", "), "");
    assert_eq!(join_strings(&vec!["a".to_string()], ", "), "a");
    assert_eq!(join_strings(&vec!["a".to_string(), "".to_string(), "c".to_string()], ", "), "a, , c");
}

#[test]
fn strings_are_put_together() {
    assert_eq!(concat2("ab", "cd"), "abcd");
    assert_eq!(concat3("ab", "", "cd"), "abcd");
    assert_eq!(chars_of("h\u{e9}!"), vec!['h', '\u{e9}', '!']);
}

#[test]
fn description_is_trimmed_and_folded() {
    assert_eq!(describe(&None), None);
    assert_eq!(describe(&Some(" \n A tool.\n  More.\t\n".to_string())), Some("A tool.\n   More.".to_string()));
    assert_eq!(describe(&Some("   ".to_string())), Some("".to_string()));
}

#[test]
fn description_field_has_summary_text_and_closing() {
    assert_eq!(description_of("rust-x", " - lib", &None, "\n end"), "rust-x - lib");
    assert_eq!(
        description_of("rust-x", " - lib", &Some("Long\n text".to_string()), "\n .\n end"),
        "rust-x - lib\n Long\n text\n .\n end"
    );
}

#[test]
fn only_local_development_dependencies_have_no_package() {
    for kind in [DependencyKind::Normal, DependencyKind::Development, DependencyKind::Build] {
        for source in [SourceKind::Registry, SourceKind::Git, SourceKind::Path] {
            let dep = ProjectDependency {
                name: "d".to_string(),
                version_req: "1".to_string(),
                kind,
                optional: true,
                source,
            };
            let skipped = kind == DependencyKind::Development && source == SourceKind::Path;
            assert_eq!(dep.packaged(), !skipped);
        }
    }
}

#[test]
fn only_release_libraries_are_packaged() {
    for kind in [TargetKind::Lib, TargetKind::Bin, TargetKind::Example] {
        for profile in ["release", "test", "doc", "Release", ""] {
            let target = BuildTarget {
                name: "t".to_string(),
                kind,
                profile: profile.to_string(),
                src_path: "src/lib.rs".to_string(),
                metadata: "m".to_string(),
                extra_filename: "-m".to_string(),
            };
            assert_eq!(target.release_lib(), kind == TargetKind::Lib && profile == "release");
        }
    }
}
