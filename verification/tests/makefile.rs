use debianize::makefile::MakefileRule;
use debianize::project::{BuildTarget, TargetKind};
use debianize::rules::{build_rules, render_makefile};

fn target(name: &str, kind: TargetKind, profile: &str) -> BuildTarget {
    BuildTarget {
        name: name.to_string(),
        kind,
        profile: profile.to_string(),
        src_path: "src/lib.rs".to_string(),
        metadata: "abc123".to_string(),
        extra_filename: "-abc123".to_string(),
    }
}

#[test]
fn new_rule_has_only_a_target() {
    let r = MakefileRule::new("all".to_string());
    assert_eq!(r.serialize(), "all: \n\t");
}

#[test]
fn singleton_rule_has_one_dependency() {
    let r = MakefileRule::singleton("build/libfoo.so".to_string(), "build/libfoo.stamp".to_string());
    assert_eq!(r.serialize(), "build/libfoo.so: build/libfoo.stamp\n\t");
}

#[test]
fn rule_serializes_dependencies_and_commands() {
    let mut r = MakefileRule::new("install".to_string());
    r.add_dep("all".to_string()).add_dep("check".to_string());
    r.add_rule("mkdir -p out".to_string()).add_rule("cp a out".to_string());
    assert_eq!(r.serialize(), "install: all check\n\tmkdir -p out\n\tcp a out");
}

#[test]
fn makefile_without_targets_has_the_three_general_rules() {
    let rules = build_rules(&vec![]);
    assert_eq!(rules.len(), 3);
    assert_eq!(
        render_makefile(&rules),
        "#!/usr/bin/make -f\n\n# Automatically generated. DO NOT EDIT.\n\n\
         all: \n\t\n\n\
         install: all\n\tinstall -d $(DESTDIR)/usr/lib/x86_64-linux-gnu/rust/1.0/lib/rustlib/x86_64-unknown-linux-gnu/lib/\n\n\
         check: all\n\t\n"
    );
}

#[test]
fn makefile_for_one_library() {
    let rules = build_rules(&vec![
        target("foo", TargetKind::Lib, "release"),
        target("foo", TargetKind::Lib, "test"),
        target("tool", TargetKind::Bin, "release"),
    ]);
    let texts: Vec<String> = rules.iter().map(|r| r.serialize()).collect();
    let dir = "/usr/lib/x86_64-linux-gnu/rust/1.0/lib/rustlib/x86_64-unknown-linux-gnu/lib/";
    assert_eq!(
        texts,
        vec![
            "all: build/libfoo.stamp\n\t".to_string(),
            format!(
                "install: all\n\tinstall -d $(DESTDIR){d}\n\t\
                 install -m 644 -s build/libfoo-abc123.so $(DESTDIR){d}\n\t\
                 install -m 644 -s build/libfoo-abc123.rlib $(DESTDIR){d}\n\t\
                 install -m 644 -s build/libfoo-abc123.a $(DESTDIR){d}",
                d = dir
            ),
            "check: all\n\t".to_string(),
            "build/libfoo-abc123.a: build/libfoo.stamp\n\t".to_string(),
            "build/libfoo-abc123.rlib: build/libfoo.stamp\n\t".to_string(),
            "build/libfoo-abc123.so: build/libfoo.stamp\n\t".to_string(),
            "build/libfoo.stamp: \n\t@if test ! -d build; then mkdir build; fi\n\t\
             rustc src/lib.rs --crate-name foo --crate-type staticlib,rlib,dylib -C prefer-dynamic \
             -C opt-level=3 --cfg ndebug -C metadata=abc123 -C extra-filename=-abc123 \
             --out-dir build --emit=dep-info,link\n\ttouch build/libfoo.stamp"
                .to_string(),
        ]
    );
}

#[test]
fn makefile_targets_are_distinct_for_one_library() {
    let rules = build_rules(&vec![target("foo", TargetKind::Lib, "release")]);
    let mut names: Vec<String> = rules
        .iter()
        .map(|r| r.serialize().split(':').next().unwrap().to_string())
        .collect();
    let n = names.len();
    names.sort();
    names.dedup();
    assert_eq!(names.len(), n);
}

#[test]
fn makefile_rules_of_later_targets_come_first() {
    let rules = build_rules(&vec![
        target("one", TargetKind::Lib, "release"),
        target("two", TargetKind::Lib, "release"),
    ]);
    let texts: Vec<String> = rules.iter().map(|r| r.serialize()).collect();
    assert_eq!(texts.len(), 11);
    assert_eq!(texts[0], "all: build/libone.stamp build/libtwo.stamp\n\t");
    assert!(texts[3].starts_with("build/libtwo-abc123.a: "));
    assert!(texts[6].starts_with("build/libtwo.stamp: "));
    assert!(texts[7].starts_with("build/libone-abc123.a: "));
    assert!(texts[10].starts_with("build/libone.stamp: "));
}
