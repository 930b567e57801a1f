use debianize::depends::{parse_dep_list, render_dep_list, Dependency, SingleDependency, VRel};
use debianize::version::parse_version;

#[test]
fn dependency_list_is_read() {
    let deps = parse_dep_list("debhelper (>= 9), rustc | cargo [amd64], foo (<< 1:2.0-3)").unwrap();
    assert_eq!(deps.len(), 3);
    assert_eq!(deps[0].alternatives.len(), 1);
    assert_eq!(deps[0].alternatives[0].package, "debhelper");
    let (rel, v) = deps[0].alternatives[0].version.clone().unwrap();
    assert_eq!(rel, VRel::GreaterOrEqual);
    assert_eq!(v.to_string(), "9");
    assert_eq!(deps[1].alternatives.len(), 2);
    assert_eq!(deps[1].alternatives[0].package, "rustc");
    assert!(deps[1].alternatives[0].version.is_none());
    assert_eq!(deps[1].alternatives[1].package, "cargo");
    assert_eq!(deps[1].alternatives[1].arch, Some("amd64".to_string()));
    let (rel, v) = deps[2].alternatives[0].version.clone().unwrap();
    assert_eq!(rel, VRel::Lesser);
    assert_eq!(v.to_string(), "1:2.0-3");
}

#[test]
fn dependency_list_is_written() {
    let deps = vec![
        Dependency {
            alternatives: vec![SingleDependency {
                package: "debhelper".to_string(),
                version: Some((VRel::GreaterOrEqual, parse_version("9.20150101.1+nmu1").unwrap())),
                arch: None,
            }],
        },
        Dependency {
            alternatives: vec![
                SingleDependency { package: "a".to_string(), version: None, arch: None },
                SingleDependency {
                    package: "b".to_string(),
                    version: Some((VRel::Equal, parse_version("1.0").unwrap())),
                    arch: Some("i386".to_string()),
                },
                SingleDependency {
                    package: "c".to_string(),
                    version: None,
                    arch: Some("amd64".to_string()),
                },
            ],
        },
    ];
    assert_eq!(
        render_dep_list(&deps),
        "debhelper (>= 9.20150101.1+nmu1), a | b (= 1.0) [i386] | c [amd64]"
    );
}

#[test]
fn every_relation_has_its_sign() {
    let cases = [
        (VRel::GreaterOrEqual, ">="),
        (VRel::Greater, ">>"),
        (VRel::LesserOrEqual, "<="),
        (VRel::Lesser, "<<"),
        (VRel::Equal, "="),
    ];
    for (rel, sign) in cases {
        let deps = vec![Dependency {
            alternatives: vec![SingleDependency {
                package: "p".to_string(),
                version: Some((rel, parse_version("2").unwrap())),
                arch: None,
            }],
        }];
        let text = render_dep_list(&deps);
        assert_eq!(text, format!("p ({} 2)", sign));
        let back = parse_dep_list(&text).unwrap();
        assert_eq!(back[0].alternatives[0].version.clone().unwrap().0, rel);
    }
}

#[test]
fn empty_list_is_written_as_nothing() {
    assert_eq!(render_dep_list(&vec![]), "");
}

#[test]
fn written_list_is_read_back_the_same() {
    let first = parse_dep_list("debhelper (>= 9.20150101.1+nmu1), rustc, rust-foo-dev | rust-bar-dev (<< 2~rc1) [amd64 i386]").unwrap();
    let text = render_dep_list(&first);
    let second = parse_dep_list(&text).unwrap();
    assert_eq!(render_dep_list(&second), text);
    assert_eq!(first.len(), second.len());
    for (a, b) in first.iter().zip(second.iter()) {
        assert_eq!(a.alternatives.len(), b.alternatives.len());
        for (x, y) in a.alternatives.iter().zip(b.alternatives.iter()) {
            assert_eq!(x.package, y.package);
            assert_eq!(x.version, y.version);
            assert_eq!(x.arch, y.arch);
        }
    }
}

#[test]
fn malformed_dependency_is_rejected_with_its_text() {
    let e = parse_dep_list("foo (>= 1.0))").unwrap_err();
    assert_eq!(e.text, "foo (>= 1.0))");
    assert_eq!(e.reason, "garbage after version");
    let e = parse_dep_list("foo bar").unwrap_err();
    assert_eq!(e.reason, "garbage after package name");
    let e = parse_dep_list("foo (== 1)").unwrap_err();
    assert_eq!(e.reason, "invalid relation");
    let e = parse_dep_list("foo (>= x:1)").unwrap_err();
    assert_eq!(e.reason, "error parsing version");
}

#[test]
fn dependency_with_an_overlong_number_is_rejected() {
    let text = "foo (>= 1.123456789012345678901)";
    let e = parse_dep_list(text).unwrap_err();
    assert_eq!(e.text, text);
    assert_eq!(e.reason, "a number has too many digits");
    assert!(parse_dep_list("foo (>= 1.1234567890123456789)").is_ok());
}
