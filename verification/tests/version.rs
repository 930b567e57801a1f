use debianize::version::{digit_runs_fit, parse_version};

#[test]
fn version_is_read_and_written() {
    assert_eq!(parse_version("9.20150101.1+nmu1").unwrap().to_string(), "9.20150101.1+nmu1");
    assert_eq!(parse_version("1:2.0-3").unwrap().to_string(), "1:2.0-3");
    assert_eq!(parse_version("2.0-3").unwrap().to_string(), "2.0-3");
    assert_eq!(parse_version("1:2.0").unwrap().to_string(), "1:2.0");
}

#[test]
fn version_parts_are_split_at_the_first_colon_and_the_last_dash() {
    let v = parse_version("3:1-2-3").unwrap();
    assert_eq!(v.epoch, 3);
    assert_eq!(v.upstream_version.to_string(), "1-2");
    assert_eq!(v.debian_revision.to_string(), "3");
}

#[test]
fn malformed_epoch_is_rejected_with_the_text() {
    let e = parse_version("x:1.0").unwrap_err();
    assert_eq!(e.text, "x:1.0");
    assert_eq!(e.reason, "Expected a numeric epoch.");
}

#[test]
fn version_without_a_colon_is_always_read() {
    for text in ["", "-", "abc", "1..2", "~"] {
        assert!(parse_version(text).is_ok());
    }
}

#[test]
fn overlong_number_is_rejected() {
    let text = "1.12345678901234567890";
    let e = parse_version(text).unwrap_err();
    assert_eq!(e.text, text);
    assert_eq!(e.reason, "a number has too many digits");
}

#[test]
fn digit_runs_are_measured() {
    assert!(digit_runs_fit(""));
    assert!(digit_runs_fit("1234567890123456789"));
    assert!(!digit_runs_fit("12345678901234567890"));
    assert!(digit_runs_fit("1234567890.1234567890"));
    assert!(!digit_runs_fit("a-00000000000000000001"));
    assert_eq!(parse_version("9999999999999999999").unwrap().to_string(), "9999999999999999999");
}
