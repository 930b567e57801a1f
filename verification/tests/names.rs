use debianize::name::xform_pkg_name;

#[test]
fn libc_has_a_name_of_its_own() {
    assert_eq!(xform_pkg_name("libc"), "libc-rust");
}

#[test]
fn system_library_wrapper_drops_its_suffix() {
    assert_eq!(xform_pkg_name("foo-sys"), "libfoo-rust");
    assert_eq!(xform_pkg_name("openssl-sys"), "libopenssl-rust");
}

#[test]
fn compiler_family_name_is_kept() {
    assert_eq!(xform_pkg_name("rustc-serialize"), "rustc-serialize");
}

#[test]
fn ordinary_name_gets_the_prefix() {
    assert_eq!(xform_pkg_name("glob"), "rust-glob");
    assert_eq!(xform_pkg_name("hamcrest"), "rust-hamcrest");
}

#[test]
fn bare_suffix_and_bare_prefix_are_ordinary_names() {
    assert_eq!(xform_pkg_name("-sys"), "rust--sys");
    assert_eq!(xform_pkg_name("rustc"), "rust-rustc");
    assert_eq!(xform_pkg_name(""), "rust-");
}

#[test]
fn suffix_rule_comes_before_prefix_rule() {
    assert_eq!(xform_pkg_name("rustc-llvm-sys"), "librustc-llvm-rust");
}

#[test]
fn name_transform_is_not_idempotent() {
    let once = xform_pkg_name("glob");
    assert_eq!(xform_pkg_name(&once), "rust-rust-glob");
}

#[test]
fn name_with_wide_characters_is_cut_by_characters() {
    assert_eq!(xform_pkg_name("\u{e9}t\u{e9}-sys"), "lib\u{e9}t\u{e9}-rust");
}
