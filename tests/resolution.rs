use build_deps::doc::{parse_document, Node};
use build_deps::error::Error;
use build_deps::ident::{format_id, PackageId};
use build_deps::lock::{lock_dependencies, lock_metadata};
use build_deps::manifest::{manifest_dependencies, package_name};
use build_deps::resolve::{resolve_manifest, resolve_version};
use build_deps::semver::is_semver_text;

fn doc(text: &str) -> Node {
    parse_document(text).expect("valid TOML")
}

fn pairs(v: &[(&str, &str)]) -> Vec<(String, String)> {
    v.iter().map(|(a, b)| (a.to_string(), b.to_string())).collect()
}

fn ids(v: &[(&str, &str)]) -> Vec<PackageId> {
    v.iter().map(|(a, b)| PackageId::new(a, b)).collect()
}

#[test]
fn manifest_pairs_follow_declaration_order() {
    let d = doc("[dependencies]\nzeta = \"1.0\"\nalpha = \"2.0\"\nmid = { version = \"0.3\" }\n");
    let r = manifest_dependencies(&d).unwrap();
    assert_eq!(r, pairs(&[("zeta", "1.0"), ("alpha", "2.0"), ("mid", "0.3")]));
}

#[test]
fn manifest_scalar_entry_has_no_quotes() {
    let d = doc("[dependencies]\nfoo = \"1.2.3\"\n");
    assert_eq!(manifest_dependencies(&d).unwrap(), pairs(&[("foo", "1.2.3")]));
}

#[test]
fn manifest_table_without_version_is_empty_spec() {
    let d = doc("[dependencies]\nfoo = { path = \"../foo\" }\n");
    assert_eq!(manifest_dependencies(&d).unwrap(), pairs(&[("foo", "")]));
}

#[test]
fn manifest_without_dependencies_fails() {
    let d = doc("[package]\nname = \"top\"\n");
    assert_eq!(manifest_dependencies(&d), Err(Error::ManifestFormat));
}

#[test]
fn manifest_entry_of_other_shape_fails() {
    let d = doc("[dependencies]\nfoo = 3\n");
    assert_eq!(manifest_dependencies(&d), Err(Error::ManifestFormat));
    let d = doc("[dependencies]\nfoo = { version = 3 }\n");
    assert_eq!(manifest_dependencies(&d), Err(Error::ManifestFormat));
}

#[test]
fn manifest_built_by_hand() {
    let d = Node::Table(vec![(
        "dependencies".to_string(),
        Node::Table(vec![
            ("a".to_string(), Node::Str("1".to_string())),
            ("b".to_string(), Node::Table(vec![])),
        ]),
    )]);
    assert_eq!(manifest_dependencies(&d).unwrap(), pairs(&[("a", "1"), ("b", "")]));
}

#[test]
fn package_name_is_read() {
    let d = doc("[package]\nname = \"top\"\nversion = \"0.1.0\"\n");
    assert_eq!(package_name(&d).unwrap(), "top");
    assert_eq!(package_name(&doc("[dependencies]\n")), Err(Error::ManifestFormat));
}

#[test]
fn invalid_toml_gives_no_document() {
    assert!(parse_document("[dependencies\nfoo = ").is_none());
}

#[test]
fn semver_recognition() {
    for good in ["1.2.3", "0.0.0", "10.20.30", "1.0.0-alpha.1", "1.0.0-x-y.0", "1.0.0+build.5", "1.0.0-rc.1+sha.abc"] {
        assert!(is_semver_text(good), "{}", good);
    }
    for bad in ["", "1.0", "1", "01.2.3", "1.2.3.4", "1.2.3-", "1.2.3-01", "1.2.3+", "1.2.x", "^1.2.3", "1.2.3-a..b"] {
        assert!(!is_semver_text(bad), "{}", bad);
    }
}

#[test]
fn resolver_keeps_semver() {
    let meta = ids(&[("foo", "9.9.9")]);
    assert_eq!(resolve_version("foo", "1.2.3", &meta).unwrap(), "1.2.3");
    assert_eq!(resolve_version("foo", "1.2.3", &vec![]).unwrap(), "1.2.3");
}

#[test]
fn resolver_empty_spec_takes_only_entry() {
    let meta = ids(&[("foo", "0.4.0")]);
    assert_eq!(resolve_version("foo", "", &meta).unwrap(), "0.4.0");
}

#[test]
fn resolver_fails_without_matching_name() {
    let meta = ids(&[("bar", "1.0.0"), ("baz", "1.0.1")]);
    assert_eq!(resolve_version("foo", "1.0", &meta), Err(Error::VersionResolution));
    assert_eq!(resolve_version("foo", "", &vec![]), Err(Error::VersionResolution));
}

#[test]
fn resolver_takes_first_prefix_match() {
    let meta = ids(&[("foo", "2.0.0"), ("bar", "1.0.9"), ("foo", "1.0.7"), ("foo", "1.0.4")]);
    assert_eq!(resolve_version("foo", "1.0", &meta).unwrap(), "1.0.7");
    assert_eq!(resolve_version("foo", "", &meta).unwrap(), "2.0.0");
    assert_eq!(resolve_version("foo", "1.1", &meta), Err(Error::VersionResolution));
}

#[test]
fn lock_two_token_reference() {
    let d = doc("[[package]]\nname = \"top\"\ndependencies = [\"dep 1.0.0\"]\n\n[[package]]\nname = \"dep\"\nversion = \"1.0.0\"\n");
    assert_eq!(lock_dependencies(&d, "top").unwrap(), ids(&[("dep", "1.0.0")]));
}

#[test]
fn lock_absent_package_fails() {
    let d = doc("[[package]]\nname = \"dep\"\nversion = \"1.0.0\"\n");
    assert_eq!(lock_dependencies(&d, "top"), Err(Error::PackageNotFound));
    assert_eq!(lock_dependencies(&doc("x = 1\n"), "top"), Err(Error::PackageNotFound));
}

#[test]
fn lock_bare_name_is_joined() {
    let text = [
        "[[package]]\nname = \"top\"\nversion = \"0.1.0\"\ndependencies = [\"a\", \"b 2.1.0 (registry+https://example.org)\"]\n",
        "[[package]]\nname = \"a\"\nversion = \"0.5.2\"\n",
        "[[package]]\nname = \"b\"\nversion = \"2.1.0\"\n",
    ]
    .join("\n");
    let d = doc(&text);
    assert_eq!(lock_dependencies(&d, "top").unwrap(), ids(&[("a", "0.5.2"), ("b", "2.1.0")]));
}

#[test]
fn lock_reference_errors() {
    let d = doc("[[package]]\nname = \"top\"\ndependencies = [\"missing\"]\n");
    assert_eq!(lock_dependencies(&d, "top"), Err(Error::PackageNotFound));
    let d = doc("[[package]]\nname = \"top\"\ndependencies = [\"dep \"]\n");
    assert_eq!(lock_dependencies(&d, "top"), Err(Error::DependencyFormat));
    let d = doc("[[package]]\nname = \"top\"\ndependencies = [\" 1.0.0\"]\n");
    assert_eq!(lock_dependencies(&d, "top"), Err(Error::DependencyFormat));
    let d = doc("[[package]]\nname = \"top\"\ndependencies = [1]\n");
    assert_eq!(lock_dependencies(&d, "top"), Err(Error::DependencyFormat));
    let d = doc("[[package]]\nname = \"top\"\ndependencies = \"dep 1.0.0\"\n");
    assert_eq!(lock_dependencies(&d, "top"), Err(Error::DependencyFormat));
}

#[test]
fn lock_without_dependencies_is_empty() {
    let d = doc("[[package]]\nname = \"top\"\nversion = \"0.1.0\"\n");
    assert_eq!(lock_dependencies(&d, "top").unwrap(), vec![]);
}

#[test]
fn lock_metadata_lists_named_versions() {
    let d = doc("[[package]]\nname = \"top\"\n\n[[package]]\nname = \"a\"\nversion = \"1.0.0\"\n\n[[package]]\nname = \"b\"\nversion = \"2.0.0\"\n");
    assert_eq!(lock_metadata(&d), ids(&[("a", "1.0.0"), ("b", "2.0.0")]));
}

#[test]
fn identifier_format() {
    assert_eq!(format_id("a", "1.0.0"), "a:1.0.0");
    assert_eq!(PackageId::new("serde", "1.0.9").to_token(), "serde:1.0.9");
}

#[test]
fn manifest_resolution_end_to_end_ids() {
    let d = doc("[dependencies]\nfoo = \"1.0\"\nbar = { version = \"2.0\" }\n");
    let meta = ids(&[("foo", "1.0.4"), ("bar", "2.0.1")]);
    assert_eq!(resolve_manifest(&d, &meta).unwrap(), ids(&[("foo", "1.0.4"), ("bar", "2.0.1")]));
}

#[test]
fn manifest_resolution_reports_first_error() {
    let d = doc("[dependencies]\nfoo = \"1.0\"\nbar = \"3\"\n");
    let meta = ids(&[("foo", "1.0.4")]);
    assert_eq!(resolve_manifest(&d, &meta), Err(Error::VersionResolution));
    assert_eq!(resolve_manifest(&doc("x = 1\n"), &meta), Err(Error::ManifestFormat));
}
