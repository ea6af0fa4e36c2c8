use egit::package::{parse_package, sanitize_filename, source_filename, ArchiveKind};

#[test]
fn parse_owner_repo_version() {
    let (owner, repo, version) = parse_package("rust-lang/cargo@1.70.0");
    assert_eq!(owner, "rust-lang");
    assert_eq!(repo, "cargo");
    assert_eq!(version.as_deref(), Some("1.70.0"));
}

#[test]
fn parse_owner_repo_without_version() {
    let (owner, repo, version) = parse_package("rust-lang/cargo");
    assert_eq!(owner, "rust-lang");
    assert_eq!(repo, "cargo");
    assert!(version.is_none());
}

#[test]
fn parse_repo_with_inner_slash() {
    let (owner, repo, version) = parse_package("a/b/c");
    assert_eq!(owner, "a");
    assert_eq!(repo, "b/c");
    assert!(version.is_none());
}

#[test]
fn parse_version_keeps_later_at_signs() {
    let (owner, repo, version) = parse_package("a/b@c@d");
    assert_eq!(owner, "a");
    assert_eq!(repo, "b");
    assert_eq!(version.as_deref(), Some("c@d"));
}

#[test]
fn parse_bare_name_falls_back_to_github() {
    let (owner, repo, version) = parse_package("ripgrep");
    assert_eq!(owner, "github");
    assert_eq!(repo, "ripgrep");
    assert!(version.is_none());
}

#[test]
fn parse_name_at_version_falls_back_to_github() {
    let (owner, repo, version) = parse_package("ripgrep@14.0.0");
    assert_eq!(owner, "github");
    assert_eq!(repo, "ripgrep");
    assert_eq!(version.as_deref(), Some("14.0.0"));
}

#[test]
fn parse_at_before_slash_falls_back() {
    let (owner, repo, version) = parse_package("x@y/z");
    assert_eq!(owner, "github");
    assert_eq!(repo, "x");
    assert_eq!(version.as_deref(), Some("y/z"));
}

#[test]
fn parse_empty_version_falls_back_with_empty_version() {
    let (owner, repo, version) = parse_package("a/b@");
    assert_eq!(owner, "github");
    assert_eq!(repo, "a/b");
    assert_eq!(version.as_deref(), Some(""));
}

#[test]
fn parse_many_at_signs_keeps_leading_part() {
    let (owner, repo, version) = parse_package("a@b@c");
    assert_eq!(owner, "github");
    assert_eq!(repo, "a");
    assert!(version.is_none());
}

#[test]
fn parse_empty_reference() {
    let (owner, repo, version) = parse_package("");
    assert_eq!(owner, "github");
    assert_eq!(repo, "");
    assert!(version.is_none());
}

#[test]
fn sanitize_replaces_every_special_character() {
    assert_eq!(sanitize_filename("a@b/c:d*e?f\"g<h>i|j"), "a-b-c-d-e-f-g-h-i-j");
}

#[test]
fn sanitize_keeps_ordinary_names() {
    assert_eq!(sanitize_filename("release-v1.2.3_linux.tar.gz"), "release-v1.2.3_linux.tar.gz");
}

#[test]
fn sanitize_keeps_non_ascii_characters() {
    assert_eq!(sanitize_filename("paquet-éprouvé"), "paquet-éprouvé");
}

#[test]
fn source_filename_tar_gz() {
    assert_eq!(source_filename("owner/repo", ArchiveKind::TarGz), "owner-repo-source.tar.gz");
}

#[test]
fn source_filename_zip() {
    assert_eq!(source_filename("owner/repo@v2", ArchiveKind::Zip), "owner-repo-v2-source.zip");
}
