use gepetto::validation::{
    destination_check, should_skip_file, should_template_file, source_check,
    validate_project_directory, validate_template_directory,
};
use gepetto::ScaffoldError;

#[test]
fn test_should_template_allowed_extensions() {
    assert!(should_template_file("src/lib.rs"));
    assert!(should_template_file("Cargo.toml"));
    assert!(should_template_file("README.md"));
    assert!(should_template_file("program-id.json"));
    assert!(should_template_file("notes.txt"));
}

#[test]
fn test_should_template_bare_names() {
    assert!(should_template_file("LICENSE"));
    assert!(should_template_file("README"));
    assert!(should_template_file("some/dir/LICENSE"));
}

#[test]
fn test_should_template_rejects_other_files() {
    assert!(!should_template_file("logo.png"));
    assert!(!should_template_file("Cargo.lock"));
    assert!(!should_template_file("lib.rs.template"));
    assert!(!should_template_file("Makefile"));
    assert!(!should_template_file(".gitignore"));
    assert!(!should_template_file("dir.rs/binary"));
}

#[test]
fn test_should_skip() {
    assert!(should_skip_file("Cargo.lock"));
    assert!(should_skip_file("foo.lock"));
    assert!(should_skip_file("target"));
    assert!(!should_skip_file("Cargo.toml"));
    assert!(!should_skip_file("src"));
    assert!(!should_skip_file("lock"));
}

#[test]
fn test_destination_check() {
    assert_eq!(destination_check(true), Err(ScaffoldError::AlreadyExists));
    assert_eq!(destination_check(false), Ok(()));
}

#[test]
fn test_source_check() {
    assert_eq!(source_check(false), Err(ScaffoldError::NotFound));
    assert_eq!(source_check(true), Ok(()));
}

#[test]
fn test_validate_directories() {
    // The current directory always exists, so as a template source it
    // passes, and as a destination it is refused.
    assert_eq!(validate_template_directory("."), Ok(()));
    assert_eq!(validate_project_directory("."), Err(ScaffoldError::AlreadyExists));
    // A name that no entry in the working directory bears.
    let name = "no-such-entry-expected-anywhere-3459";
    assert_eq!(validate_project_directory(name), Ok(()));
    assert_eq!(validate_template_directory(name), Err(ScaffoldError::NotFound));
}
