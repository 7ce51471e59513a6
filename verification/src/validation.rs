//! Path policy and preflight checks: which entries are skipped during
//! materialization, which files receive template substitution, and the
//! existence checks that gate a scaffold run before anything is written.

use vstd::prelude::*;
use vstd::string::*;

use crate::strutil::{
    find_last, lemma_suffix_after_last_absent, lemma_suffix_after_last_at, spec_ends_with,
    str_ends_with, str_eq, suffix_after_last,
};
use crate::ScaffoldError;

verus! {

/// Whether an entry of the given name is excluded from materialization:
/// dependency lock files (`Cargo.lock`, or any `.lock` suffix) and the
/// build-output directory `target`.
pub open spec fn spec_should_skip(name: Seq<char>) -> bool {
    name == "Cargo.lock"@ || spec_ends_with(name, ".lock"@) || name == "target"@
}

/// Should skip copying certain files during template processing.
pub fn should_skip_file(file_name: &str) -> (r: bool)
    ensures
        r == spec_should_skip(file_name@),
{
    str_eq(file_name, "Cargo.lock") || str_ends_with(file_name, ".lock") || str_eq(
        file_name,
        "target",
    )
}

/// The final component of a path: everything after the last `/`.
pub open spec fn spec_file_name(path: Seq<char>) -> Seq<char> {
    suffix_after_last(path, '/')
}

/// The extension of a file name: everything after the last `.`, provided
/// that dot is neither absent nor the leading character (so dotfiles such
/// as `.gitignore` have no extension).
pub open spec fn spec_extension(file_name: Seq<char>) -> Option<Seq<char>> {
    let ext = suffix_after_last(file_name, '.');
    if ext.len() + 2 <= file_name.len() {
        Some(ext)
    } else {
        None
    }
}

/// Whether a file's contents receive template substitution: true for the
/// source, manifest, documentation and structured-data extensions on the
/// allow-list, and for the conventionally unextended names `LICENSE` and
/// `README`; false for everything else, so binary assets are copied
/// byte-for-byte.
pub open spec fn spec_should_template(path: Seq<char>) -> bool {
    let name = spec_file_name(path);
    match spec_extension(name) {
        Some(ext) => ext == "rs"@ || ext == "toml"@ || ext == "md"@ || ext == "json"@ || ext
            == "txt"@,
        None => name == "LICENSE"@ || name == "README"@,
    }
}

/// Determines if a file should be processed as a template based on its
/// extension.
pub fn should_template_file(file_path: &str) -> (r: bool)
    ensures
        r == spec_should_template(file_path@),
{
    // Reduce the path to its final component.
    let path_len = file_path.unicode_len();
    let name: &str = match find_last(file_path, '/') {
        Some(i) => {
            proof {
                lemma_suffix_after_last_at(file_path@, '/', i as int);
            }
            file_path.substring_char(i + 1, path_len)
        },
        None => {
            proof {
                lemma_suffix_after_last_absent(file_path@, '/');
            }
            file_path
        },
    };
    proof {
        assert(name@ =~= spec_file_name(file_path@));
    }
    let name_len = name.unicode_len();
    match find_last(name, '.') {
        Some(i) if i >= 1 => {
            proof {
                lemma_suffix_after_last_at(name@, '.', i as int);
            }
            let ext = name.substring_char(i + 1, name_len);
            proof {
                assert(ext@ =~= suffix_after_last(name@, '.'));
            }
            str_eq(ext, "rs") || str_eq(ext, "toml") || str_eq(ext, "md") || str_eq(ext, "json")
                || str_eq(ext, "txt")
        },
        Some(i) => {
            // The only dot leads the name, as in `.gitignore`: no extension,
            // and a leading-dot name is neither `LICENSE` nor `README`.
            proof {
                lemma_suffix_after_last_at(name@, '.', i as int);
                assert(suffix_after_last(name@, '.').len() == name@.len() - 1);
                assert(name@[0] == '.');
                assert(name@ != "LICENSE"@) by {
                    reveal_strlit("LICENSE");
                }
                assert(name@ != "README"@) by {
                    reveal_strlit("README");
                }
            }
            false
        },
        None => {
            proof {
                lemma_suffix_after_last_absent(name@, '.');
            }
            str_eq(name, "LICENSE") || str_eq(name, "README")
        },
    }
}

/// The preflight decision for the destination root: creation must not
/// proceed when a file-system entry with the project's name already
/// exists.
pub fn destination_check(destination_exists: bool) -> (r: Result<(), ScaffoldError>)
    ensures
        r == if destination_exists {
            Err::<(), ScaffoldError>(ScaffoldError::AlreadyExists)
        } else {
            Ok::<(), ScaffoldError>(())
        },
{
    if destination_exists {
        Err(ScaffoldError::AlreadyExists)
    } else {
        Ok(())
    }
}

/// The preflight decision for the template source root: materialization
/// needs an existing source tree.
pub fn source_check(source_exists: bool) -> (r: Result<(), ScaffoldError>)
    ensures
        r == if source_exists {
            Ok::<(), ScaffoldError>(())
        } else {
            Err::<(), ScaffoldError>(ScaffoldError::NotFound)
        },
{
    if source_exists {
        Ok(())
    } else {
        Err(ScaffoldError::NotFound)
    }
}

/// Relies on `std::path::Path::exists`: whether a file-system entry is
/// present at the given path. The answer depends on the state of the disk,
/// so nothing is promised of it.
#[verifier::external_body]
fn path_exists(path: &str) -> bool {
    std::path::Path::new(path).exists()
}

/// Validates that the project directory doesn't already exist. Whether the
/// check passes depends on the disk; every failure is `AlreadyExists`.
pub fn validate_project_directory(project_name: &str) -> (r: Result<(), ScaffoldError>)
    ensures
        r matches Err(e) ==> e == ScaffoldError::AlreadyExists,
{
    destination_check(path_exists(project_name))
}

/// Validates that the template directory exists. Whether the check passes
/// depends on the disk; every failure is `NotFound`.
pub fn validate_template_directory(template_dir: &str) -> (r: Result<(), ScaffoldError>)
    ensures
        r matches Err(e) ==> e == ScaffoldError::NotFound,
{
    source_check(path_exists(template_dir))
}

} // verus!
