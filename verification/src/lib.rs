//! Gepetto: a project-scaffolding library.
//!
//! The library derives naming variants from a canonical dash-case project
//! name, assembles an immutable project configuration, decides which
//! file-system entries are skipped, renamed or template-substituted, mirrors
//! a template tree into a destination tree, and serializes the generated
//! program identity. All of that logic is verified; interactive prompts and
//! actual file-system traffic live in the surrounding application.

use vstd::prelude::*;

pub mod artifact;
pub mod config;
pub mod names;
pub mod strutil;
pub mod template;
pub mod util;
pub mod validation;

verus! {

/// The error kinds that a scaffolding run can surface.
///
/// `AlreadyExists` and `NotFound` come from the preflight checks in this
/// library; `Input` and `Io` name the two failure kinds that arise only
/// in the surrounding application, when collecting input or touching the
/// file system fails.
#[derive(Clone, Copy, Debug, PartialEq, Eq, Structural)]
pub enum ScaffoldError {
    /// A file-system entry with the destination name already exists.
    AlreadyExists,
    /// The template source root is missing.
    NotFound,
    /// Interactive input collection failed.
    Input,
    /// A read, write or create failed during materialization.
    Io,
}

} // verus!
