//! Release inspection and requirement extraction for a Python package
//! registry, with the core pipeline verified: version-tag normalization,
//! the per-package release index, artifact selection with its fixed
//! wheel-before-source fallback order, archive scanning for the one entry
//! that carries requirement data, and the two requirement parsers (legacy
//! line-oriented text and the structured wheel metadata document).
//!
//! Network transport, file I/O and serde decoding live outside the
//! library; the [`lookup`] module hands those steps out to the driver as a
//! small state machine.  Calls into the archive and version-parsing crates
//! stand behind trusted wrappers whose contracts name what the calls
//! return; everything that interprets those results is verified.

pub mod archive;
pub mod errors;
pub mod lookup;
pub mod package;
pub mod parse_release;
pub mod pipfile;
pub mod pypi;
pub mod release;
pub mod strutil;
pub mod version;
pub mod version_req;
