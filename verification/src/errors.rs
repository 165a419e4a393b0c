//! The build's error taxonomy. Every error is fatal: the pipeline has no
//! retry or partial-success mode, so an error at any stage aborts the build
//! and is returned to the caller as it stands.

use vstd::prelude::*;
use vstd::string::StringExecFns;

verus! {

/// A fatal build error. `Io` and `InvalidPath` carry the offending path;
/// `Converter` carries the external converter's exit code and captured
/// output streams so that diagnostics are surfaced, not swallowed.
#[derive(Debug, Clone, PartialEq, Eq)]
pub enum BuildError {
    /// A source file could not be read, or a staging or output path could
    /// not be written.
    Io(String),
    /// An item resolved to an invalid path relative to the book root.
    InvalidPath(String),
    /// The external converter ran but exited with a non-zero status (or was
    /// terminated without one); its captured stdout and stderr follow.
    Converter(Option<i32>, String, String),
    /// The external converter could not be launched at all.
    Launch,
    /// The external converter's captured output was not valid text.
    Encoding,
}

/// The diagnostic line `BuildError::message` renders for each variant.
pub open spec fn message_spec(e: BuildError) -> Seq<char> {
    match e {
        BuildError::Io(path) => "input or output failed on "@ + path@,
        BuildError::InvalidPath(path) => "invalid path "@ + path@,
        BuildError::Converter(_, _, stderr) => "external converter failed: "@ + stderr@,
        BuildError::Launch => "could not launch external converter"@,
        BuildError::Encoding => "external converter output was not valid text"@,
    }
}

impl BuildError {
    /// One diagnostic line for the caller to present; for a converter
    /// failure it carries the converter's stderr verbatim.
    pub fn message(&self) -> (r: String)
        ensures
            r@ == message_spec(*self),
    {
        match self {
            BuildError::Io(path) => {
                let mut m = "input or output failed on ".to_owned();
                m.append(path.as_str());
                m
            },
            BuildError::InvalidPath(path) => {
                let mut m = "invalid path ".to_owned();
                m.append(path.as_str());
                m
            },
            BuildError::Converter(_, _, stderr) => {
                let mut m = "external converter failed: ".to_owned();
                m.append(stderr.as_str());
                m
            },
            BuildError::Launch => "could not launch external converter".to_owned(),
            BuildError::Encoding => "external converter output was not valid text".to_owned(),
        }
    }
}

} // verus!
