//! The failure kinds of a build-unit invocation.  Every kind is fatal: the
//! invocation stops at the first failure, with no retry and no partial
//! artifact.

use vstd::prelude::*;
use vstd::string::*;

verus! {

/// One fatal failure of a unit invocation.
#[derive(Debug)]
pub enum BuildError {
    /// A required environment entry was absent.
    MissingEnvironment { name: String },
    /// A file path could not be represented as text.
    NonUtf8Path { path: String },
    /// An upstream unit's exported payload failed to decode; names the
    /// offending upstream unit.
    MalformedPropagation { dependency: String },
    /// A copy or lookup failed during staging; names the offending path.
    FilesystemFailure { path: String },
}

impl BuildError {
    /// A human-readable description that names the offending item.
    pub fn message(&self) -> (m: String)
        ensures
            match self {
                BuildError::MissingEnvironment { name } => m@ == "missing environment entry: "@
                    + name@,
                BuildError::NonUtf8Path { path } => m@ == "non-text path: "@ + path@,
                BuildError::MalformedPropagation { dependency } => m@
                    == "propagated definitions from dependency "@ + dependency@,
                BuildError::FilesystemFailure { path } => m@ == "staging failed at: "@ + path@,
            },
    {
        match self {
            BuildError::MissingEnvironment { name } => {
                let mut m = String::from_str("missing environment entry: ");
                m.append(name.as_str());
                m
            },
            BuildError::NonUtf8Path { path } => {
                let mut m = String::from_str("non-text path: ");
                m.append(path.as_str());
                m
            },
            BuildError::MalformedPropagation { dependency } => {
                let mut m = String::from_str("propagated definitions from dependency ");
                m.append(dependency.as_str());
                m
            },
            BuildError::FilesystemFailure { path } => {
                let mut m = String::from_str("staging failed at: ");
                m.append(path.as_str());
                m
            },
        }
    }
}

} // verus!
