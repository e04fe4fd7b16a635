use vstd::prelude::*;

verus! {

/// Every way a resolution or a build run can fail. Each of them ends the run.
#[derive(Debug, Clone, Copy, PartialEq, Eq, Structural)]
pub enum Error {
    /// The manifest lacks a `package.name` string or a `dependencies` table,
    /// or a dependency entry is neither a version string nor a table with an
    /// optional `version` string.
    ManifestFormat,
    /// A dependency reference of the lock graph cannot be split into a name
    /// and a version, or the record it names carries no version.
    DependencyFormat,
    /// A package named by the query or by a reference has no lock entry.
    PackageNotFound,
    /// No metadata entry matches a dependency's name and version prefix.
    VersionResolution,
    /// The build tool could not be started.
    ProcessSpawn,
    /// The build tool exited with a non-zero code.
    BuildFailed(i32),
    /// The build tool ended without an exit code (it was killed by a signal).
    ProcessTerminated,
}

impl Error {
    /// A sentence that describes the failure.
    pub fn message(&self) -> String {
        match self {
            Error::ManifestFormat => String::from_str("malformed manifest: no usable dependencies table"),
            Error::DependencyFormat => String::from_str("malformed dependency reference in the lock graph"),
            Error::PackageNotFound => String::from_str("package not found in the lock graph"),
            Error::VersionResolution => String::from_str("no resolved package matches the version specification"),
            Error::ProcessSpawn => String::from_str("failed to execute process"),
            Error::BuildFailed(_) => String::from_str("build exited with a non-zero status code"),
            Error::ProcessTerminated => String::from_str("build process terminated by signal"),
        }
    }
}

} // verus!
