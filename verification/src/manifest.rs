//! Manifests: what to fetch, how to check it, and where its files go.

use vstd::prelude::*;
use crate::checksum::Checksum;
use crate::version::Version;

verus! {

/// What a manifest is about.
#[derive(Debug, PartialEq, Eq)]
pub struct Info {
    /// The name of the manifest.
    pub name: String,
    /// The version that the manifest installs.
    pub version: Version,
}

/// How to ask an installed binary for its version.
#[derive(Debug, PartialEq, Eq)]
pub struct VersionCheck {
    /// The arguments to run the binary with.
    pub args: Vec<String>,
    /// A regular expression whose first group captures the version in the
    /// output of the binary.
    pub pattern: String,
}

/// How to find out whether a manifest is installed.
#[derive(Debug, PartialEq, Eq)]
pub struct Discover {
    /// The file name of the installed binary.
    pub binary: String,
    /// How to ask that binary for its version.
    pub version_check: VersionCheck,
}

/// The kind of an installed file.
#[derive(Clone, Copy, Debug, PartialEq, Eq, Structural)]
pub enum Target {
    /// An executable.
    Binary,
    /// A man page.
    Manpage,
    /// A shell completion.
    Completion,
}

/// A member of an archive to install.
#[derive(Debug, PartialEq, Eq)]
pub struct InstallFile {
    /// The path of the member within the archive.
    pub source: String,
    /// The name of the installed file.
    pub name: String,
    /// The kind of the file.
    pub target: Target,
}

/// What to install from a download.
#[derive(Debug, PartialEq, Eq)]
pub enum Install {
    /// The download itself, under the given name.
    SingleFile { name: String, target: Target },
    /// Members of the download, which is an archive.
    FilesFromArchive { files: Vec<InstallFile> },
}

/// A download and what to install from it.
#[derive(Debug, PartialEq, Eq)]
pub struct InstallDownload {
    /// Where to fetch the artifact from.
    pub download: String,
    /// The name to keep the artifact under in the scratch directory.
    pub filename: String,
    /// The checksum of the artifact.
    pub checksum: Checksum,
    /// What to install from the artifact.
    pub install: Install,
}

/// A manifest.
#[derive(Debug, PartialEq, Eq)]
pub struct Manifest {
    /// What the manifest is about.
    pub info: Info,
    /// How to find the installed binary and its version.
    pub discover: Discover,
    /// What to download and install.
    pub install: Vec<InstallDownload>,
}

} // verus!
