//! Install prebuilt binaries, man pages and shell completions to `$HOME`.
//!
//! Not a package manager.
//!
//! A [`Manifest`] says what to fetch, how to check it and where its files go.
//! This library turns a manifest into operations and applies them, and finds
//! the version of what is installed. It does not touch the machine itself:
//! the files it works on are a [`files::FileTree`], what can be fetched and
//! unpacked are [`artifacts::Artifact`]s, and what an installed binary printed
//! is a [`ProbeOutcome`]. Whoever calls it reads those from the machine and
//! writes the tree back.
//!
//! What holds of installing and removing whatever the manifest is, is proved
//! in [`guarantees`].

use vstd::prelude::*;

pub mod apply;
pub mod artifacts;
pub mod checksum;
pub mod dirs;
pub mod error;
pub mod files;
pub mod guarantees;
pub mod manifest;
pub mod operations;
pub mod probe;
pub mod tools;
pub mod version;

pub use dirs::{HomebinProjectDirs, InstallDirs, ManifestOperationDirs};
pub use error::HomebinError;
pub use manifest::Manifest;
pub use probe::ProbeOutcome;
pub use version::Version;

use apply::{
    apply_operations, apply_operations_spec, destination_path, destination_path_spec,
    remove_operations, remove_operations_spec, Applied,
};
use artifacts::Artifact;
use dirs::{for_manifest_spec, join_path, join_spec, InstallDirsView};
use error::{result_view, HomebinErrorView};
use files::{FileTree, Files};
use operations::{
    destinations_view, install_manifest_spec, operation_destinations,
    operation_destinations_spec, removals_view, remove_manifest_spec, removed_destination_spec,
    DestinationView, RemoveOperation, RemoveOperationView,
};
use probe::{
    outdated, outdated_spec, version_from_probe, version_from_probe_spec, version_result_view,
};
use tools::{path_contains, path_contains_spec, texts_view};

verus! {

/// Something in the environment that keeps installed files from being found.
#[derive(Clone, Copy, Debug, PartialEq, Eq, Structural)]
pub enum EnvironmentWarning {
    /// `$PATH` is not set.
    PathNotSet,
    /// `$PATH` does not contain the directory for executables.
    BinDirNotInPath,
    /// The search path for man pages does not contain the directory for man pages.
    ManDirNotInManpath,
}

/// The warnings that an environment deserves: one about `$PATH`, if it is not
/// set or lacks the directory for executables, then one about the search path
/// for man pages, if it lacks the directory for man pages.
pub open spec fn check_environment_spec(
    install_dirs: InstallDirsView,
    path: Option<Seq<String>>,
    manpath: Seq<String>,
) -> Seq<EnvironmentWarning> {
    let about_path = match path {
        None => seq![EnvironmentWarning::PathNotSet],
        Some(entries) => if path_contains_spec(entries, install_dirs.bin_dir) {
            seq![]
        } else {
            seq![EnvironmentWarning::BinDirNotInPath]
        },
    };
    let about_manpath = if path_contains_spec(manpath, install_dirs.man_dir) {
        seq![]
    } else {
        seq![EnvironmentWarning::ManDirNotInManpath]
    };
    about_path + about_manpath
}

/// The entries of a search path that may be unset.
pub open spec fn entries_view(path: Option<&Vec<String>>) -> Option<Seq<String>> {
    match path {
        Some(entries) => Some(entries@),
        None => None,
    }
}

/// Check whether the environment is ok, and return what to warn about if not.
///
/// This specifically checks whether `install_dirs` are contained in the
/// relevant search paths: `path` holds the entries of `$PATH`, if it is set,
/// and `manpath` those of the search path for man pages.
pub fn check_environment(
    install_dirs: &InstallDirs,
    path: Option<&Vec<String>>,
    manpath: &Vec<String>,
) -> (warnings: Vec<EnvironmentWarning>)
    ensures
        warnings@ == check_environment_spec(install_dirs@, entries_view(path), manpath@),
{
    let mut warnings: Vec<EnvironmentWarning> = Vec::new();
    match path {
        None => warnings.push(EnvironmentWarning::PathNotSet),
        Some(entries) => {
            if !path_contains(entries, install_dirs.bin_dir.as_str()) {
                warnings.push(EnvironmentWarning::BinDirNotInPath);
            }
        },
    }
    if !path_contains(manpath, install_dirs.man_dir.as_str()) {
        warnings.push(EnvironmentWarning::ManDirNotInManpath);
    }
    assert(warnings@ =~= check_environment_spec(install_dirs@, entries_view(path), manpath@));
    warnings
}

/// The path of the binary that shows whether `manifest` is installed.
pub open spec fn installed_binary_spec(dirs: InstallDirsView, manifest: Manifest) -> Seq<char> {
    join_spec(dirs.bin_dir, manifest.discover.binary@)
}

/// The installed version of `manifest` that a probe of its binary shows.
pub open spec fn installed_manifest_version_spec(
    dirs: InstallDirsView,
    manifest: Manifest,
    outcome: ProbeOutcome,
) -> Result<Option<Seq<char>>, HomebinErrorView> {
    version_from_probe_spec(manifest, installed_binary_spec(dirs, manifest), outcome)
}

/// The installed version of `manifest` if the manifest declares a newer one.
pub open spec fn outdated_manifest_version_spec(
    dirs: InstallDirsView,
    manifest: Manifest,
    outcome: ProbeOutcome,
) -> Result<Option<Seq<char>>, HomebinErrorView> {
    match installed_manifest_version_spec(dirs, manifest, outcome) {
        Ok(installed) => Ok(outdated_spec(installed, manifest.info.version@)),
        Err(e) => Err(e),
    }
}

/// The path of the binary that shows whether `manifest` is installed: the
/// binary to discover, in the directory for executables.
pub fn installed_binary(dirs: &InstallDirs, manifest: &Manifest) -> (path: String)
    ensures
        path@ == installed_binary_spec(dirs@, *manifest),
{
    join_path(dirs.bin_dir.as_str(), manifest.discover.binary.as_str())
}

/// Get the installed version of the given manifest.
///
/// `outcome` is what came of running the installed binary with the arguments
/// of the version check. The pattern of the version check extracts the version
/// from the output.
///
/// Fail if the pattern is not a regular expression, whatever came of running
/// the binary. Else return `None` if the binary doesn't exist or its output
/// doesn't match the pattern; fail if it could not be run, if the output is
/// not UTF-8, or if what the pattern captured is not a version.
pub fn installed_manifest_version(
    dirs: &InstallDirs,
    manifest: &Manifest,
    outcome: &ProbeOutcome,
) -> (result: Result<Option<Version>, HomebinError>)
    ensures
        version_result_view(result) == installed_manifest_version_spec(dirs@, *manifest, *outcome),
{
    let binary = installed_binary(dirs, manifest);
    version_from_probe(manifest, binary.as_str(), outcome)
}

/// Whether the given manifest is outdated and needs updating.
///
/// Return the installed version if it's outdated, otherwise return `None`.
pub fn outdated_manifest_version(
    dirs: &InstallDirs,
    manifest: &Manifest,
    outcome: &ProbeOutcome,
) -> (result: Result<Option<Version>, HomebinError>)
    ensures
        version_result_view(result) == outdated_manifest_version_spec(dirs@, *manifest, *outcome),
{
    match installed_manifest_version(dirs, manifest, outcome) {
        Ok(installed) => Ok(outdated(installed, &manifest.info.version)),
        Err(e) => Err(e),
    }
}

/// What installing `manifest` comes to: its operations, applied to `files` in
/// their order, in the scratch directory of the manifest below `download_dir`.
pub open spec fn install_outcome_spec(
    download_dir: Seq<char>,
    install_dirs: InstallDirsView,
    manifest: Manifest,
    artifacts: Seq<Artifact>,
    files: Files,
) -> Applied {
    apply_operations_spec(
        install_manifest_spec(manifest),
        for_manifest_spec(download_dir, install_dirs, manifest.info.name@),
        artifacts,
        files,
    )
}

/// The files that removing `manifest` leaves of `files`.
pub open spec fn remove_outcome_spec(
    download_dir: Seq<char>,
    install_dirs: InstallDirsView,
    manifest: Manifest,
    files: Files,
) -> Files {
    remove_operations_spec(
        remove_manifest_spec(manifest),
        for_manifest_spec(download_dir, install_dirs, manifest.info.name@),
        files,
    )
}

/// The paths of `destinations` in `dirs`.
pub open spec fn destination_paths_spec(
    dirs: InstallDirsView,
    destinations: Seq<DestinationView>,
) -> Seq<Seq<char>> {
    destinations.map_values(|destination: DestinationView| destination_path_spec(dirs, destination))
}

/// The paths of the files that installing `manifest` to `dirs` places, in the
/// order in which it places them.
pub open spec fn installed_files_spec(dirs: InstallDirsView, manifest: Manifest) -> Seq<Seq<char>> {
    destination_paths_spec(dirs, operation_destinations_spec(install_manifest_spec(manifest)))
}

/// The paths of the files that removing `manifest` from `dirs` deletes, in the
/// order in which it deletes them.
pub open spec fn files_to_remove_spec(dirs: InstallDirsView, manifest: Manifest) -> Seq<Seq<char>> {
    remove_manifest_spec(manifest).map_values(
        |operation: RemoveOperationView|
            destination_path_spec(dirs, removed_destination_spec(operation)),
    )
}

/// Install a manifest.
///
/// Apply the operations of `manifest` to `tree`, against the given
/// `install_dirs` and using the given project `dirs` for downloads.
/// `artifacts` holds what can be fetched and extracted.
///
/// The operations are applied in their order. The first that fails ends the
/// installation with its error; what was done before it stays.
pub fn install_manifest(
    dirs: &HomebinProjectDirs,
    install_dirs: &InstallDirs,
    manifest: &Manifest,
    artifacts: &Vec<Artifact>,
    tree: &mut FileTree,
) -> (result: Result<(), HomebinError>)
    ensures
        install_outcome_spec(dirs.download_dir@, install_dirs@, *manifest, artifacts@, old(tree)@)
            == (Applied { result: result_view(result), files: final(tree)@ }),
{
    let op_dirs = ManifestOperationDirs::for_manifest(dirs, install_dirs, manifest);
    let operations = operations::install_manifest(manifest);
    apply_operations(&operations, &op_dirs, artifacts, tree)
}

/// Remove a manifest.
///
/// Apply the remove operations of `manifest` to `tree`, against the given
/// install dirs. Files that are not there are passed over: removing never
/// fails.
pub fn remove_manifest(
    dirs: &HomebinProjectDirs,
    install_dirs: &InstallDirs,
    manifest: &Manifest,
    tree: &mut FileTree,
) -> (result: Result<(), HomebinError>)
    ensures
        result is Ok,
        final(tree)@ == remove_outcome_spec(
            dirs.download_dir@,
            install_dirs@,
            *manifest,
            old(tree)@,
        ),
{
    let op_dirs = ManifestOperationDirs::for_manifest(dirs, install_dirs, manifest);
    let operations = operations::remove_manifest(manifest);
    remove_operations(&operations, &op_dirs, tree)
}

/// Get all files the `manifest` would install to `dirs`.
///
/// The paths depend on `dirs` and `manifest` alone.
pub fn installed_files(dirs: &InstallDirs, manifest: &Manifest) -> (files: Vec<String>)
    ensures
        texts_view(files@) == installed_files_spec(dirs@, *manifest),
{
    let operations = operations::install_manifest(manifest);
    let destinations = operation_destinations(&operations);
    let ghost views = destinations_view(destinations@);
    let mut files: Vec<String> = Vec::new();
    let mut i: usize = 0;
    while i < destinations.len()
        invariant
            i <= destinations.len(),
            files.len() == i,
            views == destinations_view(destinations@),
            forall|j: int|
                0 <= j < i ==> (#[trigger] files@[j])@ == destination_path_spec(dirs@, views[j]),
        decreases destinations.len() - i,
    {
        files.push(destination_path(dirs, &destinations[i]));
        i += 1;
    }
    assert(texts_view(files@) =~= installed_files_spec(dirs@, *manifest));
    files
}

/// Get all files that would be removed when removing `manifest`.
///
/// The paths depend on `dirs` and `manifest` alone.
pub fn files_to_remove(dirs: &InstallDirs, manifest: &Manifest) -> (files: Vec<String>)
    ensures
        texts_view(files@) == files_to_remove_spec(dirs@, *manifest),
{
    let operations = operations::remove_manifest(manifest);
    let ghost views = removals_view(operations@);
    let mut files: Vec<String> = Vec::new();
    let mut i: usize = 0;
    while i < operations.len()
        invariant
            i <= operations.len(),
            files.len() == i,
            views == removals_view(operations@),
            forall|j: int|
                0 <= j < i ==> (#[trigger] files@[j])@ == destination_path_spec(
                    dirs@,
                    removed_destination_spec(views[j]),
                ),
        decreases operations.len() - i,
    {
        match &operations[i] {
            RemoveOperation::Delete(directory, name) => {
                files.push(join_path(dirs.path(*directory), name.as_str()));
            },
        }
        i += 1;
    }
    assert(texts_view(files@) =~= files_to_remove_spec(dirs@, *manifest));
    files
}

} // verus!
