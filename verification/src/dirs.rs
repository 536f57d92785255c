//! The directories that manifests are installed to and worked on in.

use vstd::prelude::*;
use vstd::string::*;
use crate::manifest::Manifest;
use crate::operations::DestinationDirectory;

verus! {

/// The path of `name` below `base`.
///
/// A `name` that starts at the root stands for itself; otherwise it follows
/// `base`, after a separator where `base` does not end in one.
pub open spec fn join_spec(base: Seq<char>, name: Seq<char>) -> Seq<char> {
    if name.len() > 0 && name[0] == '/' {
        name
    } else if base.len() == 0 || base.last() == '/' {
        base + name
    } else {
        base + seq!['/'] + name
    }
}

/// Joins `name` to the directory `base`.
pub fn join_path(base: &str, name: &str) -> (path: String)
    ensures
        path@ == join_spec(base@, name@),
{
    let name_len: usize = name.unicode_len();
    let base_len: usize = base.unicode_len();
    if name_len > 0 && name.get_char(0) == '/' {
        name.to_owned()
    } else if base_len == 0 || base.get_char(base_len - 1) == '/' {
        let mut path = base.to_owned();
        path.append(name);
        path
    } else {
        let mut path = base.to_owned();
        proof {
            reveal_strlit("/");
        }
        assert("/"@ =~= seq!['/']);
        path.append("/");
        path.append(name);
        path
    }
}

/// The directories that files are installed to: one for each kind of file.
#[derive(Debug, PartialEq, Eq)]
pub struct InstallDirs {
    /// Where executables go.
    pub bin_dir: String,
    /// Where man pages go.
    pub man_dir: String,
    /// Where shell completions go.
    pub completion_dir: String,
}

/// The mathematical value of [`InstallDirs`].
pub struct InstallDirsView {
    pub bin_dir: Seq<char>,
    pub man_dir: Seq<char>,
    pub completion_dir: Seq<char>,
}

impl InstallDirsView {
    /// The directory for files of the given kind.
    pub open spec fn path(self, directory: DestinationDirectory) -> Seq<char> {
        match directory {
            DestinationDirectory::BinDir => self.bin_dir,
            DestinationDirectory::ManDir => self.man_dir,
            DestinationDirectory::CompletionDir => self.completion_dir,
        }
    }
}

impl View for InstallDirs {
    type V = InstallDirsView;

    open spec fn view(&self) -> InstallDirsView {
        InstallDirsView {
            bin_dir: self.bin_dir@,
            man_dir: self.man_dir@,
            completion_dir: self.completion_dir@,
        }
    }
}

impl Clone for InstallDirs {
    fn clone(&self) -> (copy: InstallDirs)
        ensures
            copy@ == self@,
    {
        InstallDirs {
            bin_dir: self.bin_dir.clone(),
            man_dir: self.man_dir.clone(),
            completion_dir: self.completion_dir.clone(),
        }
    }
}

impl InstallDirs {
    /// The directory for executables.
    pub fn bin_dir(&self) -> (path: &str)
        ensures
            path@ == self@.bin_dir,
    {
        self.bin_dir.as_str()
    }

    /// The directory for man pages.
    pub fn man_dir(&self) -> (path: &str)
        ensures
            path@ == self@.man_dir,
    {
        self.man_dir.as_str()
    }

    /// The directory for shell completions.
    pub fn completion_dir(&self) -> (path: &str)
        ensures
            path@ == self@.completion_dir,
    {
        self.completion_dir.as_str()
    }

    /// The directory for files of the given kind.
    pub fn path(&self, directory: DestinationDirectory) -> (path: &str)
        ensures
            path@ == self@.path(directory),
    {
        match directory {
            DestinationDirectory::BinDir => self.bin_dir.as_str(),
            DestinationDirectory::ManDir => self.man_dir.as_str(),
            DestinationDirectory::CompletionDir => self.completion_dir.as_str(),
        }
    }
}

/// The directories of this project itself.
#[derive(Debug, PartialEq, Eq)]
pub struct HomebinProjectDirs {
    /// The directory below which downloads are kept, one directory per manifest.
    pub download_dir: String,
}

impl HomebinProjectDirs {
    /// The directory below which downloads are kept.
    pub fn download_dir(&self) -> (path: &str)
        ensures
            path@ == self.download_dir@,
    {
        self.download_dir.as_str()
    }
}

/// The directories that the operations of one manifest work with: the
/// directories to install to, and a scratch directory of the manifest's own for
/// what is downloaded and extracted.
#[derive(Debug, PartialEq, Eq)]
pub struct ManifestOperationDirs {
    /// The directories to install to.
    pub install_dirs: InstallDirs,
    /// The scratch directory of the manifest.
    pub download_dir: String,
}

/// The mathematical value of [`ManifestOperationDirs`].
pub struct ManifestOperationDirsView {
    pub install_dirs: InstallDirsView,
    pub download_dir: Seq<char>,
}

impl View for ManifestOperationDirs {
    type V = ManifestOperationDirsView;

    open spec fn view(&self) -> ManifestOperationDirsView {
        ManifestOperationDirsView {
            install_dirs: self.install_dirs@,
            download_dir: self.download_dir@,
        }
    }
}

/// The directories for the operations of the manifest called `name`: its
/// scratch directory is the directory `name` below the download directory.
pub open spec fn for_manifest_spec(
    download_dir: Seq<char>,
    install_dirs: InstallDirsView,
    name: Seq<char>,
) -> ManifestOperationDirsView {
    ManifestOperationDirsView { install_dirs, download_dir: join_spec(download_dir, name) }
}

impl ManifestOperationDirs {
    /// The scratch directory of the manifest.
    pub fn download_dir(&self) -> (path: &str)
        ensures
            path@ == self@.download_dir,
    {
        self.download_dir.as_str()
    }

    /// The directories to install to.
    pub fn install_dirs(&self) -> (dirs: &InstallDirs)
        ensures
            dirs@ == self@.install_dirs,
    {
        &self.install_dirs
    }

    /// The directories for the operations of `manifest`.
    pub fn for_manifest(
        dirs: &HomebinProjectDirs,
        install_dirs: &InstallDirs,
        manifest: &Manifest,
    ) -> (operation_dirs: ManifestOperationDirs)
        ensures
            operation_dirs@ == for_manifest_spec(
                dirs.download_dir@,
                install_dirs@,
                manifest.info.name@,
            ),
    {
        ManifestOperationDirs {
            install_dirs: install_dirs.clone(),
            download_dir: join_path(dirs.download_dir.as_str(), manifest.info.name.as_str()),
        }
    }
}

} // verus!
