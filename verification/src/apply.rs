//! Applying operations to a directory tree.

use vstd::prelude::*;
use crate::artifacts::{extracted, extracted_spec, fetched, fetched_spec, Artifact};
use crate::checksum::{compare_digest_spec, sha256_digest};
use crate::dirs::{join_path, join_spec, InstallDirs, InstallDirsView, ManifestOperationDirs, ManifestOperationDirsView};
use crate::error::{result_view, HomebinError, HomebinErrorView};
use crate::files::{FileData, FileTree, Files};
use crate::operations::{
    operations_view, removals_view, removed_destination_spec, ApplyOperation, ApplyOperationView,
    Destination, DestinationView, RemoveOperation, RemoveOperationView,
};

verus! {

/// The path of a destination: its name in the directory of its kind.
pub open spec fn destination_path_spec(dirs: InstallDirsView, destination: DestinationView) -> Seq<
    char,
> {
    join_spec(dirs.path(destination.directory), destination.name)
}

/// The path of the file called `name` in the scratch directory.
pub open spec fn scratch_path_spec(dirs: ManifestOperationDirsView, name: Seq<char>) -> Seq<char> {
    join_spec(dirs.download_dir, name)
}

/// The files after the scratch file `source` was copied to `destination`, or
/// the error if there is no such scratch file. The copy takes the place of
/// whatever was at the destination.
pub open spec fn place_spec(
    dirs: ManifestOperationDirsView,
    source: Seq<char>,
    destination: DestinationView,
    executable: bool,
    files: Files,
) -> Result<Files, HomebinErrorView> {
    let from = scratch_path_spec(dirs, source);
    if files.dom().contains(from) {
        Ok(
            files.insert(
                destination_path_spec(dirs.install_dirs, destination),
                FileData { content: files[from].content, executable },
            ),
        )
    } else {
        Err(HomebinErrorView::IoError { path: from })
    }
}

/// The files after `operation` was applied to `files`, or the error that
/// kept it from being applied. An operation that fails changes no file.
pub open spec fn apply_operation_spec(
    operation: ApplyOperationView,
    dirs: ManifestOperationDirsView,
    artifacts: Seq<Artifact>,
    files: Files,
) -> Result<Files, HomebinErrorView> {
    match operation {
        ApplyOperationView::Download { url, checksum, target } => match fetched_spec(
            artifacts,
            url,
        ) {
            None => Err(HomebinErrorView::NetworkError { url }),
            Some(content) => match compare_digest_spec(checksum, sha256_digest(content)) {
                Err(mismatch) => Err(mismatch),
                Ok(_) => Ok(
                    files.insert(
                        scratch_path_spec(dirs, target),
                        FileData { content, executable: false },
                    ),
                ),
            },
        },
        ApplyOperationView::Extract { archive, member, target } => {
            let from = scratch_path_spec(dirs, archive);
            if !files.dom().contains(from) {
                Err(HomebinErrorView::IoError { path: from })
            } else {
                match extracted_spec(artifacts, files[from].content, member) {
                    None => Err(HomebinErrorView::IoError { path: join_spec(from, member) }),
                    Some(content) => Ok(
                        files.insert(
                            scratch_path_spec(dirs, target),
                            FileData { content, executable: false },
                        ),
                    ),
                }
            }
        },
        ApplyOperationView::PlaceExecutable { source, destination } => place_spec(
            dirs,
            source,
            destination,
            true,
            files,
        ),
        ApplyOperationView::PlaceFile { source, destination } => place_spec(
            dirs,
            source,
            destination,
            false,
            files,
        ),
    }
}

/// How applying a sequence of operations ended, and the files it left.
pub struct Applied {
    pub result: Result<(), HomebinErrorView>,
    pub files: Files,
}

/// What applying `operations` to `files` one after the other comes to. The
/// first operation that fails ends it; what the operations before it did
/// stays.
pub open spec fn apply_operations_spec(
    operations: Seq<ApplyOperationView>,
    dirs: ManifestOperationDirsView,
    artifacts: Seq<Artifact>,
    files: Files,
) -> Applied
    decreases operations.len(),
{
    if operations.len() == 0 {
        Applied { result: Ok(()), files }
    } else {
        match apply_operation_spec(operations[0], dirs, artifacts, files) {
            Err(e) => Applied { result: Err(e), files },
            Ok(next) => apply_operations_spec(operations.skip(1), dirs, artifacts, next),
        }
    }
}

/// The files after `operation` was applied: the file it deletes is gone. If
/// there was no such file, nothing has changed.
pub open spec fn remove_operation_spec(
    operation: RemoveOperationView,
    dirs: ManifestOperationDirsView,
    files: Files,
) -> Files {
    files.remove(destination_path_spec(dirs.install_dirs, removed_destination_spec(operation)))
}

/// The files after `operations` were applied one after the other.
pub open spec fn remove_operations_spec(
    operations: Seq<RemoveOperationView>,
    dirs: ManifestOperationDirsView,
    files: Files,
) -> Files
    decreases operations.len(),
{
    if operations.len() == 0 {
        files
    } else {
        remove_operations_spec(
            operations.skip(1),
            dirs,
            remove_operation_spec(operations[0], dirs, files),
        )
    }
}

/// The path of `destination` in `dirs`.
pub fn destination_path(dirs: &InstallDirs, destination: &Destination) -> (path: String)
    ensures
        path@ == destination_path_spec(dirs@, destination@),
{
    join_path(dirs.path(destination.directory()), destination.name())
}

fn place(
    dirs: &ManifestOperationDirs,
    source: &str,
    destination: &Destination,
    executable: bool,
    tree: &mut FileTree,
) -> (result: Result<(), HomebinError>)
    ensures
        match place_spec(dirs@, source@, destination@, executable, old(tree)@) {
            Ok(files) => result is Ok && final(tree)@ == files,
            Err(e) => final(tree)@ == old(tree)@ && result_view(result) == Err::<
                (),
                HomebinErrorView,
            >(e),
        },
{
    let from = join_path(dirs.download_dir.as_str(), source);
    let content = match tree.get(from.as_str()) {
        Some(file) => file.content.clone(),
        None => {
            return Err(HomebinError::IoError { path: from });
        },
    };
    tree.write(destination_path(&dirs.install_dirs, destination), content, executable);
    Ok(())
}

impl ApplyOperation {
    /// Applies this operation to `tree`.
    ///
    /// `dirs` holds the directories to work in, and `artifacts` what can be
    /// fetched and extracted. An operation that fails leaves `tree` as it was.
    pub fn apply_operation(
        &self,
        dirs: &ManifestOperationDirs,
        artifacts: &Vec<Artifact>,
        tree: &mut FileTree,
    ) -> (result: Result<(), HomebinError>)
        ensures
            match apply_operation_spec(self@, dirs@, artifacts@, old(tree)@) {
                Ok(files) => result is Ok && final(tree)@ == files,
                Err(e) => final(tree)@ == old(tree)@ && result_view(result) == Err::<
                    (),
                    HomebinErrorView,
                >(e),
            },
    {
        match self {
            ApplyOperation::Download { url, checksum, target } => {
                match fetched(artifacts, url.as_str()) {
                    None => Err(HomebinError::NetworkError { url: url.clone() }),
                    Some(content) => {
                        match checksum.validate(content.as_slice()) {
                            Err(mismatch) => Err(mismatch),
                            Ok(_) => {
                                tree.write(
                                    join_path(dirs.download_dir.as_str(), target.as_str()),
                                    content.clone(),
                                    false,
                                );
                                Ok(())
                            },
                        }
                    },
                }
            },
            ApplyOperation::Extract { archive, member, target } => {
                let from = join_path(dirs.download_dir.as_str(), archive.as_str());
                let content = match tree.get(from.as_str()) {
                    None => {
                        return Err(HomebinError::IoError { path: from });
                    },
                    Some(file) => match extracted(
                        artifacts,
                        file.content.as_slice(),
                        member.as_str(),
                    ) {
                        None => {
                            return Err(
                                HomebinError::IoError {
                                    path: join_path(from.as_str(), member.as_str()),
                                },
                            );
                        },
                        Some(content) => content.clone(),
                    },
                };
                tree.write(join_path(dirs.download_dir.as_str(), target.as_str()), content, false);
                Ok(())
            },
            ApplyOperation::PlaceExecutable { source, destination } => place(
                dirs,
                source.as_str(),
                destination,
                true,
                tree,
            ),
            ApplyOperation::PlaceFile { source, destination } => place(
                dirs,
                source.as_str(),
                destination,
                false,
                tree,
            ),
        }
    }
}

impl RemoveOperation {
    /// Applies this operation to `tree`: deletes its file. Where there is no
    /// such file, nothing happens, and that is no error.
    pub fn apply_operation(&self, dirs: &ManifestOperationDirs, tree: &mut FileTree) -> (result:
        Result<(), HomebinError>)
        ensures
            result is Ok,
            final(tree)@ == remove_operation_spec(self@, dirs@, old(tree)@),
    {
        match self {
            RemoveOperation::Delete(directory, name) => {
                let path = join_path(dirs.install_dirs.path(*directory), name.as_str());
                tree.remove(path.as_str());
                Ok(())
            },
        }
    }
}

/// Applies `operations` to `tree`, one after the other, and stops at the first
/// that fails. What the operations before it did is not undone.
pub fn apply_operations(
    operations: &Vec<ApplyOperation>,
    dirs: &ManifestOperationDirs,
    artifacts: &Vec<Artifact>,
    tree: &mut FileTree,
) -> (result: Result<(), HomebinError>)
    ensures
        apply_operations_spec(operations_view(operations@), dirs@, artifacts@, old(tree)@) == (
        Applied { result: result_view(result), files: final(tree)@ }),
{
    let ghost views = operations_view(operations@);
    let ghost whole = apply_operations_spec(views, dirs@, artifacts@, tree@);
    assert(views.skip(0) =~= views);
    let mut i: usize = 0;
    while i < operations.len()
        invariant
            i <= operations.len(),
            views == operations_view(operations@),
            whole == apply_operations_spec(views, dirs@, artifacts@, old(tree)@),
            whole == apply_operations_spec(views.skip(i as int), dirs@, artifacts@, tree@),
        decreases operations.len() - i,
    {
        assert(views.skip(i as int)[0] == operations@[i as int]@);
        assert(views.skip(i as int).skip(1) =~= views.skip(i as int + 1));
        match operations[i].apply_operation(dirs, artifacts, tree) {
            Ok(_) => {},
            Err(e) => {
                return Err(e);
            },
        }
        i += 1;
    }
    Ok(())
}

/// Applies `operations` to `tree`, one after the other. None of them fails.
pub fn remove_operations(
    operations: &Vec<RemoveOperation>,
    dirs: &ManifestOperationDirs,
    tree: &mut FileTree,
) -> (result: Result<(), HomebinError>)
    ensures
        result is Ok,
        final(tree)@ == remove_operations_spec(removals_view(operations@), dirs@, old(tree)@),
{
    let ghost views = removals_view(operations@);
    let ghost whole = remove_operations_spec(views, dirs@, tree@);
    assert(views.skip(0) =~= views);
    let mut i: usize = 0;
    while i < operations.len()
        invariant
            i <= operations.len(),
            views == removals_view(operations@),
            whole == remove_operations_spec(views, dirs@, old(tree)@),
            whole == remove_operations_spec(views.skip(i as int), dirs@, tree@),
        decreases operations.len() - i,
    {
        assert(views.skip(i as int)[0] == operations@[i as int]@);
        assert(views.skip(i as int).skip(1) =~= views.skip(i as int + 1));
        let _ = operations[i].apply_operation(dirs, tree);
        i += 1;
    }
    Ok(())
}

} // verus!
