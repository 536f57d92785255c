//! What holds of installing and removing, whatever the manifest.

use vstd::prelude::*;
use crate::apply::{
    apply_operation_spec, apply_operations_spec, destination_path_spec, remove_operation_spec,
    remove_operations_spec, scratch_path_spec, Applied,
};
use crate::artifacts::{extracted_spec, fetched_spec, Artifact};
use crate::checksum::sha256_digest;
use crate::error::HomebinErrorView;
use crate::dirs::{for_manifest_spec, join_spec, InstallDirsView, ManifestOperationDirsView};
use crate::files::{FileData, Files};
use crate::manifest::{Install, InstallDownload, InstallFile, Manifest, Target};
use crate::operations::{
    install_download_spec, install_downloads_spec, install_file_spec, install_files_spec,
    install_manifest_spec, operation_destination_spec, operation_destinations_spec,
    place_operation_spec, target_directory_spec,
    remove_download_spec, remove_downloads_spec, remove_files_spec, remove_manifest_spec,
    removed_destination_spec, ApplyOperationView, DestinationView, RemoveOperationView,
};
use crate::{
    destination_paths_spec, files_to_remove_spec, install_outcome_spec, installed_files_spec,
    remove_outcome_spec,
};

verus! {

/// The destinations that `operations` delete, in their order.
pub open spec fn removed_destinations_spec(operations: Seq<RemoveOperationView>) -> Seq<
    DestinationView,
> {
    operations.map_values(|operation: RemoveOperationView| removed_destination_spec(operation))
}

/// The destinations of operations that follow one another are the
/// destinations of the first, followed by those of the second.
pub proof fn lemma_destinations_of_concat(
    first: Seq<ApplyOperationView>,
    second: Seq<ApplyOperationView>,
)
    ensures
        operation_destinations_spec(first + second) == operation_destinations_spec(first)
            + operation_destinations_spec(second),
    decreases second.len(),
{
    if second.len() == 0 {
        assert(first + second =~= first);
        assert(operation_destinations_spec(first) + operation_destinations_spec(second)
            =~= operation_destinations_spec(first));
    } else {
        assert((first + second).drop_last() =~= first + second.drop_last());
        assert((first + second).last() == second.last());
        lemma_destinations_of_concat(first, second.drop_last());
        let before = operation_destinations_spec(first) + operation_destinations_spec(
            second.drop_last(),
        );
        match operation_destination_spec(second.last()) {
            Some(destination) => {
                assert(before.push(destination) =~= operation_destinations_spec(first)
                    + operation_destinations_spec(second.drop_last()).push(destination));
            },
            None => {},
        }
    }
}

proof fn lemma_destinations_of_file(archive: Seq<char>, file: InstallFile)
    ensures
        operation_destinations_spec(install_file_spec(archive, file)) == seq![
            DestinationView {
                directory: target_directory_spec(file.target),
                name: file.name@,
            },
        ],
{
    let operations = install_file_spec(archive, file);
    let extract = seq![operations[0]];
    assert(operations.drop_last() =~= extract);
    assert(extract.drop_last() =~= Seq::<ApplyOperationView>::empty());
    assert(operation_destinations_spec(extract.drop_last()) =~= seq![]);
    assert(operation_destinations_spec(extract) =~= seq![]);
    assert(operation_destinations_spec(operations) =~= seq![
        DestinationView {
            directory: target_directory_spec(file.target),
            name: file.name@,
        },
    ]);
}

proof fn lemma_destinations_of_files(archive: Seq<char>, files: Seq<InstallFile>)
    ensures
        operation_destinations_spec(install_files_spec(archive, files))
            == removed_destinations_spec(remove_files_spec(files)),
    decreases files.len(),
{
    if files.len() == 0 {
        assert(removed_destinations_spec(remove_files_spec(files)) =~= seq![]);
    } else {
        lemma_destinations_of_files(archive, files.drop_last());
        lemma_destinations_of_file(archive, files.last());
        lemma_destinations_of_concat(
            install_files_spec(archive, files.drop_last()),
            install_file_spec(archive, files.last()),
        );
        assert(removed_destinations_spec(remove_files_spec(files)) =~= removed_destinations_spec(
            remove_files_spec(files.drop_last()),
        ) + operation_destinations_spec(install_file_spec(archive, files.last())));
    }
}

proof fn lemma_destinations_of_download(download: InstallDownload)
    ensures
        operation_destinations_spec(install_download_spec(download)) == removed_destinations_spec(
            remove_download_spec(download),
        ),
{
    let operations = install_download_spec(download);
    let fetch = seq![operations[0]];
    assert(fetch.drop_last() =~= Seq::<ApplyOperationView>::empty());
    assert(operation_destinations_spec(fetch.drop_last()) =~= seq![]);
    assert(operation_destinations_spec(fetch) =~= seq![]);
    match download.install {
        Install::SingleFile { name, target } => {
            let place = seq![place_operation_spec(download.filename@, name@, target)];
            assert(operations =~= fetch + place);
            lemma_destinations_of_concat(fetch, place);
            assert(place.drop_last() =~= Seq::<ApplyOperationView>::empty());
            assert(operation_destinations_spec(place.drop_last()) =~= seq![]);
            assert(operation_destinations_spec(place) =~= removed_destinations_spec(
                remove_download_spec(download),
            ));
            assert(operation_destinations_spec(fetch) + operation_destinations_spec(place)
                =~= operation_destinations_spec(place));
        },
        Install::FilesFromArchive { files } => {
            let rest = install_files_spec(download.filename@, files@);
            assert(operations =~= fetch + rest);
            lemma_destinations_of_concat(fetch, rest);
            lemma_destinations_of_files(download.filename@, files@);
            assert(operation_destinations_spec(fetch) + operation_destinations_spec(rest)
                =~= operation_destinations_spec(rest));
        },
    }
}

proof fn lemma_destinations_of_downloads(downloads: Seq<InstallDownload>)
    ensures
        operation_destinations_spec(install_downloads_spec(downloads))
            == removed_destinations_spec(remove_downloads_spec(downloads)),
    decreases downloads.len(),
{
    if downloads.len() == 0 {
        assert(removed_destinations_spec(remove_downloads_spec(downloads)) =~= seq![]);
    } else {
        lemma_destinations_of_downloads(downloads.drop_last());
        lemma_destinations_of_download(downloads.last());
        lemma_destinations_of_concat(
            install_downloads_spec(downloads.drop_last()),
            install_download_spec(downloads.last()),
        );
        assert(removed_destinations_spec(remove_downloads_spec(downloads))
            =~= removed_destinations_spec(remove_downloads_spec(downloads.drop_last()))
            + removed_destinations_spec(remove_download_spec(downloads.last())));
    }
}

/// The operations that remove a manifest delete the destinations that the
/// operations that install it place files at, one for one and in the same
/// order, though the two are planned apart.
pub proof fn lemma_removal_deletes_what_is_placed(manifest: Manifest)
    ensures
        removed_destinations_spec(remove_manifest_spec(manifest)) == operation_destinations_spec(
            install_manifest_spec(manifest),
        ),
{
    lemma_destinations_of_downloads(manifest.install@);
}

/// The files to remove for a manifest are the files that installing it
/// places: the same paths, in the same order, and so the same set of paths.
pub proof fn lemma_files_to_remove_are_installed_files(dirs: InstallDirsView, manifest: Manifest)
    ensures
        files_to_remove_spec(dirs, manifest) == installed_files_spec(dirs, manifest),
        files_to_remove_spec(dirs, manifest).to_set() == installed_files_spec(
            dirs,
            manifest,
        ).to_set(),
{
    lemma_removal_deletes_what_is_placed(manifest);
    assert(files_to_remove_spec(dirs, manifest) =~= destination_paths_spec(
        dirs,
        removed_destinations_spec(remove_manifest_spec(manifest)),
    ));
}

/// The paths of the files that `operations` delete.
pub open spec fn removed_paths_spec(
    operations: Seq<RemoveOperationView>,
    dirs: ManifestOperationDirsView,
) -> Seq<Seq<char>> {
    operations.map_values(
        |operation: RemoveOperationView|
            destination_path_spec(dirs.install_dirs, removed_destination_spec(operation)),
    )
}

/// Applying remove operations takes away the files at their paths and
/// nothing else.
pub proof fn lemma_remove_operations(
    operations: Seq<RemoveOperationView>,
    dirs: ManifestOperationDirsView,
    files: Files,
)
    ensures
        remove_operations_spec(operations, dirs, files) == files.remove_keys(
            removed_paths_spec(operations, dirs).to_set(),
        ),
    decreases operations.len(),
{
    let paths = removed_paths_spec(operations, dirs);
    if operations.len() == 0 {
        assert(files.remove_keys(paths.to_set()) =~= files);
    } else {
        let rest = operations.skip(1);
        let after = remove_operation_spec(operations[0], dirs, files);
        lemma_remove_operations(rest, dirs, after);
        let rest_paths = removed_paths_spec(rest, dirs);
        assert(rest_paths =~= paths.skip(1));
        assert forall|path: Seq<char>| paths.to_set().contains(path) <==> (path == paths[0]
            || rest_paths.to_set().contains(path)) by {
            if paths.contains(path) {
                let i = choose|i: int| 0 <= i < paths.len() && paths[i] == path;
                if i > 0 {
                    assert(rest_paths[i - 1] == path);
                }
            }
            if rest_paths.contains(path) {
                let i = choose|i: int| 0 <= i < rest_paths.len() && rest_paths[i] == path;
                assert(paths[i + 1] == path);
            }
            assert(paths[0] == paths[0]);
        }
        assert(after.remove_keys(rest_paths.to_set()) =~= files.remove_keys(paths.to_set()));
    }
}

/// Removing a manifest takes away the files that installing it places, and
/// no other file: whatever the files were before, and so also after the
/// manifest was installed, in part or never. None of the installed files is
/// left. Where none of them was there, as for a manifest that was never
/// installed, removing changes nothing.
pub proof fn lemma_remove_leaves_no_installed_file(
    download_dir: Seq<char>,
    install_dirs: InstallDirsView,
    manifest: Manifest,
    files: Files,
)
    ensures
        remove_outcome_spec(download_dir, install_dirs, manifest, files) == files.remove_keys(
            installed_files_spec(install_dirs, manifest).to_set(),
        ),
        forall|path: Seq<char>|
            installed_files_spec(install_dirs, manifest).contains(path) ==> !remove_outcome_spec(
                download_dir,
                install_dirs,
                manifest,
                files,
            ).dom().contains(path),
        (forall|path: Seq<char>|
            installed_files_spec(install_dirs, manifest).contains(path) ==> !files.dom().contains(
                path,
            )) ==> remove_outcome_spec(download_dir, install_dirs, manifest, files) == files,
{
    let dirs = for_manifest_spec(download_dir, install_dirs, manifest.info.name@);
    lemma_remove_operations(remove_manifest_spec(manifest), dirs, files);
    lemma_files_to_remove_are_installed_files(install_dirs, manifest);
    assert(removed_paths_spec(remove_manifest_spec(manifest), dirs) =~= files_to_remove_spec(
        install_dirs,
        manifest,
    ));
    let installed = installed_files_spec(install_dirs, manifest);
    if forall|path: Seq<char>| installed.contains(path) ==> !files.dom().contains(path) {
        assert(files.remove_keys(installed.to_set()) =~= files);
    }
}

/// Install, then remove: whatever installing a manifest came to, removing
/// the manifest afterwards leaves none of its installed files behind.
pub proof fn lemma_install_then_remove_leaves_nothing(
    download_dir: Seq<char>,
    install_dirs: InstallDirsView,
    manifest: Manifest,
    artifacts: Seq<Artifact>,
    files: Files,
)
    ensures
        forall|path: Seq<char>|
            installed_files_spec(install_dirs, manifest).contains(path) ==> !remove_outcome_spec(
                download_dir,
                install_dirs,
                manifest,
                install_outcome_spec(download_dir, install_dirs, manifest, artifacts, files).files,
            ).dom().contains(path),
{
    lemma_remove_leaves_no_installed_file(
        download_dir,
        install_dirs,
        manifest,
        install_outcome_spec(download_dir, install_dirs, manifest, artifacts, files).files,
    );
}

/// Applying operations that follow one another is applying the first, and
/// then, if none of them failed, the second to what the first left.
pub proof fn lemma_apply_concat(
    first: Seq<ApplyOperationView>,
    second: Seq<ApplyOperationView>,
    dirs: ManifestOperationDirsView,
    artifacts: Seq<Artifact>,
    files: Files,
)
    ensures
        apply_operations_spec(first + second, dirs, artifacts, files) == (match apply_operations_spec(
            first,
            dirs,
            artifacts,
            files,
        ).result {
            Ok(_) => apply_operations_spec(
                second,
                dirs,
                artifacts,
                apply_operations_spec(first, dirs, artifacts, files).files,
            ),
            Err(_) => apply_operations_spec(first, dirs, artifacts, files),
        }),
    decreases first.len(),
{
    if first.len() == 0 {
        assert(first + second =~= second);
    } else {
        assert((first + second)[0] == first[0]);
        assert((first + second).skip(1) =~= first.skip(1) + second);
        match apply_operation_spec(first[0], dirs, artifacts, files) {
            Ok(next) => {
                lemma_apply_concat(first.skip(1), second, dirs, artifacts, next);
            },
            Err(_) => {},
        }
    }
}

/// The operations that install downloads that follow one another are those
/// of the first downloads, followed by those of the second.
pub proof fn lemma_install_downloads_concat(
    first: Seq<InstallDownload>,
    second: Seq<InstallDownload>,
)
    ensures
        install_downloads_spec(first + second) == install_downloads_spec(first)
            + install_downloads_spec(second),
    decreases second.len(),
{
    if second.len() == 0 {
        assert(first + second =~= first);
        assert(install_downloads_spec(first) + install_downloads_spec(second)
            =~= install_downloads_spec(first));
    } else {
        assert((first + second).drop_last() =~= first + second.drop_last());
        assert((first + second).last() == second.last());
        lemma_install_downloads_concat(first, second.drop_last());
        assert(install_downloads_spec(first + second) =~= install_downloads_spec(first) + (
        install_downloads_spec(second.drop_last()) + install_download_spec(second.last())));
    }
}

/// What installing the first `count` downloads of `manifest` comes to.
pub open spec fn install_prefix_spec(
    download_dir: Seq<char>,
    install_dirs: InstallDirsView,
    manifest: Manifest,
    artifacts: Seq<Artifact>,
    files: Files,
    count: int,
) -> Applied {
    apply_operations_spec(
        install_downloads_spec(manifest.install@.take(count)),
        for_manifest_spec(download_dir, install_dirs, manifest.info.name@),
        artifacts,
        files,
    )
}

/// Checksums are enforced. Where what is fetched for the download `index` of
/// a manifest does not have the declared digest, installing the manifest
/// fails, and leaves the files as installing the downloads before `index`
/// alone leaves them: nothing of that download is kept or placed, and nothing
/// of a later one. With the first download at fault no file is touched. If
/// the downloads before it went well, the error is the mismatch.
pub proof fn lemma_checksum_mismatch_ends_install(
    download_dir: Seq<char>,
    install_dirs: InstallDirsView,
    manifest: Manifest,
    artifacts: Seq<Artifact>,
    files: Files,
    index: int,
)
    requires
        0 <= index < manifest.install@.len(),
        fetched_spec(artifacts, manifest.install@[index].download@) is Some,
        sha256_digest(fetched_spec(artifacts, manifest.install@[index].download@).unwrap())
            != manifest.install@[index].checksum@,
    ensures
        install_outcome_spec(download_dir, install_dirs, manifest, artifacts, files).result is Err,
        install_outcome_spec(download_dir, install_dirs, manifest, artifacts, files).files
            == install_prefix_spec(
            download_dir,
            install_dirs,
            manifest,
            artifacts,
            files,
            index,
        ).files,
        index == 0 ==> install_outcome_spec(
            download_dir,
            install_dirs,
            manifest,
            artifacts,
            files,
        ).files == files,
        install_prefix_spec(download_dir, install_dirs, manifest, artifacts, files, index).result
            is Ok ==> install_outcome_spec(
            download_dir,
            install_dirs,
            manifest,
            artifacts,
            files,
        ).result == Err::<(), HomebinErrorView>(
            HomebinErrorView::ChecksumMismatch {
                expected: manifest.install@[index].checksum@,
                actual: sha256_digest(
                    fetched_spec(artifacts, manifest.install@[index].download@).unwrap(),
                ),
            },
        ),
{
    let downloads = manifest.install@;
    let dirs = for_manifest_spec(download_dir, install_dirs, manifest.info.name@);
    let before = install_downloads_spec(downloads.take(index));
    let at_fault = install_download_spec(downloads[index]);
    let after = install_downloads_spec(downloads.skip(index + 1));
    let upto = downloads.take(index + 1);
    assert(downloads =~= upto + downloads.skip(index + 1));
    lemma_install_downloads_concat(upto, downloads.skip(index + 1));
    assert(upto.drop_last() =~= downloads.take(index));
    assert(upto.last() == downloads[index]);
    assert(install_manifest_spec(manifest) =~= before + (at_fault + after));
    lemma_apply_concat(before, at_fault + after, dirs, artifacts, files);
    let prefix = apply_operations_spec(before, dirs, artifacts, files);
    assert((at_fault + after)[0] == at_fault[0]);
    assert(apply_operation_spec(at_fault[0], dirs, artifacts, prefix.files) is Err);
    if index == 0 {
        assert(before =~= Seq::<ApplyOperationView>::empty());
    }
}

/// The path of the scratch file that an operation reads, if it reads one.
pub open spec fn operation_source_spec(
    operation: ApplyOperationView,
    dirs: ManifestOperationDirsView,
) -> Option<Seq<char>> {
    match operation {
        ApplyOperationView::Download { .. } => None,
        ApplyOperationView::Extract { archive, .. } => Some(scratch_path_spec(dirs, archive)),
        ApplyOperationView::PlaceExecutable { source, .. } => Some(scratch_path_spec(dirs, source)),
        ApplyOperationView::PlaceFile { source, .. } => Some(scratch_path_spec(dirs, source)),
    }
}

/// The path of the file that an operation writes.
pub open spec fn operation_target_spec(
    operation: ApplyOperationView,
    dirs: ManifestOperationDirsView,
) -> Seq<char> {
    match operation {
        ApplyOperationView::Download { target, .. } => scratch_path_spec(dirs, target),
        ApplyOperationView::Extract { target, .. } => scratch_path_spec(dirs, target),
        ApplyOperationView::PlaceExecutable { destination, .. } => destination_path_spec(
            dirs.install_dirs,
            destination,
        ),
        ApplyOperationView::PlaceFile { destination, .. } => destination_path_spec(
            dirs.install_dirs,
            destination,
        ),
    }
}

/// The paths of the files that `operations` write.
pub open spec fn operation_targets_spec(
    operations: Seq<ApplyOperationView>,
    dirs: ManifestOperationDirsView,
) -> Set<Seq<char>>
    decreases operations.len(),
{
    if operations.len() == 0 {
        Set::empty()
    } else {
        operation_targets_spec(operations.skip(1), dirs).insert(
            operation_target_spec(operations[0], dirs),
        )
    }
}

/// Whether every operation of `operations` reads a file that is among
/// `supplied` or that an operation before it writes.
pub open spec fn reads_what_was_written_spec(
    operations: Seq<ApplyOperationView>,
    dirs: ManifestOperationDirsView,
    supplied: Set<Seq<char>>,
) -> bool
    decreases operations.len(),
{
    if operations.len() == 0 {
        true
    } else {
        &&& operation_source_spec(operations[0], dirs) matches Some(source) ==> supplied.contains(
            source,
        )
        &&& reads_what_was_written_spec(
            operations.skip(1),
            dirs,
            supplied.insert(operation_target_spec(operations[0], dirs)),
        )
    }
}

proof fn lemma_reads_concat(
    first: Seq<ApplyOperationView>,
    second: Seq<ApplyOperationView>,
    dirs: ManifestOperationDirsView,
    supplied: Set<Seq<char>>,
)
    requires
        reads_what_was_written_spec(first, dirs, supplied),
        reads_what_was_written_spec(
            second,
            dirs,
            supplied.union(operation_targets_spec(first, dirs)),
        ),
    ensures
        reads_what_was_written_spec(first + second, dirs, supplied),
    decreases first.len(),
{
    if first.len() == 0 {
        assert(first + second =~= second);
        assert(supplied.union(operation_targets_spec(first, dirs)) =~= supplied);
    } else {
        let target = operation_target_spec(first[0], dirs);
        assert((first + second)[0] == first[0]);
        assert((first + second).skip(1) =~= first.skip(1) + second);
        assert(supplied.insert(target).union(operation_targets_spec(first.skip(1), dirs))
            =~= supplied.union(operation_targets_spec(first, dirs)));
        lemma_reads_concat(first.skip(1), second, dirs, supplied.insert(target));
    }
}

proof fn lemma_file_reads(
    archive: Seq<char>,
    file: InstallFile,
    dirs: ManifestOperationDirsView,
    supplied: Set<Seq<char>>,
)
    requires
        supplied.contains(scratch_path_spec(dirs, archive)),
    ensures
        reads_what_was_written_spec(install_file_spec(archive, file), dirs, supplied),
{
    let operations = install_file_spec(archive, file);
    let after = supplied.insert(operation_target_spec(operations[0], dirs));
    assert(operations.skip(1)[0] == operations[1]);
    assert(operations.skip(1).skip(1) =~= Seq::<ApplyOperationView>::empty());
    assert(reads_what_was_written_spec(
        operations.skip(1).skip(1),
        dirs,
        after.insert(operation_target_spec(operations[1], dirs)),
    ));
    assert(operation_source_spec(operations[1], dirs) == Some(
        scratch_path_spec(dirs, file.source@),
    ));
    assert(reads_what_was_written_spec(operations.skip(1), dirs, after));
}

proof fn lemma_files_read(
    archive: Seq<char>,
    files: Seq<InstallFile>,
    dirs: ManifestOperationDirsView,
    supplied: Set<Seq<char>>,
)
    requires
        supplied.contains(scratch_path_spec(dirs, archive)),
    ensures
        reads_what_was_written_spec(install_files_spec(archive, files), dirs, supplied),
    decreases files.len(),
{
    if files.len() > 0 {
        let before = install_files_spec(archive, files.drop_last());
        lemma_files_read(archive, files.drop_last(), dirs, supplied);
        lemma_file_reads(
            archive,
            files.last(),
            dirs,
            supplied.union(operation_targets_spec(before, dirs)),
        );
        lemma_reads_concat(before, install_file_spec(archive, files.last()), dirs, supplied);
    }
}

proof fn lemma_download_reads(
    download: InstallDownload,
    dirs: ManifestOperationDirsView,
    supplied: Set<Seq<char>>,
)
    ensures
        reads_what_was_written_spec(install_download_spec(download), dirs, supplied),
{
    let operations = install_download_spec(download);
    let kept = scratch_path_spec(dirs, download.filename@);
    assert(operation_target_spec(operations[0], dirs) == kept);
    match download.install {
        Install::SingleFile { name, target } => {
            let place = operations.skip(1);
            assert(place =~= seq![place_operation_spec(download.filename@, name@, target)]);
            assert(operation_source_spec(place[0], dirs) == Some(kept));
            assert(place.skip(1) =~= Seq::<ApplyOperationView>::empty());
            assert(reads_what_was_written_spec(
                place.skip(1),
                dirs,
                supplied.insert(kept).insert(operation_target_spec(place[0], dirs)),
            ));
            assert(reads_what_was_written_spec(place, dirs, supplied.insert(kept)));
        },
        Install::FilesFromArchive { files } => {
            assert(operations.skip(1) =~= install_files_spec(download.filename@, files@));
            lemma_files_read(download.filename@, files@, dirs, supplied.insert(kept));
        },
    }
}

proof fn lemma_downloads_read(
    downloads: Seq<InstallDownload>,
    dirs: ManifestOperationDirsView,
    supplied: Set<Seq<char>>,
)
    ensures
        reads_what_was_written_spec(install_downloads_spec(downloads), dirs, supplied),
    decreases downloads.len(),
{
    if downloads.len() > 0 {
        let before = install_downloads_spec(downloads.drop_last());
        lemma_downloads_read(downloads.drop_last(), dirs, supplied);
        lemma_download_reads(
            downloads.last(),
            dirs,
            supplied.union(operation_targets_spec(before, dirs)),
        );
        lemma_reads_concat(before, install_download_spec(downloads.last()), dirs, supplied);
    }
}

/// The operations that install a manifest are in an order in which they can
/// be applied: each one that reads a scratch file comes after one that
/// writes that file. So a download precedes what extracts from it and what
/// places it, and an extraction precedes what places its member.
pub proof fn lemma_plan_reads_what_it_wrote(manifest: Manifest, dirs: ManifestOperationDirsView)
    ensures
        reads_what_was_written_spec(install_manifest_spec(manifest), dirs, Set::empty()),
{
    lemma_downloads_read(manifest.install@, dirs, Set::empty());
}

/// Whether two directory trees are the same at `path`: either both lack a
/// file there, or both have the same file there.
pub open spec fn same_at_spec(first: Files, second: Files, path: Seq<char>) -> bool {
    &&& first.dom().contains(path) == second.dom().contains(path)
    &&& first.dom().contains(path) ==> first[path] == second[path]
}

/// An operation does the same to two directory trees that are the same where
/// it reads: it fails on both with the same error, or writes the same file
/// to both.
pub proof fn lemma_operation_applies_alike(
    operation: ApplyOperationView,
    dirs: ManifestOperationDirsView,
    artifacts: Seq<Artifact>,
    first: Files,
    second: Files,
)
    requires
        operation_source_spec(operation, dirs) matches Some(source) ==> same_at_spec(
            first,
            second,
            source,
        ),
    ensures
        match apply_operation_spec(operation, dirs, artifacts, first) {
            Ok(after) => {
                let target = operation_target_spec(operation, dirs);
                &&& after == first.insert(target, after[target])
                &&& apply_operation_spec(operation, dirs, artifacts, second) == Ok::<
                    Files,
                    HomebinErrorView,
                >(second.insert(target, after[target]))
            },
            Err(e) => apply_operation_spec(operation, dirs, artifacts, second) == Err::<
                Files,
                HomebinErrorView,
            >(e),
        },
{
    match apply_operation_spec(operation, dirs, artifacts, first) {
        Ok(after) => {
            let target = operation_target_spec(operation, dirs);
            assert(after =~= first.insert(target, after[target]));
        },
        Err(_) => {},
    }
}

/// Applying operations that read only what is supplied, or what they wrote
/// before, comes to the same on two directory trees that are the same at
/// what is supplied. There is a set of paths, those written, such that both
/// runs end alike, leave the same files at the paths written and supplied,
/// and leave every other path as they found it.
pub proof fn lemma_operations_apply_alike(
    operations: Seq<ApplyOperationView>,
    dirs: ManifestOperationDirsView,
    artifacts: Seq<Artifact>,
    first: Files,
    second: Files,
    supplied: Set<Seq<char>>,
) -> (written: Set<Seq<char>>)
    requires
        reads_what_was_written_spec(operations, dirs, supplied),
        forall|path: Seq<char>| supplied.contains(path) ==> same_at_spec(first, second, path),
    ensures
        apply_operations_spec(operations, dirs, artifacts, first).result == apply_operations_spec(
            operations,
            dirs,
            artifacts,
            second,
        ).result,
        forall|path: Seq<char>|
            supplied.contains(path) || written.contains(path) ==> same_at_spec(
                apply_operations_spec(operations, dirs, artifacts, first).files,
                apply_operations_spec(operations, dirs, artifacts, second).files,
                path,
            ),
        forall|path: Seq<char>|
            !written.contains(path) ==> same_at_spec(
                apply_operations_spec(operations, dirs, artifacts, first).files,
                first,
                path,
            ) && same_at_spec(
                apply_operations_spec(operations, dirs, artifacts, second).files,
                second,
                path,
            ),
    decreases operations.len(),
{
    if operations.len() == 0 {
        Set::empty()
    } else {
        lemma_operation_applies_alike(operations[0], dirs, artifacts, first, second);
        match apply_operation_spec(operations[0], dirs, artifacts, first) {
            Err(_) => Set::empty(),
            Ok(first_after) => {
                let target = operation_target_spec(operations[0], dirs);
                let second_after = second.insert(target, first_after[target]);
                let rest = lemma_operations_apply_alike(
                    operations.skip(1),
                    dirs,
                    artifacts,
                    first_after,
                    second_after,
                    supplied.insert(target),
                );
                let written = rest.insert(target);
                let first_end = apply_operations_spec(operations, dirs, artifacts, first).files;
                let second_end = apply_operations_spec(operations, dirs, artifacts, second).files;
                assert forall|path: Seq<char>|
                    supplied.contains(path) || written.contains(path) implies same_at_spec(
                    first_end,
                    second_end,
                    path,
                ) by {
                    assert(supplied.insert(target).contains(path) || rest.contains(path));
                }
                assert forall|path: Seq<char>| !written.contains(path) implies same_at_spec(
                    first_end,
                    first,
                    path,
                ) && same_at_spec(second_end, second, path) by {
                    assert(!rest.contains(path));
                    assert(same_at_spec(first_end, first_after, path));
                    assert(same_at_spec(second_end, second_after, path));
                }
                written
            },
        }
    }
}

/// Installing is idempotent. Installing a manifest again, right after it was
/// installed and with the same artifacts to fetch, ends as the first time,
/// and leaves every file as the first time left it: the same files at the
/// same paths with the same contents.
pub proof fn lemma_install_is_idempotent(
    download_dir: Seq<char>,
    install_dirs: InstallDirsView,
    manifest: Manifest,
    artifacts: Seq<Artifact>,
    files: Files,
)
    ensures
        install_outcome_spec(
            download_dir,
            install_dirs,
            manifest,
            artifacts,
            install_outcome_spec(download_dir, install_dirs, manifest, artifacts, files).files,
        ) == install_outcome_spec(download_dir, install_dirs, manifest, artifacts, files),
{
    let dirs = for_manifest_spec(download_dir, install_dirs, manifest.info.name@);
    let operations = install_manifest_spec(manifest);
    let once = apply_operations_spec(operations, dirs, artifacts, files);
    let twice = apply_operations_spec(operations, dirs, artifacts, once.files);
    lemma_plan_reads_what_it_wrote(manifest, dirs);
    let written = lemma_operations_apply_alike(
        operations,
        dirs,
        artifacts,
        files,
        once.files,
        Set::empty(),
    );
    assert forall|path: Seq<char>|
        #![trigger twice.files.dom().contains(path)]
        #![trigger once.files.dom().contains(path)]
        twice.files.dom().contains(path) == once.files.dom().contains(path) && (
        twice.files.dom().contains(path) ==> twice.files[path] == once.files[path]) by {
        if written.contains(path) {
            assert(same_at_spec(once.files, twice.files, path));
        } else {
            assert(same_at_spec(twice.files, once.files, path));
        }
    }
    assert(twice.files =~= once.files);
}

/// Every operation writes to one of the targets of the operations it is among.
pub proof fn lemma_target_is_among_targets(
    operations: Seq<ApplyOperationView>,
    dirs: ManifestOperationDirsView,
    index: int,
)
    requires
        0 <= index < operations.len(),
    ensures
        operation_targets_spec(operations, dirs).contains(
            operation_target_spec(operations[index], dirs),
        ),
    decreases operations.len(),
{
    if index > 0 {
        lemma_target_is_among_targets(operations.skip(1), dirs, index - 1);
    }
}

/// Applying operations leaves a file that none of them writes as it was,
/// and takes no file away. If none of them fails, there is a file at every
/// path that one of them writes.
pub proof fn lemma_operations_write_their_targets(
    operations: Seq<ApplyOperationView>,
    dirs: ManifestOperationDirsView,
    artifacts: Seq<Artifact>,
    files: Files,
    path: Seq<char>,
)
    ensures
        !operation_targets_spec(operations, dirs).contains(path) ==> same_at_spec(
            apply_operations_spec(operations, dirs, artifacts, files).files,
            files,
            path,
        ),
        files.dom().contains(path) ==> apply_operations_spec(
            operations,
            dirs,
            artifacts,
            files,
        ).files.dom().contains(path),
        apply_operations_spec(operations, dirs, artifacts, files).result is Ok
            && operation_targets_spec(operations, dirs).contains(path) ==> apply_operations_spec(
            operations,
            dirs,
            artifacts,
            files,
        ).files.dom().contains(path),
    decreases operations.len(),
{
    if operations.len() > 0 {
        match apply_operation_spec(operations[0], dirs, artifacts, files) {
            Ok(next) => {
                let target = operation_target_spec(operations[0], dirs);
                assert(next =~= files.insert(target, next[target]));
                lemma_operations_write_their_targets(
                    operations.skip(1),
                    dirs,
                    artifacts,
                    next,
                    path,
                );
            },
            Err(_) => {},
        }
    }
}

proof fn lemma_target_index(
    operations: Seq<ApplyOperationView>,
    dirs: ManifestOperationDirsView,
    path: Seq<char>,
) -> (index: int)
    requires
        operation_targets_spec(operations, dirs).contains(path),
    ensures
        0 <= index < operations.len(),
        operation_target_spec(operations[index], dirs) == path,
    decreases operations.len(),
{
    if operation_target_spec(operations[0], dirs) == path {
        0
    } else {
        lemma_target_index(operations.skip(1), dirs, path) + 1
    }
}

proof fn lemma_destinations_are_targets(
    operations: Seq<ApplyOperationView>,
    dirs: ManifestOperationDirsView,
    path: Seq<char>,
)
    requires
        destination_paths_spec(
            dirs.install_dirs,
            operation_destinations_spec(operations),
        ).contains(path),
    ensures
        operation_targets_spec(operations, dirs).contains(path),
    decreases operations.len(),
{
    let paths = destination_paths_spec(dirs.install_dirs, operation_destinations_spec(operations));
    let i = choose|i: int| 0 <= i < paths.len() && paths[i] == path;
    let before = operations.drop_last();
    let before_paths = destination_paths_spec(
        dirs.install_dirs,
        operation_destinations_spec(before),
    );
    if i < before_paths.len() {
        assert(before_paths[i] == path);
        lemma_destinations_are_targets(before, dirs, path);
        let j = lemma_target_index(before, dirs, path);
        assert(operations[j] == before[j]);
        lemma_target_is_among_targets(operations, dirs, j);
    } else {
        lemma_target_is_among_targets(operations, dirs, operations.len() - 1);
    }
}

/// Installing a manifest leaves every file alone that lies neither at one of
/// its destinations nor at a target in its scratch directory, and takes no
/// file away. If it does not fail, each of the installed files is there.
pub proof fn lemma_install_places_its_files(
    download_dir: Seq<char>,
    install_dirs: InstallDirsView,
    manifest: Manifest,
    artifacts: Seq<Artifact>,
    files: Files,
    path: Seq<char>,
)
    ensures
        !operation_targets_spec(
            install_manifest_spec(manifest),
            for_manifest_spec(download_dir, install_dirs, manifest.info.name@),
        ).contains(path) ==> same_at_spec(
            install_outcome_spec(download_dir, install_dirs, manifest, artifacts, files).files,
            files,
            path,
        ),
        files.dom().contains(path) ==> install_outcome_spec(
            download_dir,
            install_dirs,
            manifest,
            artifacts,
            files,
        ).files.dom().contains(path),
        install_outcome_spec(download_dir, install_dirs, manifest, artifacts, files).result is Ok
            && installed_files_spec(install_dirs, manifest).contains(path)
            ==> install_outcome_spec(
            download_dir,
            install_dirs,
            manifest,
            artifacts,
            files,
        ).files.dom().contains(path),
{
    let dirs = for_manifest_spec(download_dir, install_dirs, manifest.info.name@);
    lemma_operations_write_their_targets(
        install_manifest_spec(manifest),
        dirs,
        artifacts,
        files,
        path,
    );
    if installed_files_spec(install_dirs, manifest).contains(path) {
        lemma_destinations_are_targets(install_manifest_spec(manifest), dirs, path);
    }
}

/// Manifests of different names work in different scratch directories, as
/// long as neither name starts at the root.
pub proof fn lemma_scratch_directories_differ(
    download_dir: Seq<char>,
    install_dirs: InstallDirsView,
    first: Seq<char>,
    second: Seq<char>,
)
    requires
        first != second,
        first.len() == 0 || first[0] != '/',
        second.len() == 0 || second[0] != '/',
    ensures
        for_manifest_spec(download_dir, install_dirs, first).download_dir != for_manifest_spec(
            download_dir,
            install_dirs,
            second,
        ).download_dir,
{
    let prefix = if download_dir.len() == 0 || download_dir.last() == '/' {
        download_dir
    } else {
        download_dir + seq!['/']
    };
    assert(join_spec(download_dir, first) =~= prefix + first);
    assert(join_spec(download_dir, second) =~= prefix + second);
    if prefix + first == prefix + second {
        assert((prefix + first).skip(prefix.len() as int) =~= first);
        assert((prefix + second).skip(prefix.len() as int) =~= second);
    }
}

/// The name of the scratch file that an operation writes, if it writes one.
pub open spec fn operation_scratch_name_spec(operation: ApplyOperationView) -> Option<Seq<char>> {
    match operation {
        ApplyOperationView::Download { target, .. } => Some(target),
        ApplyOperationView::Extract { target, .. } => Some(target),
        _ => None,
    }
}

/// The names of the scratch files that the files of an archive are extracted
/// to: their paths within the archive.
pub open spec fn archive_scratch_names_spec(files: Seq<InstallFile>) -> Set<Seq<char>> {
    Set::new(
        |name: Seq<char>|
            exists|k: int| 0 <= k < files.len() && (#[trigger] files[k]).source@ == name,
    )
}

/// The names of the scratch files of a download: the name it is kept under,
/// and those of the members that are extracted from it.
pub open spec fn download_scratch_names_spec(download: InstallDownload) -> Set<Seq<char>> {
    match download.install {
        Install::SingleFile { .. } => set![download.filename@],
        Install::FilesFromArchive { files } => archive_scratch_names_spec(files@).insert(
            download.filename@,
        ),
    }
}

/// The names of the scratch files of `downloads`.
pub open spec fn downloads_scratch_names_spec(downloads: Seq<InstallDownload>) -> Set<Seq<char>> {
    Set::new(
        |name: Seq<char>|
            exists|i: int|
                0 <= i < downloads.len() && download_scratch_names_spec(
                    #[trigger] downloads[i],
                ).contains(name),
    )
}

/// The names of the scratch files of a manifest.
pub open spec fn scratch_names_spec(manifest: Manifest) -> Set<Seq<char>> {
    downloads_scratch_names_spec(manifest.install@)
}

proof fn lemma_files_scratch_names(archive: Seq<char>, files: Seq<InstallFile>, index: int)
    requires
        0 <= index < install_files_spec(archive, files).len(),
    ensures
        operation_scratch_name_spec(install_files_spec(archive, files)[index]) matches Some(name)
            ==> archive_scratch_names_spec(files).contains(name),
    decreases files.len(),
{
    if files.len() > 0 {
        let before = install_files_spec(archive, files.drop_last());
        if index < before.len() {
            lemma_files_scratch_names(archive, files.drop_last(), index);
            match operation_scratch_name_spec(before[index]) {
                Some(name) => {
                    let k = choose|k: int|
                        0 <= k < files.drop_last().len() && (
                        #[trigger] files.drop_last()[k]).source@ == name;
                    assert(files[k].source@ == name);
                },
                None => {},
            }
        } else {
            assert(files[files.len() - 1].source@ == files.last().source@);
        }
    }
}

proof fn lemma_download_scratch_names(download: InstallDownload, index: int)
    requires
        0 <= index < install_download_spec(download).len(),
    ensures
        operation_scratch_name_spec(install_download_spec(download)[index]) matches Some(name)
            ==> download_scratch_names_spec(download).contains(name),
{
    if index > 0 {
        match download.install {
            Install::SingleFile { .. } => {},
            Install::FilesFromArchive { files } => {
                lemma_files_scratch_names(download.filename@, files@, index - 1);
            },
        }
    }
}

proof fn lemma_downloads_scratch_names(downloads: Seq<InstallDownload>, index: int)
    requires
        0 <= index < install_downloads_spec(downloads).len(),
    ensures
        operation_scratch_name_spec(install_downloads_spec(downloads)[index]) matches Some(name)
            ==> downloads_scratch_names_spec(downloads).contains(name),
    decreases downloads.len(),
{
    if downloads.len() > 0 {
        let before = install_downloads_spec(downloads.drop_last());
        if index < before.len() {
            lemma_downloads_scratch_names(downloads.drop_last(), index);
            match operation_scratch_name_spec(before[index]) {
                Some(name) => {
                    let i = choose|i: int|
                        0 <= i < downloads.drop_last().len() && download_scratch_names_spec(
                            #[trigger] downloads.drop_last()[i],
                        ).contains(name);
                    assert(download_scratch_names_spec(downloads[i]).contains(name));
                },
                None => {},
            }
        } else {
            lemma_download_scratch_names(downloads.last(), index - before.len());
            match operation_scratch_name_spec(install_downloads_spec(downloads)[index]) {
                Some(name) => {
                    assert(download_scratch_names_spec(downloads[downloads.len() - 1]).contains(
                        name,
                    ));
                },
                None => {},
            }
        }
    }
}

proof fn lemma_destination_is_among_destinations(
    operations: Seq<ApplyOperationView>,
    dirs: InstallDirsView,
    index: int,
)
    requires
        0 <= index < operations.len(),
        operation_destination_spec(operations[index]) is Some,
    ensures
        destination_paths_spec(dirs, operation_destinations_spec(operations)).contains(
            destination_path_spec(dirs, operation_destination_spec(operations[index]).unwrap()),
        ),
    decreases operations.len(),
{
    let path = destination_path_spec(dirs, operation_destination_spec(operations[index]).unwrap());
    let paths = destination_paths_spec(dirs, operation_destinations_spec(operations));
    let before = operations.drop_last();
    let before_paths = destination_paths_spec(dirs, operation_destinations_spec(before));
    if index == operations.len() - 1 {
        assert(paths[paths.len() - 1] == path);
    } else {
        lemma_destination_is_among_destinations(before, dirs, index);
        let i = choose|i: int| 0 <= i < before_paths.len() && before_paths[i] == path;
        assert(paths[i] == path);
    }
}

/// A name that does not start at the root lies below the directory it is
/// joined to: the path begins with the directory.
pub proof fn lemma_joined_path_is_below(directory: Seq<char>, name: Seq<char>)
    requires
        name.len() == 0 || name[0] != '/',
    ensures
        directory.is_prefix_of(join_spec(directory, name)),
{
    assert(join_spec(directory, name).subrange(0, directory.len() as int) =~= directory);
}

/// Whether `path` is the path of a scratch file of `manifest` in the scratch
/// directory `scratch`.
pub open spec fn is_scratch_path_spec(manifest: Manifest, scratch: Seq<char>, path: Seq<char>) -> bool {
    exists|name: Seq<char>| #[trigger]
        scratch_names_spec(manifest).contains(name) && path == join_spec(scratch, name)
}

/// Where installing writes. Every file that the operations of a manifest
/// write is one of its installed files, or a scratch file of the manifest in
/// its scratch directory.
pub proof fn lemma_install_writes_to_scratch_and_destinations(
    download_dir: Seq<char>,
    install_dirs: InstallDirsView,
    manifest: Manifest,
    path: Seq<char>,
)
    requires
        operation_targets_spec(
            install_manifest_spec(manifest),
            for_manifest_spec(download_dir, install_dirs, manifest.info.name@),
        ).contains(path),
    ensures
        installed_files_spec(install_dirs, manifest).contains(path) || is_scratch_path_spec(
            manifest,
            for_manifest_spec(download_dir, install_dirs, manifest.info.name@).download_dir,
            path,
        ),
{
    let dirs = for_manifest_spec(download_dir, install_dirs, manifest.info.name@);
    let operations = install_manifest_spec(manifest);
    let index = lemma_target_index(operations, dirs, path);
    match operation_scratch_name_spec(operations[index]) {
        Some(name) => {
            lemma_downloads_scratch_names(manifest.install@, index);
            assert(scratch_names_spec(manifest).contains(name) && path == join_spec(
                dirs.download_dir,
                name,
            ));
        },
        None => {
            lemma_destination_is_among_destinations(operations, install_dirs, index);
        },
    }
}

/// Installing stays in its place. A file that is neither one of the installed
/// files of a manifest nor one of its scratch files is left as it was by
/// installing the manifest. A scratch file whose name does not start at the
/// root lies below the scratch directory of the manifest.
pub proof fn lemma_install_changes_only_scratch_and_destinations(
    download_dir: Seq<char>,
    install_dirs: InstallDirsView,
    manifest: Manifest,
    artifacts: Seq<Artifact>,
    files: Files,
    path: Seq<char>,
)
    requires
        !installed_files_spec(install_dirs, manifest).contains(path),
        !is_scratch_path_spec(
            manifest,
            for_manifest_spec(download_dir, install_dirs, manifest.info.name@).download_dir,
            path,
        ),
    ensures
        same_at_spec(
            install_outcome_spec(download_dir, install_dirs, manifest, artifacts, files).files,
            files,
            path,
        ),
        forall|name: Seq<char>|
            scratch_names_spec(manifest).contains(name) && (name.len() == 0 || name[0] != '/')
                ==> for_manifest_spec(
                download_dir,
                install_dirs,
                manifest.info.name@,
            ).download_dir.is_prefix_of(
                #[trigger] join_spec(
                    for_manifest_spec(download_dir, install_dirs, manifest.info.name@).download_dir,
                    name,
                ),
            ),
{
    let dirs = for_manifest_spec(download_dir, install_dirs, manifest.info.name@);
    let operations = install_manifest_spec(manifest);
    if operation_targets_spec(operations, dirs).contains(path) {
        lemma_install_writes_to_scratch_and_destinations(
            download_dir,
            install_dirs,
            manifest,
            path,
        );
    }
    lemma_operations_write_their_targets(operations, dirs, artifacts, files, path);
    assert forall|name: Seq<char>|
        scratch_names_spec(manifest).contains(name) && (name.len() == 0 || name[0]
            != '/') implies dirs.download_dir.is_prefix_of(
        #[trigger] join_spec(dirs.download_dir, name),
    ) by {
        lemma_joined_path_is_below(dirs.download_dir, name);
    }
}

/// Whether no two of `operations` write the same file.
pub open spec fn writes_each_file_once_spec(
    operations: Seq<ApplyOperationView>,
    dirs: ManifestOperationDirsView,
) -> bool {
    forall|a: int, b: int|
        0 <= a < b < operations.len() ==> operation_target_spec(#[trigger] operations[a], dirs)
            != operation_target_spec(#[trigger] operations[b], dirs)
}

/// Where applying operations did not fail, applying the first `count` of
/// them did not fail either, nor did the next one after them, and the whole
/// is the rest applied to what the first `count` left.
pub proof fn lemma_apply_prefix(
    operations: Seq<ApplyOperationView>,
    dirs: ManifestOperationDirsView,
    artifacts: Seq<Artifact>,
    files: Files,
    count: int,
)
    requires
        apply_operations_spec(operations, dirs, artifacts, files).result is Ok,
        0 <= count <= operations.len(),
    ensures
        apply_operations_spec(operations.take(count), dirs, artifacts, files).result is Ok,
        apply_operations_spec(operations, dirs, artifacts, files) == apply_operations_spec(
            operations.skip(count),
            dirs,
            artifacts,
            apply_operations_spec(operations.take(count), dirs, artifacts, files).files,
        ),
        count < operations.len() ==> apply_operation_spec(
            operations[count],
            dirs,
            artifacts,
            apply_operations_spec(operations.take(count), dirs, artifacts, files).files,
        ) is Ok,
{
    assert(operations =~= operations.take(count) + operations.skip(count));
    lemma_apply_concat(operations.take(count), operations.skip(count), dirs, artifacts, files);
    if count < operations.len() {
        assert(operations.skip(count)[0] == operations[count]);
    }
}

/// The last write stays. Where applying operations did not fail, the file
/// that one of them wrote, and none after it wrote again, is there at the end
/// as that operation wrote it.
pub proof fn lemma_last_write_stays(
    operations: Seq<ApplyOperationView>,
    dirs: ManifestOperationDirsView,
    artifacts: Seq<Artifact>,
    files: Files,
    index: int,
)
    requires
        apply_operations_spec(operations, dirs, artifacts, files).result is Ok,
        0 <= index < operations.len(),
        forall|later: int|
            index < later < operations.len() ==> operation_target_spec(
                #[trigger] operations[later],
                dirs,
            ) != operation_target_spec(operations[index], dirs),
    ensures
        apply_operation_spec(
            operations[index],
            dirs,
            artifacts,
            apply_operations_spec(operations.take(index), dirs, artifacts, files).files,
        ) is Ok,
        apply_operations_spec(operations, dirs, artifacts, files).files.dom().contains(
            operation_target_spec(operations[index], dirs),
        ),
        apply_operations_spec(operations, dirs, artifacts, files).files[operation_target_spec(
            operations[index],
            dirs,
        )] == apply_operation_spec(
            operations[index],
            dirs,
            artifacts,
            apply_operations_spec(operations.take(index), dirs, artifacts, files).files,
        )->Ok_0[operation_target_spec(operations[index], dirs)],
{
    let target = operation_target_spec(operations[index], dirs);
    let before = apply_operations_spec(operations.take(index), dirs, artifacts, files).files;
    lemma_apply_prefix(operations, dirs, artifacts, files, index);
    let written = apply_operation_spec(operations[index], dirs, artifacts, before)->Ok_0;
    let rest = operations.skip(index + 1);
    assert(operations.skip(index)[0] == operations[index]);
    assert(operations.skip(index).skip(1) =~= rest);
    assert(written.dom().contains(target));
    if operation_targets_spec(rest, dirs).contains(target) {
        let later = lemma_target_index(rest, dirs, target);
        assert(rest[later] == operations[index + 1 + later]);
    }
    lemma_operations_write_their_targets(rest, dirs, artifacts, written, target);
}

/// What was written is read. Where applying operations did not fail, the file
/// that the operation `index` wrote is still as it wrote it when the
/// operation `reader` is applied, if none between the two wrote it again.
pub proof fn lemma_write_is_read(
    operations: Seq<ApplyOperationView>,
    dirs: ManifestOperationDirsView,
    artifacts: Seq<Artifact>,
    files: Files,
    index: int,
    reader: int,
)
    requires
        apply_operations_spec(operations, dirs, artifacts, files).result is Ok,
        0 <= index < reader <= operations.len(),
        forall|later: int|
            index < later < reader ==> operation_target_spec(#[trigger] operations[later], dirs)
                != operation_target_spec(operations[index], dirs),
    ensures
        apply_operation_spec(
            operations[index],
            dirs,
            artifacts,
            apply_operations_spec(operations.take(index), dirs, artifacts, files).files,
        ) is Ok,
        apply_operations_spec(operations.take(reader), dirs, artifacts, files).files.dom().contains(
            operation_target_spec(operations[index], dirs),
        ),
        apply_operations_spec(
            operations.take(reader),
            dirs,
            artifacts,
            files,
        ).files[operation_target_spec(operations[index], dirs)] == apply_operation_spec(
            operations[index],
            dirs,
            artifacts,
            apply_operations_spec(operations.take(index), dirs, artifacts, files).files,
        )->Ok_0[operation_target_spec(operations[index], dirs)],
{
    let upto = operations.take(reader);
    lemma_apply_prefix(operations, dirs, artifacts, files, reader);
    assert(upto.take(index) =~= operations.take(index));
    assert(upto[index] == operations[index]);
    assert forall|later: int| index < later < upto.len() implies operation_target_spec(
        #[trigger] upto[later],
        dirs,
    ) != operation_target_spec(upto[index], dirs) by {
        assert(upto[later] == operations[later]);
    }
    lemma_last_write_stays(upto, dirs, artifacts, files, index);
}

/// The operations that install files that follow one another are those of
/// the first files, followed by those of the second.
pub proof fn lemma_install_files_concat(
    archive: Seq<char>,
    first: Seq<InstallFile>,
    second: Seq<InstallFile>,
)
    ensures
        install_files_spec(archive, first + second) == install_files_spec(archive, first)
            + install_files_spec(archive, second),
    decreases second.len(),
{
    if second.len() == 0 {
        assert(first + second =~= first);
        assert(install_files_spec(archive, first) + install_files_spec(archive, second)
            =~= install_files_spec(archive, first));
    } else {
        assert((first + second).drop_last() =~= first + second.drop_last());
        assert((first + second).last() == second.last());
        lemma_install_files_concat(archive, first, second.drop_last());
        assert(install_files_spec(archive, first + second) =~= install_files_spec(archive, first)
            + (install_files_spec(archive, second.drop_last()) + install_file_spec(
            archive,
            second.last(),
        )));
    }
}

/// Where the operations of the download `index` stand among those of all
/// `downloads`: behind the operations of the downloads before it.
pub proof fn lemma_download_position(downloads: Seq<InstallDownload>, index: int, offset: int)
    requires
        0 <= index < downloads.len(),
        0 <= offset < install_download_spec(downloads[index]).len(),
    ensures
        install_downloads_spec(downloads.take(index)).len() + offset < install_downloads_spec(
            downloads,
        ).len(),
        install_downloads_spec(downloads)[install_downloads_spec(downloads.take(index)).len()
            + offset] == install_download_spec(downloads[index])[offset],
{
    let upto = downloads.take(index + 1);
    assert(downloads =~= upto + downloads.skip(index + 1));
    lemma_install_downloads_concat(upto, downloads.skip(index + 1));
    assert(upto.drop_last() =~= downloads.take(index));
    assert(upto.last() == downloads[index]);
}

/// Where the operations of the file `index` stand among those of all `files`
/// of an archive: behind the operations of the files before it.
pub proof fn lemma_file_position(
    archive: Seq<char>,
    files: Seq<InstallFile>,
    index: int,
    offset: int,
)
    requires
        0 <= index < files.len(),
        0 <= offset < 2,
    ensures
        install_files_spec(archive, files.take(index)).len() + offset < install_files_spec(
            archive,
            files,
        ).len(),
        install_files_spec(archive, files)[install_files_spec(archive, files.take(index)).len()
            + offset] == install_file_spec(archive, files[index])[offset],
{
    let upto = files.take(index + 1);
    assert(files =~= upto + files.skip(index + 1));
    lemma_install_files_concat(archive, upto, files.skip(index + 1));
    assert(upto.drop_last() =~= files.take(index));
    assert(upto.last() == files[index]);
}

/// The file that is placed for a declared file of the kind `target` with the
/// given content: binaries are executable, other files are not.
pub open spec fn placed_file_spec(content: Seq<u8>, target: Target) -> FileData {
    FileData { content, executable: target == Target::Binary }
}

/// Installing places what was fetched. Where installing a manifest did not
/// fail, and no two of its operations write the same file, the download
/// `index`, if it is installed as a single file, was fetched with the
/// declared digest, and lies at its destination with the fetched content,
/// executable if it is a binary.
pub proof fn lemma_install_places_the_download(
    download_dir: Seq<char>,
    install_dirs: InstallDirsView,
    manifest: Manifest,
    artifacts: Seq<Artifact>,
    files: Files,
    index: int,
)
    requires
        0 <= index < manifest.install@.len(),
        manifest.install@[index].install is SingleFile,
        install_outcome_spec(download_dir, install_dirs, manifest, artifacts, files).result is Ok,
        writes_each_file_once_spec(
            install_manifest_spec(manifest),
            for_manifest_spec(download_dir, install_dirs, manifest.info.name@),
        ),
    ensures
        fetched_spec(artifacts, manifest.install@[index].download@) is Some,
        sha256_digest(fetched_spec(artifacts, manifest.install@[index].download@).unwrap())
            == manifest.install@[index].checksum@,
        install_outcome_spec(
            download_dir,
            install_dirs,
            manifest,
            artifacts,
            files,
        ).files.dom().contains(
            destination_path_spec(
                install_dirs,
                DestinationView {
                    directory: target_directory_spec(
                        manifest.install@[index].install->SingleFile_target,
                    ),
                    name: manifest.install@[index].install->SingleFile_name@,
                },
            ),
        ),
        install_outcome_spec(
            download_dir,
            install_dirs,
            manifest,
            artifacts,
            files,
        ).files[destination_path_spec(
            install_dirs,
            DestinationView {
                directory: target_directory_spec(
                    manifest.install@[index].install->SingleFile_target,
                ),
                name: manifest.install@[index].install->SingleFile_name@,
            },
        )] == placed_file_spec(
            fetched_spec(artifacts, manifest.install@[index].download@).unwrap(),
            manifest.install@[index].install->SingleFile_target,
        ),
{
    let dirs = for_manifest_spec(download_dir, install_dirs, manifest.info.name@);
    let operations = install_manifest_spec(manifest);
    let download = manifest.install@[index];
    let fetch = install_downloads_spec(manifest.install@.take(index)).len() as int;
    lemma_download_position(manifest.install@, index, 0);
    lemma_download_position(manifest.install@, index, 1);
    assert(operations[fetch] == install_download_spec(download)[0]);
    assert(operations[fetch + 1] == install_download_spec(download)[1]);
    lemma_write_is_read(operations, dirs, artifacts, files, fetch, fetch + 1);
    lemma_apply_prefix(operations, dirs, artifacts, files, fetch + 1);
    lemma_last_write_stays(operations, dirs, artifacts, files, fetch + 1);
}

/// Installing places what the archive holds. Where installing a manifest did
/// not fail, and no two of its operations write the same file, the download
/// `index`, if it is an archive, was fetched with the declared digest, holds
/// the member that its file `file` declares, and that member lies at the
/// destination of the file with the content it has in the archive,
/// executable if it is a binary.
pub proof fn lemma_install_places_the_member(
    download_dir: Seq<char>,
    install_dirs: InstallDirsView,
    manifest: Manifest,
    artifacts: Seq<Artifact>,
    files: Files,
    index: int,
    file: int,
)
    requires
        0 <= index < manifest.install@.len(),
        manifest.install@[index].install is FilesFromArchive,
        0 <= file < manifest.install@[index].install->FilesFromArchive_files@.len(),
        install_outcome_spec(download_dir, install_dirs, manifest, artifacts, files).result is Ok,
        writes_each_file_once_spec(
            install_manifest_spec(manifest),
            for_manifest_spec(download_dir, install_dirs, manifest.info.name@),
        ),
    ensures
        fetched_spec(artifacts, manifest.install@[index].download@) is Some,
        sha256_digest(fetched_spec(artifacts, manifest.install@[index].download@).unwrap())
            == manifest.install@[index].checksum@,
        extracted_spec(
            artifacts,
            fetched_spec(artifacts, manifest.install@[index].download@).unwrap(),
            manifest.install@[index].install->FilesFromArchive_files@[file].source@,
        ) is Some,
        install_outcome_spec(
            download_dir,
            install_dirs,
            manifest,
            artifacts,
            files,
        ).files.dom().contains(
            destination_path_spec(
                install_dirs,
                DestinationView {
                    directory: target_directory_spec(
                        manifest.install@[index].install->FilesFromArchive_files@[file].target,
                    ),
                    name: manifest.install@[index].install->FilesFromArchive_files@[file].name@,
                },
            ),
        ),
        install_outcome_spec(
            download_dir,
            install_dirs,
            manifest,
            artifacts,
            files,
        ).files[destination_path_spec(
            install_dirs,
            DestinationView {
                directory: target_directory_spec(
                    manifest.install@[index].install->FilesFromArchive_files@[file].target,
                ),
                name: manifest.install@[index].install->FilesFromArchive_files@[file].name@,
            },
        )] == placed_file_spec(
            extracted_spec(
                artifacts,
                fetched_spec(artifacts, manifest.install@[index].download@).unwrap(),
                manifest.install@[index].install->FilesFromArchive_files@[file].source@,
            ).unwrap(),
            manifest.install@[index].install->FilesFromArchive_files@[file].target,
        ),
{
    let dirs = for_manifest_spec(download_dir, install_dirs, manifest.info.name@);
    let operations = install_manifest_spec(manifest);
    let download = manifest.install@[index];
    let declared = download.install->FilesFromArchive_files@;
    let fetch = install_downloads_spec(manifest.install@.take(index)).len() as int;
    let offset = install_files_spec(download.filename@, declared.take(file)).len() as int;
    let extract = fetch + 1 + offset;
    let of_download = install_download_spec(download);
    lemma_file_position(download.filename@, declared, file, 0);
    lemma_file_position(download.filename@, declared, file, 1);
    assert(of_download[1 + offset] == install_file_spec(download.filename@, declared[file])[0]);
    assert(of_download[2 + offset] == install_file_spec(download.filename@, declared[file])[1]);
    lemma_download_position(manifest.install@, index, 0);
    lemma_download_position(manifest.install@, index, 1 + offset);
    lemma_download_position(manifest.install@, index, 2 + offset);
    assert(operations[fetch] == of_download[0]);
    assert(operations[extract] == of_download[1 + offset]);
    assert(operations[extract + 1] == of_download[2 + offset]);
    lemma_write_is_read(operations, dirs, artifacts, files, fetch, extract);
    lemma_apply_prefix(operations, dirs, artifacts, files, extract);
    lemma_write_is_read(operations, dirs, artifacts, files, extract, extract + 1);
    lemma_apply_prefix(operations, dirs, artifacts, files, extract + 1);
    lemma_last_write_stays(operations, dirs, artifacts, files, extract + 1);
}

} // verus!
