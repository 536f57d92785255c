//! Operations to apply manifests to a home directory.

use vstd::prelude::*;
use crate::checksum::Checksum;
use crate::manifest::{Install, InstallDownload, InstallFile, Manifest, Target};

verus! {

/// The directory of an installation that a file is placed in.
#[derive(Clone, Copy, Debug, PartialEq, Eq, Structural)]
pub enum DestinationDirectory {
    /// The directory for executables.
    BinDir,
    /// The directory for man pages.
    ManDir,
    /// The directory for shell completions.
    CompletionDir,
}

/// Where an installed file lies: its directory and its name.
#[derive(Debug, PartialEq, Eq)]
pub struct Destination {
    /// The directory of the file.
    pub directory: DestinationDirectory,
    /// The name of the file in its directory.
    pub name: String,
}

/// The mathematical value of a [`Destination`]. Two destinations are the same
/// if both the directory and the name are.
pub struct DestinationView {
    pub directory: DestinationDirectory,
    pub name: Seq<char>,
}

impl View for Destination {
    type V = DestinationView;

    open spec fn view(&self) -> DestinationView {
        DestinationView { directory: self.directory, name: self.name@ }
    }
}

impl Clone for Destination {
    fn clone(&self) -> (copy: Destination)
        ensures
            copy@ == self@,
    {
        Destination { directory: self.directory, name: self.name.clone() }
    }
}

impl Destination {
    /// The directory of the file.
    pub fn directory(&self) -> (directory: DestinationDirectory)
        ensures
            directory == self@.directory,
    {
        self.directory
    }

    /// The name of the file in its directory.
    pub fn name(&self) -> (name: &str)
        ensures
            name@ == self@.name,
    {
        self.name.as_str()
    }
}

/// An operation to apply when installing a manifest.
///
/// Sources and targets are names in the scratch directory of the manifest.
#[derive(Debug, PartialEq, Eq)]
pub enum ApplyOperation {
    /// Fetch `url`, check what came against `checksum`, and keep it as `target`.
    Download { url: String, checksum: Checksum, target: String },
    /// Extract `member` from the archive `archive` to `target`.
    Extract { archive: String, member: String, target: String },
    /// Copy `source` to `destination` and make it executable.
    PlaceExecutable { source: String, destination: Destination },
    /// Copy `source` to `destination`.
    PlaceFile { source: String, destination: Destination },
}

/// The mathematical value of an [`ApplyOperation`].
pub enum ApplyOperationView {
    Download { url: Seq<char>, checksum: Seq<u8>, target: Seq<char> },
    Extract { archive: Seq<char>, member: Seq<char>, target: Seq<char> },
    PlaceExecutable { source: Seq<char>, destination: DestinationView },
    PlaceFile { source: Seq<char>, destination: DestinationView },
}

impl View for ApplyOperation {
    type V = ApplyOperationView;

    open spec fn view(&self) -> ApplyOperationView {
        match self {
            ApplyOperation::Download { url, checksum, target } => ApplyOperationView::Download {
                url: url@,
                checksum: checksum@,
                target: target@,
            },
            ApplyOperation::Extract { archive, member, target } => ApplyOperationView::Extract {
                archive: archive@,
                member: member@,
                target: target@,
            },
            ApplyOperation::PlaceExecutable {
                source,
                destination,
            } => ApplyOperationView::PlaceExecutable { source: source@, destination: destination@ },
            ApplyOperation::PlaceFile { source, destination } => ApplyOperationView::PlaceFile {
                source: source@,
                destination: destination@,
            },
        }
    }
}

/// An operation to apply when removing a manifest.
#[derive(Debug, PartialEq, Eq)]
pub enum RemoveOperation {
    /// Delete the file of the given name in the given directory.
    Delete(DestinationDirectory, String),
}

/// The mathematical value of a [`RemoveOperation`].
pub enum RemoveOperationView {
    Delete(DestinationDirectory, Seq<char>),
}

impl View for RemoveOperation {
    type V = RemoveOperationView;

    open spec fn view(&self) -> RemoveOperationView {
        match self {
            RemoveOperation::Delete(directory, name) => RemoveOperationView::Delete(
                *directory,
                name@,
            ),
        }
    }
}

/// The values of a sequence of operations.
pub open spec fn operations_view(operations: Seq<ApplyOperation>) -> Seq<ApplyOperationView> {
    operations.map_values(|operation: ApplyOperation| operation@)
}

/// The values of a sequence of remove operations.
pub open spec fn removals_view(operations: Seq<RemoveOperation>) -> Seq<RemoveOperationView> {
    operations.map_values(|operation: RemoveOperation| operation@)
}

/// The values of a sequence of destinations.
pub open spec fn destinations_view(destinations: Seq<Destination>) -> Seq<DestinationView> {
    destinations.map_values(|destination: Destination| destination@)
}

/// The directory that files of the kind `target` are placed in.
pub open spec fn target_directory_spec(target: Target) -> DestinationDirectory {
    match target {
        Target::Binary => DestinationDirectory::BinDir,
        Target::Manpage => DestinationDirectory::ManDir,
        Target::Completion => DestinationDirectory::CompletionDir,
    }
}

/// The operation that places the scratch file `source` under `name` as a file
/// of the kind `target`. Binaries are made executable, other files are not.
pub open spec fn place_operation_spec(source: Seq<char>, name: Seq<char>, target: Target) -> ApplyOperationView {
    let destination = DestinationView { directory: target_directory_spec(target), name };
    match target {
        Target::Binary => ApplyOperationView::PlaceExecutable { source, destination },
        _ => ApplyOperationView::PlaceFile { source, destination },
    }
}

/// The operations that install one member of the archive `archive`: extract
/// it, under its own path, then place it.
pub open spec fn install_file_spec(archive: Seq<char>, file: InstallFile) -> Seq<ApplyOperationView> {
    seq![
        ApplyOperationView::Extract { archive, member: file.source@, target: file.source@ },
        place_operation_spec(file.source@, file.name@, file.target),
    ]
}

/// The operations that install `files` from the archive `archive`, in the
/// order of `files`.
pub open spec fn install_files_spec(archive: Seq<char>, files: Seq<InstallFile>) -> Seq<
    ApplyOperationView,
>
    decreases files.len(),
{
    if files.len() == 0 {
        seq![]
    } else {
        install_files_spec(archive, files.drop_last()) + install_file_spec(archive, files.last())
    }
}

/// The operations that install what `download` declares: the download comes
/// first, then its files.
pub open spec fn install_download_spec(download: InstallDownload) -> Seq<ApplyOperationView> {
    seq![
        ApplyOperationView::Download {
            url: download.download@,
            checksum: download.checksum@,
            target: download.filename@,
        },
    ] + match download.install {
        Install::SingleFile { name, target } => seq![place_operation_spec(download.filename@, name@, target)],
        Install::FilesFromArchive { files } => install_files_spec(download.filename@, files@),
    }
}

/// The operations that install `downloads`, in the order of `downloads`.
pub open spec fn install_downloads_spec(downloads: Seq<InstallDownload>) -> Seq<ApplyOperationView>
    decreases downloads.len(),
{
    if downloads.len() == 0 {
        seq![]
    } else {
        install_downloads_spec(downloads.drop_last()) + install_download_spec(downloads.last())
    }
}

/// The operations that install `manifest`.
pub open spec fn install_manifest_spec(manifest: Manifest) -> Seq<ApplyOperationView> {
    install_downloads_spec(manifest.install@)
}

/// The operations that remove `files`.
pub open spec fn remove_files_spec(files: Seq<InstallFile>) -> Seq<RemoveOperationView>
    decreases files.len(),
{
    if files.len() == 0 {
        seq![]
    } else {
        remove_files_spec(files.drop_last()).push(
            RemoveOperationView::Delete(target_directory_spec(files.last().target), files.last().name@),
        )
    }
}

/// The operations that remove what `download` installs.
pub open spec fn remove_download_spec(download: InstallDownload) -> Seq<RemoveOperationView> {
    match download.install {
        Install::SingleFile { name, target } => seq![
            RemoveOperationView::Delete(target_directory_spec(target), name@),
        ],
        Install::FilesFromArchive { files } => remove_files_spec(files@),
    }
}

/// The operations that remove what `downloads` install.
pub open spec fn remove_downloads_spec(downloads: Seq<InstallDownload>) -> Seq<RemoveOperationView>
    decreases downloads.len(),
{
    if downloads.len() == 0 {
        seq![]
    } else {
        remove_downloads_spec(downloads.drop_last()) + remove_download_spec(downloads.last())
    }
}

/// The operations that remove `manifest`: one deletion for each file that the
/// manifest declares. They are read off the manifest, not off the operations
/// that install it.
pub open spec fn remove_manifest_spec(manifest: Manifest) -> Seq<RemoveOperationView> {
    remove_downloads_spec(manifest.install@)
}

/// The destination that an operation places a file at, if it places one.
pub open spec fn operation_destination_spec(operation: ApplyOperationView) -> Option<DestinationView> {
    match operation {
        ApplyOperationView::PlaceExecutable { destination, .. } => Some(destination),
        ApplyOperationView::PlaceFile { destination, .. } => Some(destination),
        _ => None,
    }
}

/// The destinations that `operations` place files at, in their order.
pub open spec fn operation_destinations_spec(operations: Seq<ApplyOperationView>) -> Seq<
    DestinationView,
>
    decreases operations.len(),
{
    if operations.len() == 0 {
        seq![]
    } else {
        let before = operation_destinations_spec(operations.drop_last());
        match operation_destination_spec(operations.last()) {
            Some(destination) => before.push(destination),
            None => before,
        }
    }
}

/// The destination that a remove operation deletes.
pub open spec fn removed_destination_spec(operation: RemoveOperationView) -> DestinationView {
    match operation {
        RemoveOperationView::Delete(directory, name) => DestinationView { directory, name },
    }
}

/// The directory that files of the kind `target` are placed in.
pub fn target_directory(target: Target) -> (directory: DestinationDirectory)
    ensures
        directory == target_directory_spec(target),
{
    match target {
        Target::Binary => DestinationDirectory::BinDir,
        Target::Manpage => DestinationDirectory::ManDir,
        Target::Completion => DestinationDirectory::CompletionDir,
    }
}

fn place_operation(source: &String, name: &String, target: Target) -> (operation: ApplyOperation)
    ensures
        operation@ == place_operation_spec(source@, name@, target),
{
    let destination = Destination { directory: target_directory(target), name: name.clone() };
    match target {
        Target::Binary => ApplyOperation::PlaceExecutable { source: source.clone(), destination },
        _ => ApplyOperation::PlaceFile { source: source.clone(), destination },
    }
}

fn push_install_files(
    operations: &mut Vec<ApplyOperation>,
    archive: &String,
    files: &Vec<InstallFile>,
)
    ensures
        operations_view(final(operations)@) == operations_view(old(operations)@)
            + install_files_spec(archive@, files@),
{
    let ghost before = operations_view(operations@);
    let mut i: usize = 0;
    assert(operations_view(operations@) =~= before + install_files_spec(
        archive@,
        files@.take(0),
    ));
    while i < files.len()
        invariant
            i <= files.len(),
            operations_view(operations@) == before + install_files_spec(
                archive@,
                files@.take(i as int),
            ),
        decreases files.len() - i,
    {
        let file = &files[i];
        let ghost so_far = operations@;
        let extract = ApplyOperation::Extract {
            archive: archive.clone(),
            member: file.source.clone(),
            target: file.source.clone(),
        };
        let placed = place_operation(&file.source, &file.name, file.target);
        operations.push(extract);
        operations.push(placed);
        proof {
            let next = files@.take(i as int + 1);
            assert(next.drop_last() =~= files@.take(i as int));
            assert(next.last() == files@[i as int]);
            assert(operations_view(operations@) =~= operations_view(so_far) + install_file_spec(
                archive@,
                files@[i as int],
            ));
            assert(before + install_files_spec(archive@, next) =~= before + install_files_spec(
                archive@,
                files@.take(i as int),
            ) + install_file_spec(archive@, files@[i as int]));
        }
        i += 1;
    }
    assert(files@.take(files.len() as int) =~= files@);
}

fn push_install_download(operations: &mut Vec<ApplyOperation>, download: &InstallDownload)
    ensures
        operations_view(final(operations)@) == operations_view(old(operations)@)
            + install_download_spec(*download),
{
    let ghost before = operations@;
    operations.push(
        ApplyOperation::Download {
            url: download.download.clone(),
            checksum: download.checksum.clone(),
            target: download.filename.clone(),
        },
    );
    let ghost fetched = operations@;
    match &download.install {
        Install::SingleFile { name, target } => {
            operations.push(place_operation(&download.filename, name, *target));
        },
        Install::FilesFromArchive { files } => {
            push_install_files(operations, &download.filename, files);
        },
    }
    assert(operations_view(fetched) =~= operations_view(before).push(fetched.last()@));
    assert(operations_view(operations@) =~= operations_view(before) + install_download_spec(
        *download,
    ));
}

/// Plan the installation of `manifest`: the operations to apply, in their
/// order.
///
/// The operations of a download stand together: first the download itself,
/// then what extracts and places its files, in the order of the manifest.
pub fn install_manifest(manifest: &Manifest) -> (operations: Vec<ApplyOperation>)
    ensures
        operations_view(operations@) == install_manifest_spec(*manifest),
{
    let mut operations: Vec<ApplyOperation> = Vec::new();
    let mut i: usize = 0;
    assert(operations_view(operations@) =~= install_downloads_spec(manifest.install@.take(0)));
    while i < manifest.install.len()
        invariant
            i <= manifest.install.len(),
            operations_view(operations@) == install_downloads_spec(
                manifest.install@.take(i as int),
            ),
        decreases manifest.install.len() - i,
    {
        push_install_download(&mut operations, &manifest.install[i]);
        proof {
            let next = manifest.install@.take(i as int + 1);
            assert(next.drop_last() =~= manifest.install@.take(i as int));
            assert(next.last() == manifest.install@[i as int]);
        }
        i += 1;
    }
    assert(manifest.install@.take(manifest.install.len() as int) =~= manifest.install@);
    operations
}

fn push_remove_files(operations: &mut Vec<RemoveOperation>, files: &Vec<InstallFile>)
    ensures
        removals_view(final(operations)@) == removals_view(old(operations)@) + remove_files_spec(
            files@,
        ),
{
    let ghost before = removals_view(operations@);
    let mut i: usize = 0;
    assert(removals_view(operations@) =~= before + remove_files_spec(files@.take(0)));
    while i < files.len()
        invariant
            i <= files.len(),
            removals_view(operations@) == before + remove_files_spec(files@.take(i as int)),
        decreases files.len() - i,
    {
        let file = &files[i];
        let ghost so_far = operations@;
        let delete = RemoveOperation::Delete(target_directory(file.target), file.name.clone());
        operations.push(delete);
        proof {
            let next = files@.take(i as int + 1);
            assert(next.drop_last() =~= files@.take(i as int));
            assert(next.last() == files@[i as int]);
            assert(removals_view(operations@) =~= removals_view(so_far).push(delete@));
            assert(before + remove_files_spec(next) =~= (before + remove_files_spec(
                files@.take(i as int),
            )).push(delete@));
        }
        i += 1;
    }
    assert(files@.take(files.len() as int) =~= files@);
}

fn push_remove_download(operations: &mut Vec<RemoveOperation>, download: &InstallDownload)
    ensures
        removals_view(final(operations)@) == removals_view(old(operations)@)
            + remove_download_spec(*download),
{
    let ghost before = operations@;
    match &download.install {
        Install::SingleFile { name, target } => {
            let delete = RemoveOperation::Delete(target_directory(*target), name.clone());
            operations.push(delete);
            assert(removals_view(operations@) =~= removals_view(before) + remove_download_spec(
                *download,
            ));
        },
        Install::FilesFromArchive { files } => {
            push_remove_files(operations, files);
        },
    }
}

/// Plan the removal of `manifest`: one deletion for each file that the
/// manifest declares, in the order of the manifest.
pub fn remove_manifest(manifest: &Manifest) -> (operations: Vec<RemoveOperation>)
    ensures
        removals_view(operations@) == remove_manifest_spec(*manifest),
{
    let mut operations: Vec<RemoveOperation> = Vec::new();
    let mut i: usize = 0;
    assert(removals_view(operations@) =~= remove_downloads_spec(manifest.install@.take(0)));
    while i < manifest.install.len()
        invariant
            i <= manifest.install.len(),
            removals_view(operations@) == remove_downloads_spec(manifest.install@.take(i as int)),
        decreases manifest.install.len() - i,
    {
        push_remove_download(&mut operations, &manifest.install[i]);
        proof {
            let next = manifest.install@.take(i as int + 1);
            assert(next.drop_last() =~= manifest.install@.take(i as int));
            assert(next.last() == manifest.install@[i as int]);
        }
        i += 1;
    }
    assert(manifest.install@.take(manifest.install.len() as int) =~= manifest.install@);
    operations
}

/// The destinations that `operations` place files at, in the order of the
/// operations.
pub fn operation_destinations(operations: &Vec<ApplyOperation>) -> (destinations: Vec<Destination>)
    ensures
        destinations_view(destinations@) == operation_destinations_spec(
            operations_view(operations@),
        ),
{
    let mut destinations: Vec<Destination> = Vec::new();
    let mut i: usize = 0;
    let ghost views = operations_view(operations@);
    assert(destinations_view(destinations@) =~= operation_destinations_spec(views.take(0)));
    while i < operations.len()
        invariant
            i <= operations.len(),
            views == operations_view(operations@),
            destinations_view(destinations@) == operation_destinations_spec(views.take(i as int)),
        decreases operations.len() - i,
    {
        let ghost so_far = destinations@;
        proof {
            let next = views.take(i as int + 1);
            assert(next.drop_last() =~= views.take(i as int));
            assert(next.last() == operations@[i as int]@);
        }
        match &operations[i] {
            ApplyOperation::PlaceExecutable { destination, .. } => {
                let copy = destination.clone();
                destinations.push(copy);
                assert(destinations_view(destinations@) =~= destinations_view(so_far).push(copy@));
            },
            ApplyOperation::PlaceFile { destination, .. } => {
                let copy = destination.clone();
                destinations.push(copy);
                assert(destinations_view(destinations@) =~= destinations_view(so_far).push(copy@));
            },
            _ => {},
        }
        i += 1;
    }
    assert(views.take(operations.len() as int) =~= views);
    destinations
}

} // verus!
