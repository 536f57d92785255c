use homebins::apply::{apply_operations, destination_path, remove_operations};
use homebins::artifacts::{extracted, fetched, find_member, Artifact, Member};
use homebins::checksum::Checksum;
use homebins::files::{File, FileTree};
use homebins::manifest::{
    Discover, Info, Install, InstallDownload, InstallFile, Manifest, Target, VersionCheck,
};
use homebins::operations::{ApplyOperation, Destination, DestinationDirectory, RemoveOperation};
use homebins::{
    files_to_remove, install_manifest, installed_files, remove_manifest, HomebinError,
    HomebinProjectDirs, InstallDirs, ManifestOperationDirs, Version,
};
use sha2::Digest;

const ARCHIVE_URL: &str = "https://example.com/ripgrep-12.1.1.tar.gz";
const HELPER_URL: &str = "https://example.com/rg-helper";
const SCRATCH: &str = "/home/user/.cache/homebins/ripgrep";

fn project_dirs() -> HomebinProjectDirs {
    HomebinProjectDirs { download_dir: "/home/user/.cache/homebins".to_string() }
}

fn dirs() -> InstallDirs {
    InstallDirs {
        bin_dir: "/home/user/.local/bin".to_string(),
        man_dir: "/home/user/.local/share/man".to_string(),
        completion_dir: "/home/user/.config/fish/completions".to_string(),
    }
}

fn digest(content: &[u8]) -> Checksum {
    Checksum { sha256: sha2::Sha256::digest(content).to_vec() }
}

fn file(source: &str, name: &str, target: Target) -> InstallFile {
    InstallFile { source: source.to_string(), name: name.to_string(), target }
}

fn ripgrep() -> Manifest {
    Manifest {
        info: Info { name: "ripgrep".to_string(), version: Version::new("12.1.1").unwrap() },
        discover: Discover {
            binary: "rg".to_string(),
            version_check: VersionCheck {
                args: vec!["--version".to_string()],
                pattern: r"ripgrep (\d+\.\d+\.\d+)".to_string(),
            },
        },
        install: vec![
            InstallDownload {
                download: ARCHIVE_URL.to_string(),
                filename: "ripgrep-12.1.1.tar.gz".to_string(),
                checksum: digest(b"the archive"),
                install: Install::FilesFromArchive {
                    files: vec![
                        file("ripgrep-12.1.1/rg", "rg", Target::Binary),
                        file("ripgrep-12.1.1/doc/rg.1", "rg.1", Target::Manpage),
                    ],
                },
            },
            InstallDownload {
                download: HELPER_URL.to_string(),
                filename: "rg-helper".to_string(),
                checksum: digest(b"the helper"),
                install: Install::SingleFile {
                    name: "rg-helper".to_string(),
                    target: Target::Binary,
                },
            },
        ],
    }
}

fn member(name: &str, content: &[u8]) -> Member {
    Member { name: name.to_string(), content: content.to_vec() }
}

fn archive(content: &[u8]) -> Artifact {
    Artifact {
        url: ARCHIVE_URL.to_string(),
        content: content.to_vec(),
        members: vec![
            member("ripgrep-12.1.1/rg", b"the binary"),
            member("ripgrep-12.1.1/doc/rg.1", b"the man page"),
        ],
    }
}

fn helper(content: &[u8]) -> Artifact {
    Artifact { url: HELPER_URL.to_string(), content: content.to_vec(), members: vec![] }
}

fn artifacts() -> Vec<Artifact> {
    vec![archive(b"the archive"), helper(b"the helper")]
}

fn snapshot(tree: &FileTree) -> Vec<(String, Vec<u8>, bool)> {
    let mut files: Vec<_> =
        tree.files().iter().map(|f| (f.path.clone(), f.content.clone(), f.executable)).collect();
    files.sort();
    files
}

fn entry(path: &str, content: &[u8], executable: bool) -> (String, Vec<u8>, bool) {
    (path.to_string(), content.to_vec(), executable)
}

fn installed() -> Vec<(String, Vec<u8>, bool)> {
    let mut files = vec![
        entry("/home/user/.cache/homebins/ripgrep/ripgrep-12.1.1.tar.gz", b"the archive", false),
        entry("/home/user/.cache/homebins/ripgrep/ripgrep-12.1.1/rg", b"the binary", false),
        entry("/home/user/.cache/homebins/ripgrep/ripgrep-12.1.1/doc/rg.1", b"the man page", false),
        entry("/home/user/.cache/homebins/ripgrep/rg-helper", b"the helper", false),
        entry("/home/user/.local/bin/rg", b"the binary", true),
        entry("/home/user/.local/share/man/rg.1", b"the man page", false),
        entry("/home/user/.local/bin/rg-helper", b"the helper", true),
    ];
    files.sort();
    files
}

#[test]
fn install_places_every_file_with_its_content_and_mode() {
    let mut tree = FileTree::new();
    assert_eq!(install_manifest(&project_dirs(), &dirs(), &ripgrep(), &artifacts(), &mut tree), Ok(()));
    assert_eq!(snapshot(&tree), installed());
    for path in installed_files(&dirs(), &ripgrep()) {
        assert!(tree.contains(&path), "{} is missing", path);
    }
}

#[test]
fn install_twice_leaves_what_install_once_leaves() {
    let mut once = FileTree::new();
    once.write("/home/user/.local/bin/other".to_string(), b"other".to_vec(), true);
    assert_eq!(install_manifest(&project_dirs(), &dirs(), &ripgrep(), &artifacts(), &mut once), Ok(()));
    let mut twice = FileTree::new();
    twice.write("/home/user/.local/bin/other".to_string(), b"other".to_vec(), true);
    assert_eq!(install_manifest(&project_dirs(), &dirs(), &ripgrep(), &artifacts(), &mut twice), Ok(()));
    assert_eq!(install_manifest(&project_dirs(), &dirs(), &ripgrep(), &artifacts(), &mut twice), Ok(()));
    assert_eq!(snapshot(&twice), snapshot(&once));
    assert_eq!(snapshot(&once).len(), 8);
}

#[test]
fn install_twice_fails_twice_alike() {
    let artifacts = vec![archive(b"the archive")];
    let mut once = FileTree::new();
    let first = install_manifest(&project_dirs(), &dirs(), &ripgrep(), &artifacts, &mut once);
    let mut twice = FileTree::new();
    let _ = install_manifest(&project_dirs(), &dirs(), &ripgrep(), &artifacts, &mut twice);
    let second = install_manifest(&project_dirs(), &dirs(), &ripgrep(), &artifacts, &mut twice);
    assert_eq!(first, Err(HomebinError::NetworkError { url: HELPER_URL.to_string() }));
    assert_eq!(second, first);
    assert_eq!(snapshot(&twice), snapshot(&once));
}

#[test]
fn install_overwrites_what_is_at_a_destination() {
    let mut tree = FileTree::new();
    tree.write("/home/user/.local/bin/rg".to_string(), b"an old binary".to_vec(), false);
    assert_eq!(install_manifest(&project_dirs(), &dirs(), &ripgrep(), &artifacts(), &mut tree), Ok(()));
    assert_eq!(snapshot(&tree), installed());
}

#[test]
fn install_then_remove_leaves_no_installed_file() {
    let mut tree = FileTree::new();
    tree.write("/home/user/.local/bin/other".to_string(), b"other".to_vec(), true);
    assert_eq!(install_manifest(&project_dirs(), &dirs(), &ripgrep(), &artifacts(), &mut tree), Ok(()));
    assert_eq!(remove_manifest(&project_dirs(), &dirs(), &ripgrep(), &mut tree), Ok(()));
    for path in installed_files(&dirs(), &ripgrep()) {
        assert!(!tree.contains(&path), "{} is left", path);
    }
    for path in files_to_remove(&dirs(), &ripgrep()) {
        assert!(!tree.contains(&path), "{} is left", path);
    }
    assert!(tree.contains("/home/user/.local/bin/other"));
    assert_eq!(tree.files().len(), 5);
}

#[test]
fn remove_of_what_was_never_installed_is_no_error() {
    let mut tree = FileTree::new();
    assert_eq!(remove_manifest(&project_dirs(), &dirs(), &ripgrep(), &mut tree), Ok(()));
    assert_eq!(snapshot(&tree), vec![]);
    tree.write("/home/user/.local/bin/other".to_string(), b"other".to_vec(), true);
    assert_eq!(remove_manifest(&project_dirs(), &dirs(), &ripgrep(), &mut tree), Ok(()));
    assert_eq!(snapshot(&tree), vec![entry("/home/user/.local/bin/other", b"other", true)]);
}

#[test]
fn remove_after_a_partial_install_removes_what_was_placed() {
    let mut tree = FileTree::new();
    let result =
        install_manifest(&project_dirs(), &dirs(), &ripgrep(), &vec![archive(b"the archive")], &mut tree);
    assert_eq!(result, Err(HomebinError::NetworkError { url: HELPER_URL.to_string() }));
    assert!(tree.contains("/home/user/.local/bin/rg"));
    assert_eq!(remove_manifest(&project_dirs(), &dirs(), &ripgrep(), &mut tree), Ok(()));
    for path in installed_files(&dirs(), &ripgrep()) {
        assert!(!tree.contains(&path), "{} is left", path);
    }
}

#[test]
fn checksum_mismatch_of_the_first_download_touches_no_file() {
    let mut tree = FileTree::new();
    tree.write("/home/user/.local/bin/rg".to_string(), b"an old binary".to_vec(), true);
    let artifacts = vec![archive(b"a forged archive"), helper(b"the helper")];
    assert_eq!(
        install_manifest(&project_dirs(), &dirs(), &ripgrep(), &artifacts, &mut tree),
        Err(HomebinError::ChecksumMismatch {
            expected: digest(b"the archive").sha256,
            actual: digest(b"a forged archive").sha256,
        })
    );
    assert_eq!(snapshot(&tree), vec![entry("/home/user/.local/bin/rg", b"an old binary", true)]);
}

#[test]
fn checksum_mismatch_of_a_later_download_keeps_what_came_before() {
    let mut tree = FileTree::new();
    let artifacts = vec![archive(b"the archive"), helper(b"a forged helper")];
    assert_eq!(
        install_manifest(&project_dirs(), &dirs(), &ripgrep(), &artifacts, &mut tree),
        Err(HomebinError::ChecksumMismatch {
            expected: digest(b"the helper").sha256,
            actual: digest(b"a forged helper").sha256,
        })
    );
    let mut expected = installed();
    expected.retain(|(path, _, _)| !path.ends_with("rg-helper"));
    assert_eq!(snapshot(&tree), expected);
}

#[test]
fn download_that_cannot_be_fetched_fails() {
    let mut tree = FileTree::new();
    assert_eq!(
        install_manifest(&project_dirs(), &dirs(), &ripgrep(), &vec![], &mut tree),
        Err(HomebinError::NetworkError { url: ARCHIVE_URL.to_string() })
    );
    assert_eq!(snapshot(&tree), vec![]);
}

#[test]
fn missing_archive_member_fails_after_what_came_before() {
    let mut broken = archive(b"the archive");
    broken.members.pop();
    let mut tree = FileTree::new();
    assert_eq!(
        install_manifest(&project_dirs(), &dirs(), &ripgrep(), &vec![broken, helper(b"the helper")], &mut tree),
        Err(HomebinError::IoError {
            path: "/home/user/.cache/homebins/ripgrep/ripgrep-12.1.1.tar.gz/ripgrep-12.1.1/doc/rg.1"
                .to_string()
        })
    );
    assert_eq!(
        snapshot(&tree),
        vec![
            entry("/home/user/.cache/homebins/ripgrep/ripgrep-12.1.1.tar.gz", b"the archive", false),
            entry("/home/user/.cache/homebins/ripgrep/ripgrep-12.1.1/rg", b"the binary", false),
            entry("/home/user/.local/bin/rg", b"the binary", true),
        ]
    );
}

fn operation_dirs() -> ManifestOperationDirs {
    ManifestOperationDirs::for_manifest(&project_dirs(), &dirs(), &ripgrep())
}

#[test]
fn place_of_a_missing_scratch_file_fails() {
    let mut tree = FileTree::new();
    let operation = ApplyOperation::PlaceFile {
        source: "rg.1".to_string(),
        destination: Destination { directory: DestinationDirectory::ManDir, name: "rg.1".to_string() },
    };
    assert_eq!(
        operation.apply_operation(&operation_dirs(), &vec![], &mut tree),
        Err(HomebinError::IoError { path: format!("{}/rg.1", SCRATCH) })
    );
    assert_eq!(snapshot(&tree), vec![]);
}

#[test]
fn place_executable_sets_the_mode_and_place_file_clears_it() {
    let mut tree = FileTree::new();
    tree.write(format!("{}/rg", SCRATCH), b"the binary".to_vec(), false);
    tree.write(format!("{}/doc", SCRATCH), b"the doc".to_vec(), true);
    let executable = ApplyOperation::PlaceExecutable {
        source: "rg".to_string(),
        destination: Destination { directory: DestinationDirectory::BinDir, name: "rg".to_string() },
    };
    let plain = ApplyOperation::PlaceFile {
        source: "doc".to_string(),
        destination: Destination {
            directory: DestinationDirectory::CompletionDir,
            name: "rg.fish".to_string(),
        },
    };
    assert_eq!(executable.apply_operation(&operation_dirs(), &vec![], &mut tree), Ok(()));
    assert_eq!(plain.apply_operation(&operation_dirs(), &vec![], &mut tree), Ok(()));
    let placed = tree.get("/home/user/.local/bin/rg").unwrap();
    assert_eq!((placed.content.as_slice(), placed.executable), (&b"the binary"[..], true));
    let placed = tree.get("/home/user/.config/fish/completions/rg.fish").unwrap();
    assert_eq!((placed.content.as_slice(), placed.executable), (&b"the doc"[..], false));
    assert_eq!(tree.files().len(), 4);
}

#[test]
fn extract_of_a_missing_archive_fails() {
    let mut tree = FileTree::new();
    let operation = ApplyOperation::Extract {
        archive: "ripgrep-12.1.1.tar.gz".to_string(),
        member: "ripgrep-12.1.1/rg".to_string(),
        target: "rg".to_string(),
    };
    assert_eq!(
        operation.apply_operation(&operation_dirs(), &artifacts(), &mut tree),
        Err(HomebinError::IoError { path: format!("{}/ripgrep-12.1.1.tar.gz", SCRATCH) })
    );
}

#[test]
fn extract_writes_the_member_to_its_target() {
    let mut tree = FileTree::new();
    tree.write(format!("{}/a.tar.gz", SCRATCH), b"the archive".to_vec(), false);
    let operation = ApplyOperation::Extract {
        archive: "a.tar.gz".to_string(),
        member: "ripgrep-12.1.1/rg".to_string(),
        target: "rg".to_string(),
    };
    assert_eq!(operation.apply_operation(&operation_dirs(), &artifacts(), &mut tree), Ok(()));
    assert_eq!(tree.get(&format!("{}/rg", SCRATCH)).unwrap().content, b"the binary");
}

#[test]
fn operations_stop_at_the_first_failure() {
    let mut tree = FileTree::new();
    let operations = vec![
        ApplyOperation::Download {
            url: HELPER_URL.to_string(),
            checksum: digest(b"the helper"),
            target: "helper".to_string(),
        },
        ApplyOperation::PlaceFile {
            source: "absent".to_string(),
            destination: Destination { directory: DestinationDirectory::BinDir, name: "a".to_string() },
        },
        ApplyOperation::PlaceFile {
            source: "helper".to_string(),
            destination: Destination { directory: DestinationDirectory::BinDir, name: "b".to_string() },
        },
    ];
    assert_eq!(
        apply_operations(&operations, &operation_dirs(), &artifacts(), &mut tree),
        Err(HomebinError::IoError { path: format!("{}/absent", SCRATCH) })
    );
    assert_eq!(snapshot(&tree), vec![entry(&format!("{}/helper", SCRATCH), b"the helper", false)]);
    assert_eq!(apply_operations(&vec![], &operation_dirs(), &artifacts(), &mut tree), Ok(()));
}

#[test]
fn delete_removes_the_file_and_only_it() {
    let mut tree = FileTree::new();
    tree.write("/home/user/.local/bin/rg".to_string(), b"rg".to_vec(), true);
    tree.write("/home/user/.local/share/man/rg".to_string(), b"man".to_vec(), false);
    let delete = RemoveOperation::Delete(DestinationDirectory::BinDir, "rg".to_string());
    assert_eq!(delete.apply_operation(&operation_dirs(), &mut tree), Ok(()));
    assert_eq!(snapshot(&tree), vec![entry("/home/user/.local/share/man/rg", b"man", false)]);
    assert_eq!(delete.apply_operation(&operation_dirs(), &mut tree), Ok(()));
    assert_eq!(snapshot(&tree), vec![entry("/home/user/.local/share/man/rg", b"man", false)]);
    assert_eq!(remove_operations(&vec![], &operation_dirs(), &mut tree), Ok(()));
}

#[test]
fn destination_path_joins_directory_and_name() {
    let destination =
        Destination { directory: DestinationDirectory::ManDir, name: "rg.1".to_string() };
    assert_eq!(destination_path(&dirs(), &destination), "/home/user/.local/share/man/rg.1");
}

#[test]
fn artifacts_are_found_by_address_and_by_content() {
    let artifacts = vec![archive(b"the archive"), helper(b"the helper"), helper(b"a later helper")];
    assert_eq!(fetched(&artifacts, ARCHIVE_URL), Some(&b"the archive".to_vec()));
    assert_eq!(fetched(&artifacts, HELPER_URL), Some(&b"the helper".to_vec()));
    assert_eq!(fetched(&artifacts, "https://example.com/other"), None);
    assert_eq!(
        extracted(&artifacts, b"the archive", "ripgrep-12.1.1/rg"),
        Some(&b"the binary".to_vec())
    );
    assert_eq!(extracted(&artifacts, b"the archive", "ripgrep-12.1.1/other"), None);
    assert_eq!(extracted(&artifacts, b"the helper", "ripgrep-12.1.1/rg"), None);
    assert_eq!(extracted(&artifacts, b"unknown", "ripgrep-12.1.1/rg"), None);
}

#[test]
fn members_are_found_by_name_the_first_one_first() {
    let members = vec![member("a", b"1"), member("b", b"2"), member("a", b"3")];
    assert_eq!(find_member(&members, "a"), Some(&b"1".to_vec()));
    assert_eq!(find_member(&members, "b"), Some(&b"2".to_vec()));
    assert_eq!(find_member(&members, "c"), None);
}

#[test]
fn tree_keeps_one_file_per_path() {
    let mut tree = FileTree::new();
    assert!(!tree.contains("/a"));
    assert_eq!(tree.get("/a"), None);
    tree.write("/a".to_string(), b"1".to_vec(), false);
    tree.write("/b".to_string(), b"2".to_vec(), true);
    tree.write("/a".to_string(), b"3".to_vec(), true);
    assert_eq!(
        tree.get("/a"),
        Some(&File { path: "/a".to_string(), content: b"3".to_vec(), executable: true })
    );
    assert_eq!(snapshot(&tree), vec![entry("/a", b"3", true), entry("/b", b"2", true)]);
    tree.remove("/a");
    tree.remove("/c");
    assert!(!tree.contains("/a"));
    assert!(tree.contains("/b"));
    assert_eq!(snapshot(&tree), vec![entry("/b", b"2", true)]);
}

#[test]
fn scratch_name_that_starts_at_the_root_is_kept_as_it_is() {
    let mut manifest = ripgrep();
    manifest.install.truncate(2);
    manifest.install.remove(0);
    manifest.install[0].filename = "/tmp/rg-helper".to_string();
    let mut tree = FileTree::new();
    assert_eq!(
        install_manifest(&project_dirs(), &dirs(), &manifest, &artifacts(), &mut tree),
        Ok(())
    );
    assert_eq!(
        snapshot(&tree),
        vec![
            entry("/home/user/.local/bin/rg-helper", b"the helper", true),
            entry("/tmp/rg-helper", b"the helper", false),
        ]
    );
}
