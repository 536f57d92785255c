use homebins::checksum::Checksum;
use homebins::dirs::join_path;
use homebins::manifest::{Discover, Info, Manifest, VersionCheck};
use homebins::operations::DestinationDirectory;
use homebins::tools::{path_contains, text_equal};
use homebins::{
    check_environment, EnvironmentWarning, HomebinProjectDirs, InstallDirs, ManifestOperationDirs,
    Version,
};

fn dirs() -> InstallDirs {
    InstallDirs {
        bin_dir: "/home/user/.local/bin".to_string(),
        man_dir: "/home/user/.local/share/man".to_string(),
        completion_dir: "/home/user/.config/fish/completions".to_string(),
    }
}

fn manifest(name: &str) -> Manifest {
    Manifest {
        info: Info { name: name.to_string(), version: Version::new("1.0.0").unwrap() },
        discover: Discover {
            binary: name.to_string(),
            version_check: VersionCheck { args: vec![], pattern: r"(\d+)".to_string() },
        },
        install: vec![],
    }
}

fn strings(items: &[&str]) -> Vec<String> {
    items.iter().map(|s| s.to_string()).collect()
}

#[test]
fn join_puts_a_separator_between_directory_and_name() {
    assert_eq!(join_path("/usr/bin", "rg"), "/usr/bin/rg");
    assert_eq!(join_path("relative", "a/b"), "relative/a/b");
}

#[test]
fn join_adds_no_second_separator() {
    assert_eq!(join_path("/usr/bin/", "rg"), "/usr/bin/rg");
    assert_eq!(join_path("/", "rg"), "/rg");
}

#[test]
fn join_keeps_a_name_that_starts_at_the_root() {
    assert_eq!(join_path("/usr/bin", "/opt/rg"), "/opt/rg");
}

#[test]
fn join_to_the_empty_directory_is_the_name() {
    assert_eq!(join_path("", "rg"), "rg");
}

#[test]
fn join_of_the_empty_name_ends_in_a_separator() {
    assert_eq!(join_path("/usr/bin", ""), "/usr/bin/");
    assert_eq!(join_path("", ""), "");
}

#[test]
fn join_agrees_with_the_standard_library() {
    for (base, name) in [
        ("/usr/bin", "rg"),
        ("/usr/bin/", "rg"),
        ("/usr/bin", "/opt/rg"),
        ("", "rg"),
        ("/usr/bin", ""),
        ("a", "b/c"),
        ("/ä/ö", "ü"),
    ] {
        assert_eq!(
            join_path(base, name),
            std::path::Path::new(base).join(name).to_str().unwrap(),
            "joining {:?} and {:?}",
            base,
            name
        );
    }
}

#[test]
fn every_kind_of_file_has_its_directory() {
    let dirs = dirs();
    assert_eq!(dirs.path(DestinationDirectory::BinDir), "/home/user/.local/bin");
    assert_eq!(dirs.path(DestinationDirectory::ManDir), "/home/user/.local/share/man");
    assert_eq!(
        dirs.path(DestinationDirectory::CompletionDir),
        "/home/user/.config/fish/completions"
    );
    assert_eq!(dirs.bin_dir(), "/home/user/.local/bin");
    assert_eq!(dirs.man_dir(), "/home/user/.local/share/man");
    assert_eq!(dirs.completion_dir(), "/home/user/.config/fish/completions");
    assert_eq!(dirs.clone(), dirs);
}

#[test]
fn the_scratch_directory_is_named_after_the_manifest() {
    let project = HomebinProjectDirs { download_dir: "/home/user/.cache/homebins".to_string() };
    let ripgrep = ManifestOperationDirs::for_manifest(&project, &dirs(), &manifest("ripgrep"));
    let bat = ManifestOperationDirs::for_manifest(&project, &dirs(), &manifest("bat"));
    assert_eq!(ripgrep.download_dir(), "/home/user/.cache/homebins/ripgrep");
    assert_eq!(bat.download_dir(), "/home/user/.cache/homebins/bat");
    assert_eq!(ripgrep.install_dirs(), &dirs());
    assert_eq!(project.download_dir(), "/home/user/.cache/homebins");
}

#[test]
fn text_equal_compares_texts() {
    assert!(text_equal("", ""));
    assert!(text_equal("ä/b", "ä/b"));
    assert!(!text_equal("a", "b"));
    assert!(!text_equal("a", "ab"));
}

#[test]
fn path_contains_looks_for_the_whole_entry() {
    let path = strings(&["/usr/bin", "/home/user/.local/bin", "/bin"]);
    assert!(path_contains(&path, "/home/user/.local/bin"));
    assert!(path_contains(&path, "/bin"));
    assert!(!path_contains(&path, "/home/user/.local"));
    assert!(!path_contains(&path, "/usr/bin/"));
    assert!(!path_contains(&strings(&[]), "/bin"));
}

#[test]
fn environment_without_path_is_warned_about() {
    let manpath = strings(&["/home/user/.local/share/man"]);
    assert_eq!(check_environment(&dirs(), None, &manpath), vec![EnvironmentWarning::PathNotSet]);
}

#[test]
fn environment_with_both_directories_is_fine() {
    let path = strings(&["/usr/bin", "/home/user/.local/bin"]);
    let manpath = strings(&["/usr/share/man", "/home/user/.local/share/man"]);
    assert_eq!(check_environment(&dirs(), Some(&path), &manpath), vec![]);
}

#[test]
fn environment_lacking_both_directories_gets_both_warnings_in_order() {
    let path = strings(&["/usr/bin"]);
    let manpath = strings(&["/usr/share/man"]);
    assert_eq!(
        check_environment(&dirs(), Some(&path), &manpath),
        vec![EnvironmentWarning::BinDirNotInPath, EnvironmentWarning::ManDirNotInManpath]
    );
    assert_eq!(
        check_environment(&dirs(), None, &manpath),
        vec![EnvironmentWarning::PathNotSet, EnvironmentWarning::ManDirNotInManpath]
    );
}

#[test]
fn environment_lacking_the_man_directory_gets_one_warning() {
    let path = strings(&["/home/user/.local/bin"]);
    assert_eq!(
        check_environment(&dirs(), Some(&path), &strings(&[])),
        vec![EnvironmentWarning::ManDirNotInManpath]
    );
}

#[test]
fn checksum_is_part_of_what_a_manifest_declares() {
    assert_eq!(Checksum { sha256: vec![1] }, Checksum { sha256: vec![1] });
}

#[test]
fn clone_texts_copies_every_text_in_order() {
    let texts = strings(&["--version", "", "ä"]);
    assert_eq!(homebins::tools::clone_texts(&texts), texts);
    assert_eq!(homebins::tools::clone_texts(&strings(&[])), strings(&[]));
}
