use homebins::checksum::Checksum;
use homebins::manifest::{Discover, Info, Install, InstallDownload, Manifest, Target, VersionCheck};
use homebins::probe::{
    check_pattern, outdated, version_from_capture, version_from_output, version_from_probe,
    VERSION_GROUP,
};
use homebins::{
    installed_binary, installed_manifest_version, outdated_manifest_version, HomebinError,
    InstallDirs, ProbeOutcome, Version,
};

const BINARY: &str = "/home/user/.local/bin/tool";
const PATTERN: &str = r"v(\d+\.\d+\.\d+)";

fn dirs() -> InstallDirs {
    InstallDirs {
        bin_dir: "/home/user/.local/bin".to_string(),
        man_dir: "/home/user/.local/share/man".to_string(),
        completion_dir: "/home/user/.config/fish/completions".to_string(),
    }
}

fn args() -> Vec<String> {
    vec!["--version".to_string(), "--short".to_string()]
}

fn manifest(version: &str, pattern: &str) -> Manifest {
    Manifest {
        info: Info { name: "tool".to_string(), version: Version::new(version).unwrap() },
        discover: Discover {
            binary: "tool".to_string(),
            version_check: VersionCheck { args: args(), pattern: pattern.to_string() },
        },
        install: vec![InstallDownload {
            download: "https://example.com/tool".to_string(),
            filename: "tool".to_string(),
            checksum: Checksum { sha256: vec![0; 32] },
            install: Install::SingleFile { name: "tool".to_string(), target: Target::Binary },
        }],
    }
}

fn output(text: &str) -> ProbeOutcome {
    ProbeOutcome::Output(text.as_bytes().to_vec())
}

fn installed(version: &str, stdout: &str) -> Result<Option<Version>, HomebinError> {
    installed_manifest_version(&dirs(), &manifest(version, PATTERN), &output(stdout))
}

fn invalid_pattern() -> HomebinError {
    HomebinError::InvalidPattern { name: "tool".to_string(), pattern: "v(".to_string() }
}

#[test]
fn installed_binary_lies_in_the_bin_dir() {
    assert_eq!(installed_binary(&dirs(), &manifest("1.0.0", "x")), BINARY);
}

#[test]
fn probe_reads_the_version_from_the_output() {
    let version = installed("2.0.0", "tool v1.2.3\n").unwrap().unwrap();
    assert_eq!(version.as_str(), "1.2.3");
    assert_eq!(version, Version::new("1.2.3").unwrap());
}

#[test]
fn probe_finds_no_version_in_output_that_does_not_match() {
    assert_eq!(installed("2.0.0", "tool (unknown)"), Ok(None));
}

#[test]
fn probe_takes_the_leftmost_match() {
    let version = installed("2.0.0", "tool v1.2.3 (lib v9.9.9)\n").unwrap().unwrap();
    assert_eq!(version.as_str(), "1.2.3");
}

#[test]
fn probe_takes_the_first_group() {
    assert_eq!(VERSION_GROUP, 1);
    let manifest = manifest("2.0.0", r"(\d+\.\d+\.\d+) v(\d+\.\d+\.\d+)");
    let version =
        installed_manifest_version(&dirs(), &manifest, &output("1.0.0 v1.2.3\n")).unwrap().unwrap();
    assert_eq!(version.as_str(), "1.0.0");
}

#[test]
fn probe_finds_no_version_where_the_binary_is_absent() {
    let manifest = manifest("2.0.0", PATTERN);
    assert_eq!(installed_manifest_version(&dirs(), &manifest, &ProbeOutcome::Absent), Ok(None));
}

#[test]
fn probe_of_an_absent_binary_fails_on_a_bad_pattern() {
    let manifest = manifest("2.0.0", "v(");
    assert_eq!(
        installed_manifest_version(&dirs(), &manifest, &ProbeOutcome::Absent),
        Err(invalid_pattern())
    );
}

#[test]
fn probe_of_a_binary_that_could_not_be_run_fails_on_a_bad_pattern() {
    let manifest = manifest("2.0.0", "v(");
    assert_eq!(
        installed_manifest_version(&dirs(), &manifest, &ProbeOutcome::NotRun),
        Err(invalid_pattern())
    );
}

#[test]
fn probe_fails_where_the_binary_could_not_be_run() {
    let manifest = manifest("2.0.0", PATTERN);
    assert_eq!(
        installed_manifest_version(&dirs(), &manifest, &ProbeOutcome::NotRun),
        Err(HomebinError::ProcessError { command: BINARY.to_string(), args: args() })
    );
}

#[test]
fn probe_fails_on_a_pattern_that_is_no_regular_expression() {
    let manifest = manifest("2.0.0", "v(");
    assert_eq!(
        installed_manifest_version(&dirs(), &manifest, &output("tool v1.2.3\n")),
        Err(invalid_pattern())
    );
}

#[test]
fn probe_reports_the_pattern_before_the_encoding() {
    let manifest = manifest("2.0.0", "v(");
    assert_eq!(
        installed_manifest_version(&dirs(), &manifest, &ProbeOutcome::Output(vec![0xff, 0xfe])),
        Err(invalid_pattern())
    );
}

#[test]
fn probe_fails_on_output_that_is_no_utf8() {
    let manifest = manifest("2.0.0", PATTERN);
    assert_eq!(
        installed_manifest_version(&dirs(), &manifest, &ProbeOutcome::Output(vec![b'v', 0xff, 0xfe])),
        Err(HomebinError::NonUtf8Output {
            command: BINARY.to_string(),
            args: args(),
            output: vec![b'v', 0xff, 0xfe],
        })
    );
}

#[test]
fn probe_decodes_output_beyond_ascii() {
    let manifest = manifest("2.0.0", r"→ (\d+\.\d+\.\d+)");
    let version =
        installed_manifest_version(&dirs(), &manifest, &output("tööl → 3.4.5\n")).unwrap().unwrap();
    assert_eq!(version.as_str(), "3.4.5");
}

#[test]
fn probe_fails_on_a_capture_that_is_no_version() {
    let manifest = manifest("2.0.0", r"version: (.*)");
    assert_eq!(
        installed_manifest_version(&dirs(), &manifest, &output("version: ???")),
        Err(HomebinError::VersionParseError {
            command: BINARY.to_string(),
            args: args(),
            text: "???".to_string(),
        })
    );
}

#[test]
fn probe_fails_on_an_empty_capture() {
    let manifest = manifest("2.0.0", r"version: (.*)");
    assert_eq!(
        installed_manifest_version(&dirs(), &manifest, &output("version: ")),
        Err(HomebinError::VersionParseError {
            command: BINARY.to_string(),
            args: args(),
            text: "".to_string(),
        })
    );
}

#[test]
fn probe_finds_no_version_with_a_pattern_without_group() {
    let manifest = manifest("2.0.0", r"v\d+\.\d+\.\d+");
    assert_eq!(installed_manifest_version(&dirs(), &manifest, &output("tool v1.2.3\n")), Ok(None));
}

#[test]
fn probe_finds_no_version_where_the_group_takes_no_part() {
    let manifest = manifest("2.0.0", r"tool(?: v(\d+\.\d+\.\d+))?");
    assert_eq!(installed_manifest_version(&dirs(), &manifest, &output("tool\n")), Ok(None));
}

#[test]
fn probe_returns_long_versions() {
    let long = format!("1.2.3-{}", "a".repeat(1000));
    let manifest = manifest("2.0.0", r"version: (.*)");
    let version = installed_manifest_version(&dirs(), &manifest, &output(&format!("version: {}", long)))
        .unwrap()
        .unwrap();
    assert_eq!(version.as_str(), long);
    assert_eq!(Version::new(&long).unwrap().as_str(), long);
}

#[test]
fn check_pattern_fails_exactly_on_a_bad_pattern() {
    assert_eq!(check_pattern(&manifest("1.0.0", PATTERN)), Ok(()));
    assert_eq!(check_pattern(&manifest("1.0.0", "")), Ok(()));
    assert_eq!(check_pattern(&manifest("1.0.0", "no group")), Ok(()));
    assert_eq!(check_pattern(&manifest("1.0.0", "v(")), Err(invalid_pattern()));
    assert_eq!(
        check_pattern(&manifest("1.0.0", r"(\d+")),
        Err(HomebinError::InvalidPattern { name: "tool".to_string(), pattern: r"(\d+".to_string() })
    );
}

#[test]
fn version_from_probe_names_the_command_it_is_given() {
    assert_eq!(
        version_from_probe(&manifest("1.0.0", PATTERN), "/bin/x", &ProbeOutcome::NotRun),
        Err(HomebinError::ProcessError { command: "/bin/x".to_string(), args: args() })
    );
    assert_eq!(
        version_from_probe(&manifest("1.0.0", PATTERN), "/bin/x", &ProbeOutcome::Absent),
        Ok(None)
    );
    assert_eq!(
        version_from_probe(&manifest("1.0.0", "v("), "/bin/x", &ProbeOutcome::Absent),
        Err(invalid_pattern())
    );
}

#[test]
fn version_from_output_names_the_command() {
    assert_eq!(
        version_from_output(&manifest("1.0.0", r"(\S+)"), "/bin/x", b"???"),
        Err(HomebinError::VersionParseError {
            command: "/bin/x".to_string(),
            args: args(),
            text: "???".to_string()
        })
    );
    assert_eq!(
        version_from_output(&manifest("1.0.0", r"(\d+\.\d+)"), "/bin/x", b"x 1.5")
            .map(|v| v.map(|v| v.as_str().to_string())),
        Ok(Some("1.5".to_string()))
    );
    assert_eq!(
        version_from_output(&manifest("1.0.0", "v("), "/bin/x", b"v1.5"),
        Err(invalid_pattern())
    );
}

#[test]
fn version_from_capture_covers_all_three_cases() {
    let manifest = manifest("1.0.0", PATTERN);
    assert_eq!(version_from_capture(&manifest, "/bin/x", None), Ok(None));
    assert_eq!(
        version_from_capture(&manifest, "/bin/x", Some("0.3.1-rc1".to_string())),
        Ok(Some(Version::new("0.3.1-rc1").unwrap()))
    );
    assert_eq!(
        version_from_capture(&manifest, "/bin/x", Some("".to_string())),
        Err(HomebinError::VersionParseError {
            command: "/bin/x".to_string(),
            args: args(),
            text: "".to_string()
        })
    );
}

#[test]
fn outdated_returns_an_older_installed_version() {
    let result = outdated_manifest_version(&dirs(), &manifest("2.0.0", PATTERN), &output("tool v1.9.0\n"));
    assert_eq!(result, Ok(Some(Version::new("1.9.0").unwrap())));
}

#[test]
fn outdated_returns_nothing_for_the_declared_version() {
    let result = outdated_manifest_version(&dirs(), &manifest("2.0.0", PATTERN), &output("tool v2.0.0\n"));
    assert_eq!(result, Ok(None));
}

#[test]
fn outdated_returns_nothing_for_a_newer_version() {
    let result = outdated_manifest_version(&dirs(), &manifest("2.0.0", PATTERN), &output("tool v2.1.0\n"));
    assert_eq!(result, Ok(None));
}

#[test]
fn outdated_returns_nothing_where_nothing_is_installed() {
    let manifest = manifest("2.0.0", PATTERN);
    assert_eq!(outdated_manifest_version(&dirs(), &manifest, &ProbeOutcome::Absent), Ok(None));
    assert_eq!(outdated_manifest_version(&dirs(), &manifest, &output("tool (unknown)")), Ok(None));
}

#[test]
fn outdated_passes_errors_on() {
    let good = manifest("2.0.0", PATTERN);
    assert_eq!(
        outdated_manifest_version(&dirs(), &good, &ProbeOutcome::NotRun),
        Err(HomebinError::ProcessError { command: BINARY.to_string(), args: args() })
    );
    assert_eq!(
        outdated_manifest_version(&dirs(), &manifest("2.0.0", "v("), &ProbeOutcome::Absent),
        Err(invalid_pattern())
    );
}

#[test]
fn outdated_compares_numbers_not_texts() {
    let declared = Version::new("1.10.0").unwrap();
    assert_eq!(outdated(Version::new("1.9.0"), &declared), Some(Version::new("1.9.0").unwrap()));
    assert_eq!(outdated(Version::new("1.10.0"), &declared), None);
    assert_eq!(outdated(Version::new("1.11.0"), &declared), None);
    assert_eq!(outdated(None, &declared), None);
}

#[test]
fn versions_are_ordered_as_versions() {
    let old = Version::new("1.9.0").unwrap();
    let new = Version::new("1.10.0").unwrap();
    assert!(old.precedes(&new));
    assert!(!new.precedes(&old));
    assert!(!old.precedes(&old));
    assert!(Version::new("1.0.0-rc1").unwrap().precedes(&Version::new("1.0.0").unwrap()));
}

#[test]
fn versions_keep_their_text() {
    assert_eq!(Version::new("1.2.3-r1+git123").unwrap().as_str(), "1.2.3-r1+git123");
    assert_eq!(Version::new("1.2.3").unwrap().clone().as_str(), "1.2.3");
}

#[test]
fn texts_that_are_no_versions_are_refused() {
    assert_eq!(Version::new(""), None);
    assert_eq!(Version::new("???"), None);
    assert_eq!(Version::new("1.2.3 "), None);
}
