//! Finding the version of an installed binary in what it prints.

use vstd::prelude::*;
use vstd::slice::slice_to_vec;
use vstd::utf8::{decode_utf8, valid_utf8};
use crate::error::{result_view, HomebinError, HomebinErrorView};
use crate::manifest::Manifest;
use crate::tools::{clone_texts, texts_view};
use crate::version::{is_version_text, version_text_precedes, version_view, Version};

verus! {

/// The error of `regex::Regex::new`.
#[verifier::external_type_specification]
#[verifier::external_body]
pub struct ExRegexError(regex::Error);

/// Whether `regex::Regex::new` accepts `pattern`: whether it is a regular
/// expression in the syntax of `regex` whose program stays within the size
/// limit that `regex` sets.
pub uninterp spec fn regex_compiles(pattern: Seq<char>) -> bool;

/// What the group `index` of `pattern` captures in the leftmost match of
/// `pattern` in `text`, as `regex::Regex::captures` and `regex::Captures::get`
/// find it: `None` where `pattern` does not match, has no such group, or
/// matches without that group taking part.
pub uninterp spec fn regex_group(pattern: Seq<char>, text: Seq<char>, index: usize) -> Option<
    Seq<char>,
>;

/// The value of a text that may be absent.
pub open spec fn text_view(text: Option<String>) -> Option<Seq<char>> {
    match text {
        Some(t) => Some(t@),
        None => None,
    }
}

/// Compiles `pattern` with `regex::Regex::new`, searches `text` with
/// `regex::Regex::captures` and copies out what `regex::Captures::get(index)`
/// holds.
///
/// Trusted: it fails exactly where the pattern does not compile, as
/// [`regex_compiles`] names it, and else returns what [`regex_group`] names.
#[verifier::external_body]
fn capture_group(pattern: &str, text: &str, index: usize) -> (captured: Result<
    Option<String>,
    regex::Error,
>)
    ensures
        captured is Ok <==> regex_compiles(pattern@),
        captured matches Ok(group) ==> text_view(group) == regex_group(pattern@, text@, index),
{
    let regex = regex::Regex::new(pattern)?;
    match regex.captures(text) {
        Some(captures) => match captures.get(index) {
            Some(group) => Ok(Some(group.as_str().to_owned())),
            None => Ok(None),
        },
        None => Ok(None),
    }
}

/// Decodes `bytes` with `std::str::from_utf8` and copies the text out.
///
/// Trusted: there is a text exactly where the bytes are UTF-8, and it is the
/// text that they encode.
#[verifier::external_body]
fn utf8_text(bytes: &[u8]) -> (text: Option<String>)
    ensures
        text is Some <==> valid_utf8(bytes@),
        text matches Some(t) ==> t@ == decode_utf8(bytes@),
{
    match std::str::from_utf8(bytes) {
        Ok(text) => Some(text.to_owned()),
        Err(_) => None,
    }
}

/// What came of running the installed binary of a manifest with the arguments
/// of its version check.
#[derive(Debug, PartialEq, Eq)]
pub enum ProbeOutcome {
    /// There is no such binary.
    Absent,
    /// The binary is there, but could not be run.
    NotRun,
    /// The binary ran and wrote these bytes to its standard output.
    Output(Vec<u8>),
}

/// The value of the result of a probe: the text of the version, or the error.
pub open spec fn version_result_view(result: Result<Option<Version>, HomebinError>) -> Result<
    Option<Seq<char>>,
    HomebinErrorView,
> {
    match result {
        Ok(version) => Ok(version_view(version)),
        Err(e) => Err(e@),
    }
}

/// The group of the version check pattern that captures the version: the
/// first one.
pub const VERSION_GROUP: usize = 1;

/// Whether the version check pattern of `manifest` is a regular expression,
/// and the error if it is none.
pub open spec fn check_pattern_spec(manifest: Manifest) -> Result<(), HomebinErrorView> {
    if regex_compiles(manifest.discover.version_check.pattern@) {
        Ok(())
    } else {
        Err(
            HomebinErrorView::InvalidPattern {
                name: manifest.info.name@,
                pattern: manifest.discover.version_check.pattern@,
            },
        )
    }
}

/// The version that a captured text stands for. No capture is no version; a
/// capture that is no version is an error.
pub open spec fn version_from_capture_spec(
    manifest: Manifest,
    command: Seq<char>,
    capture: Option<Seq<char>>,
) -> Result<Option<Seq<char>>, HomebinErrorView> {
    match capture {
        None => Ok(None),
        Some(text) => if is_version_text(text) {
            Ok(Some(text))
        } else {
            Err(
                HomebinErrorView::VersionParseError {
                    command,
                    args: texts_view(manifest.discover.version_check.args@),
                    text,
                },
            )
        },
    }
}

/// The version that the version check pattern of `manifest` finds in the
/// output of `command`. A pattern that does not compile is an error whatever
/// the output is; output that is no UTF-8 is an error; output that the
/// pattern does not match holds no version; else the version is what the
/// first group of the pattern captures in the leftmost match.
pub open spec fn version_from_output_spec(
    manifest: Manifest,
    command: Seq<char>,
    output: Seq<u8>,
) -> Result<Option<Seq<char>>, HomebinErrorView> {
    match check_pattern_spec(manifest) {
        Err(e) => Err(e),
        Ok(_) => if !valid_utf8(output) {
            Err(
                HomebinErrorView::NonUtf8Output {
                    command,
                    args: texts_view(manifest.discover.version_check.args@),
                    output,
                },
            )
        } else {
            version_from_capture_spec(
                manifest,
                command,
                regex_group(
                    manifest.discover.version_check.pattern@,
                    decode_utf8(output),
                    VERSION_GROUP,
                ),
            )
        },
    }
}

/// The installed version of `manifest` that a probe of `command` shows. A
/// pattern that does not compile is an error whatever came of the probe, also
/// where there is no binary. With a pattern that compiles, no binary is no
/// version, and a binary that could not be run is an error.
pub open spec fn version_from_probe_spec(
    manifest: Manifest,
    command: Seq<char>,
    outcome: ProbeOutcome,
) -> Result<Option<Seq<char>>, HomebinErrorView> {
    match check_pattern_spec(manifest) {
        Err(e) => Err(e),
        Ok(_) => match outcome {
            ProbeOutcome::Absent => Ok(None),
            ProbeOutcome::NotRun => Err(
                HomebinErrorView::ProcessError {
                    command,
                    args: texts_view(manifest.discover.version_check.args@),
                },
            ),
            ProbeOutcome::Output(output) => version_from_output_spec(manifest, command, output@),
        },
    }
}

/// The installed version if it is older than the declared one.
pub open spec fn outdated_spec(installed: Option<Seq<char>>, declared: Seq<char>) -> Option<
    Seq<char>,
> {
    match installed {
        Some(version) => if version_text_precedes(version, declared) {
            Some(version)
        } else {
            None
        },
        None => None,
    }
}

/// Checks the version check pattern of `manifest`: it fails exactly where the
/// pattern is no regular expression. Nothing needs to be run for it.
pub fn check_pattern(manifest: &Manifest) -> (result: Result<(), HomebinError>)
    ensures
        result_view(result) == check_pattern_spec(*manifest),
{
    match capture_group(manifest.discover.version_check.pattern.as_str(), "", VERSION_GROUP) {
        Ok(_) => Ok(()),
        Err(_) => Err(
            HomebinError::InvalidPattern {
                name: manifest.info.name.clone(),
                pattern: manifest.discover.version_check.pattern.clone(),
            },
        ),
    }
}

/// Turns what the pattern of `manifest` captured in the output of `command`
/// into a version.
pub fn version_from_capture(manifest: &Manifest, command: &str, capture: Option<String>) -> (result:
    Result<Option<Version>, HomebinError>)
    ensures
        version_result_view(result) == version_from_capture_spec(
            *manifest,
            command@,
            text_view(capture),
        ),
{
    match capture {
        None => Ok(None),
        Some(text) => match Version::new(text.as_str()) {
            Some(version) => Ok(Some(version)),
            None => Err(
                HomebinError::VersionParseError {
                    command: command.to_owned(),
                    args: clone_texts(&manifest.discover.version_check.args),
                    text,
                },
            ),
        },
    }
}

/// Finds the version that the pattern of `manifest` captures in the output of
/// `command`.
pub fn version_from_output(manifest: &Manifest, command: &str, output: &[u8]) -> (result: Result<
    Option<Version>,
    HomebinError,
>)
    ensures
        version_result_view(result) == version_from_output_spec(*manifest, command@, output@),
{
    match check_pattern(manifest) {
        Err(e) => Err(e),
        Ok(_) => match utf8_text(output) {
            None => Err(
                HomebinError::NonUtf8Output {
                    command: command.to_owned(),
                    args: clone_texts(&manifest.discover.version_check.args),
                    output: slice_to_vec(output),
                },
            ),
            Some(text) => match capture_group(
                manifest.discover.version_check.pattern.as_str(),
                text.as_str(),
                VERSION_GROUP,
            ) {
                Ok(capture) => version_from_capture(manifest, command, capture),
                Err(_) => Err(
                    HomebinError::InvalidPattern {
                        name: manifest.info.name.clone(),
                        pattern: manifest.discover.version_check.pattern.clone(),
                    },
                ),
            },
        },
    }
}

/// Finds the installed version of `manifest` in the outcome of a probe of
/// `command`.
pub fn version_from_probe(manifest: &Manifest, command: &str, outcome: &ProbeOutcome) -> (result:
    Result<Option<Version>, HomebinError>)
    ensures
        version_result_view(result) == version_from_probe_spec(*manifest, command@, *outcome),
{
    match check_pattern(manifest) {
        Err(e) => Err(e),
        Ok(_) => match outcome {
            ProbeOutcome::Absent => Ok(None),
            ProbeOutcome::NotRun => Err(
                HomebinError::ProcessError {
                    command: command.to_owned(),
                    args: clone_texts(&manifest.discover.version_check.args),
                },
            ),
            ProbeOutcome::Output(output) => version_from_output(
                manifest,
                command,
                output.as_slice(),
            ),
        },
    }
}

/// Keeps the installed version if it is strictly older than the declared one.
///
/// Nothing is kept where nothing is installed, and where what is installed is
/// as new as the declared version or newer.
pub fn outdated(installed: Option<Version>, declared: &Version) -> (outdated: Option<Version>)
    ensures
        version_view(outdated) == outdated_spec(version_view(installed), declared@),
{
    match installed {
        Some(version) => if version.precedes(declared) {
            Some(version)
        } else {
            None
        },
        None => None,
    }
}

} // verus!
