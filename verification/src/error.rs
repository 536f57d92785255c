//! The ways in which installing, removing or probing can fail.

use vstd::prelude::*;
use crate::tools::texts_view;

verus! {

/// Why an install, a removal or a version probe was aborted.
///
/// Every variant carries what the failure is about: the path, the address,
/// the digests, the manifest and its pattern, or the command with its
/// arguments.
#[derive(Debug, PartialEq, Eq)]
pub enum HomebinError {
    /// A file that an operation reads is missing at `path`.
    IoError { path: String },
    /// Nothing could be fetched from `url`.
    NetworkError { url: String },
    /// A fetched artifact has the digest `actual` where `expected` was declared.
    ChecksumMismatch { expected: Vec<u8>, actual: Vec<u8> },
    /// The version check pattern of the manifest `name` is no regular expression.
    InvalidPattern { name: String, pattern: String },
    /// The installed binary at `command` could not be run with `args`.
    ProcessError { command: String, args: Vec<String> },
    /// The installed binary at `command`, run with `args`, printed `output`,
    /// which is no UTF-8.
    NonUtf8Output { command: String, args: Vec<String>, output: Vec<u8> },
    /// The installed binary at `command`, run with `args`, printed `text`
    /// where a version was expected.
    VersionParseError { command: String, args: Vec<String>, text: String },
}

/// The mathematical value of an [`HomebinError`].
pub enum HomebinErrorView {
    IoError { path: Seq<char> },
    NetworkError { url: Seq<char> },
    ChecksumMismatch { expected: Seq<u8>, actual: Seq<u8> },
    InvalidPattern { name: Seq<char>, pattern: Seq<char> },
    ProcessError { command: Seq<char>, args: Seq<Seq<char>> },
    NonUtf8Output { command: Seq<char>, args: Seq<Seq<char>>, output: Seq<u8> },
    VersionParseError { command: Seq<char>, args: Seq<Seq<char>>, text: Seq<char> },
}

impl View for HomebinError {
    type V = HomebinErrorView;

    open spec fn view(&self) -> HomebinErrorView {
        match self {
            HomebinError::IoError { path } => HomebinErrorView::IoError { path: path@ },
            HomebinError::NetworkError { url } => HomebinErrorView::NetworkError { url: url@ },
            HomebinError::ChecksumMismatch { expected, actual } => HomebinErrorView::ChecksumMismatch {
                expected: expected@,
                actual: actual@,
            },
            HomebinError::InvalidPattern { name, pattern } => HomebinErrorView::InvalidPattern {
                name: name@,
                pattern: pattern@,
            },
            HomebinError::ProcessError { command, args } => HomebinErrorView::ProcessError {
                command: command@,
                args: texts_view(args@),
            },
            HomebinError::NonUtf8Output {
                command,
                args,
                output,
            } => HomebinErrorView::NonUtf8Output {
                command: command@,
                args: texts_view(args@),
                output: output@,
            },
            HomebinError::VersionParseError {
                command,
                args,
                text,
            } => HomebinErrorView::VersionParseError {
                command: command@,
                args: texts_view(args@),
                text: text@,
            },
        }
    }
}

/// The value of the result of something that gives nothing but may fail.
pub open spec fn result_view(result: Result<(), HomebinError>) -> Result<(), HomebinErrorView> {
    match result {
        Ok(_) => Ok(()),
        Err(e) => Err(e@),
    }
}

} // verus!
