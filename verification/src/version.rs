//! Versions of installed and declared binaries.
//!
//! Parsing and ordering are those of the `versions` crate; a [`Version`] keeps
//! the text it was parsed from.

use vstd::prelude::*;

verus! {

/// Whether `versions::Versioning::new` accepts `text`, that is, whether `text`
/// reads as a semantic version, as a general version or as a complex one.
pub uninterp spec fn is_version_text(text: Seq<char>) -> bool;

/// Whether `versions::Versioning::new(a)` is less than
/// `versions::Versioning::new(b)`, both taken as `Option`s. For two texts that
/// are versions this is the order that `versions` gives to the versions.
pub uninterp spec fn version_text_precedes(a: Seq<char>, b: Seq<char>) -> bool;

/// Calls `versions::Versioning::new` and tells whether it returned a version.
///
/// Trusted: the result is what [`is_version_text`] names.
#[verifier::external_body]
fn versioning_accepts(text: &str) -> (accepted: bool)
    ensures
        accepted == is_version_text(text@),
{
    versions::Versioning::new(text).is_some()
}

/// Parses both texts with `versions::Versioning::new` and compares the results
/// with `<`, the order of `Option<Versioning>`.
///
/// Trusted: the result is what [`version_text_precedes`] names.
#[verifier::external_body]
fn versioning_precedes(a: &str, b: &str) -> (precedes: bool)
    ensures
        precedes == version_text_precedes(a@, b@),
{
    versions::Versioning::new(a) < versions::Versioning::new(b)
}

/// A version: a text that `versions` accepts.
///
/// `==` compares the texts; [`Version::precedes`] compares the versions.
#[derive(Debug, PartialEq, Eq)]
pub struct Version {
    text: String,
}

impl View for Version {
    type V = Seq<char>;

    /// The text of the version.
    closed spec fn view(&self) -> Seq<char> {
        self.text@
    }
}

impl Version {
    #[verifier::type_invariant]
    spec fn well_formed(self) -> bool {
        is_version_text(self.text@)
    }

    /// Parses `text` as a version; `None` if it is none.
    pub fn new(text: &str) -> (version: Option<Version>)
        ensures
            version is Some <==> is_version_text(text@),
            version is Some ==> version.unwrap()@ == text@,
    {
        if versioning_accepts(text) {
            Some(Version { text: text.to_owned() })
        } else {
            None
        }
    }

    /// The text of the version.
    pub fn as_str(&self) -> (text: &str)
        ensures
            text@ == self@,
            is_version_text(text@),
    {
        proof {
            use_type_invariant(self);
        }
        self.text.as_str()
    }

    /// Whether this version is strictly older than `other`.
    pub fn precedes(&self, other: &Version) -> (precedes: bool)
        ensures
            precedes == version_text_precedes(self@, other@),
    {
        versioning_precedes(self.text.as_str(), other.text.as_str())
    }
}

impl Clone for Version {
    fn clone(&self) -> (copy: Version)
        ensures
            copy@ == self@,
    {
        proof {
            use_type_invariant(self);
        }
        Version { text: self.text.clone() }
    }
}

/// The text of a version that may be absent.
pub open spec fn version_view(version: Option<Version>) -> Option<Seq<char>> {
    match version {
        Some(v) => Some(v@),
        None => None,
    }
}

} // verus!
