//! What lies outside the directory tree: what the addresses of downloads serve
//! and what archives hold.

use vstd::prelude::*;
use crate::tools::{bytes_equal, text_equal};

verus! {

/// A member of an archive.
#[derive(Debug, PartialEq, Eq)]
pub struct Member {
    /// The path of the member within the archive.
    pub name: String,
    /// The content of the member.
    pub content: Vec<u8>,
}

/// What an address serves, and the members in it if it is an archive.
#[derive(Debug, PartialEq, Eq)]
pub struct Artifact {
    /// The address.
    pub url: String,
    /// What the address serves.
    pub content: Vec<u8>,
    /// The members of `content`, if it is an archive.
    pub members: Vec<Member>,
}

/// The content of the first of `members` that is called `name`.
pub open spec fn member_spec(members: Seq<Member>, name: Seq<char>) -> Option<Seq<u8>>
    decreases members.len(),
{
    if members.len() == 0 {
        None
    } else if members[0].name@ == name {
        Some(members[0].content@)
    } else {
        member_spec(members.skip(1), name)
    }
}

/// What `url` serves: the content of the first of `artifacts` with that
/// address. An address that no artifact has serves nothing.
pub open spec fn fetched_spec(artifacts: Seq<Artifact>, url: Seq<char>) -> Option<Seq<u8>>
    decreases artifacts.len(),
{
    if artifacts.len() == 0 {
        None
    } else if artifacts[0].url@ == url {
        Some(artifacts[0].content@)
    } else {
        fetched_spec(artifacts.skip(1), url)
    }
}

/// The content of the member `member` of the archive `archive`: the members
/// of an archive are those of the first of `artifacts` with that content.
pub open spec fn extracted_spec(
    artifacts: Seq<Artifact>,
    archive: Seq<u8>,
    member: Seq<char>,
) -> Option<Seq<u8>>
    decreases artifacts.len(),
{
    if artifacts.len() == 0 {
        None
    } else if artifacts[0].content@ == archive {
        member_spec(artifacts[0].members@, member)
    } else {
        extracted_spec(artifacts.skip(1), archive, member)
    }
}

/// The value of bytes that may be absent.
pub open spec fn bytes_view(bytes: Option<&Vec<u8>>) -> Option<Seq<u8>> {
    match bytes {
        Some(b) => Some(b@),
        None => None,
    }
}

/// Finds the member called `name` among `members`.
pub fn find_member<'a>(members: &'a Vec<Member>, name: &str) -> (content: Option<&'a Vec<u8>>)
    ensures
        bytes_view(content) == member_spec(members@, name@),
{
    let mut i: usize = 0;
    assert(members@.skip(0) =~= members@);
    while i < members.len()
        invariant
            i <= members.len(),
            member_spec(members@, name@) == member_spec(members@.skip(i as int), name@),
        decreases members.len() - i,
    {
        if text_equal(members[i].name.as_str(), name) {
            return Some(&members[i].content);
        }
        assert(members@.skip(i as int).skip(1) =~= members@.skip(i as int + 1));
        i += 1;
    }
    None
}

/// Fetches what `url` serves.
pub fn fetched<'a>(artifacts: &'a Vec<Artifact>, url: &str) -> (content: Option<&'a Vec<u8>>)
    ensures
        bytes_view(content) == fetched_spec(artifacts@, url@),
{
    let mut i: usize = 0;
    assert(artifacts@.skip(0) =~= artifacts@);
    while i < artifacts.len()
        invariant
            i <= artifacts.len(),
            fetched_spec(artifacts@, url@) == fetched_spec(artifacts@.skip(i as int), url@),
        decreases artifacts.len() - i,
    {
        if text_equal(artifacts[i].url.as_str(), url) {
            return Some(&artifacts[i].content);
        }
        assert(artifacts@.skip(i as int).skip(1) =~= artifacts@.skip(i as int + 1));
        i += 1;
    }
    None
}

/// Extracts the member `member` from the archive `archive`.
pub fn extracted<'a>(artifacts: &'a Vec<Artifact>, archive: &[u8], member: &str) -> (content:
    Option<&'a Vec<u8>>)
    ensures
        bytes_view(content) == extracted_spec(artifacts@, archive@, member@),
{
    let mut i: usize = 0;
    assert(artifacts@.skip(0) =~= artifacts@);
    while i < artifacts.len()
        invariant
            i <= artifacts.len(),
            extracted_spec(artifacts@, archive@, member@) == extracted_spec(
                artifacts@.skip(i as int),
                archive@,
                member@,
            ),
        decreases artifacts.len() - i,
    {
        if bytes_equal(artifacts[i].content.as_slice(), archive) {
            return find_member(&artifacts[i].members, member);
        }
        assert(artifacts@.skip(i as int).skip(1) =~= artifacts@.skip(i as int + 1));
        i += 1;
    }
    None
}

} // verus!
