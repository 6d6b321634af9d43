//! The edge of what is proved: the functions and types of other crates and of
//! the standard library that the rest builds on, with what is taken as known
//! about each.

use std::path::PathBuf;

use vstd::prelude::*;
use vstd::utf8::{decode_utf8, valid_utf8};

use crate::precedence::version_le;
use crate::version::{fits, version_text, Version, VersionView};

verus! {

/// Declares `std::path::PathBuf`: a path is carried from place to place and
/// never looked into.
#[verifier::external_type_specification]
#[verifier::external_body]
pub struct ExPathBuf(std::path::PathBuf);

/// `PathBuf::clone`: the copy is the same path.
pub assume_specification[ <PathBuf as Clone>::clone ](path: &PathBuf) -> (res: PathBuf)
    ensures
        res == *path,
;

/// Appends `c` to the end of the string: `String::push`.
pub assume_specification[ String::push ](s: &mut String, c: char)
    ensures
        final(s)@ == old(s)@.push(c),
;

/// What `String::from_utf8_lossy` makes of bytes.
pub uninterp spec fn utf8_lossy(bytes: Seq<u8>) -> Seq<char>;

/// The message of the error with which `semver::Version::parse` refuses a text.
pub uninterp spec fn refusal(text: Seq<char>) -> Seq<char>;

/// `semver::Version::parse`: succeeds exactly on the texts of well-formed
/// versions, with the version whose text it is. Of the error that it gives on any
/// other text the message is kept, which has a name only. It panics on tags longer
/// than [`crate::version::max_text`].
#[verifier::external_body]
pub(crate) fn parse_version(text: &str) -> (res: Result<Version, String>)
    requires
        fits(text@),
    ensures
        res matches Ok(v) ==> v@.valid() && version_text(v@) == text@,
        forall|v: VersionView| v.valid() && #[trigger] version_text(v) == text@ ==> res is Ok,
        res matches Err(message) ==> message@ == refusal(text@),
{
    match semver::Version::parse(text) {
        Ok(v) => Ok(
            Version {
                major: v.major,
                minor: v.minor,
                patch: v.patch,
                pre: v.pre.as_str().to_string(),
                build: v.build.as_str().to_string(),
            },
        ),
        Err(e) => Err(e.to_string()),
    }
}

/// `semver::Version::to_string`: the three numbers with dots between them,
/// then the pre-release tag behind a hyphen and the build tag behind a plus
/// sign, each where it is not empty.
#[verifier::external_body]
pub(crate) fn show_version(v: &Version) -> (res: String)
    requires
        v@.valid(),
    ensures
        res@ == version_text(v@),
{
    let pre = semver::Prerelease::new(&v.pre).unwrap();
    let build = semver::BuildMetadata::new(&v.build).unwrap();
    semver::Version { major: v.major, minor: v.minor, patch: v.patch, pre, build }.to_string()
}

/// `<=` on `semver::Version`: by the three numbers, then by the pre-release
/// tags, with a pre-release before its release, then by the build tags. Tags are
/// compared segment by segment, numbers as numbers and before words.
#[verifier::external_body]
pub(crate) fn version_at_most(a: &Version, b: &Version) -> (res: bool)
    requires
        a@.valid(),
        b@.valid(),
    ensures
        res == version_le(a@, b@),
{
    let pre_a = semver::Prerelease::new(&a.pre).unwrap();
    let build_a = semver::BuildMetadata::new(&a.build).unwrap();
    let pre_b = semver::Prerelease::new(&b.pre).unwrap();
    let build_b = semver::BuildMetadata::new(&b.build).unwrap();
    semver::Version { major: a.major, minor: a.minor, patch: a.patch, pre: pre_a, build: build_a }
        <= semver::Version { major: b.major, minor: b.minor, patch: b.patch, pre: pre_b, build: build_b }
}

/// `String::from_utf8_lossy`: bytes that are UTF-8 become the characters they
/// encode. What stands for other bytes has a name only.
#[verifier::external_body]
pub(crate) fn lossy_text(bytes: &[u8]) -> (res: String)
    ensures
        res@ == utf8_lossy(bytes@),
        valid_utf8(bytes@) ==> res@ == decode_utf8(bytes@),
{
    String::from_utf8_lossy(bytes).into_owned()
}

/// `std::str::from_utf8`: succeeds exactly on UTF-8, with the characters that
/// the bytes encode.
#[verifier::external_body]
pub(crate) fn strict_text(bytes: &[u8]) -> (res: Option<String>)
    ensures
        res is Some == valid_utf8(bytes@),
        res matches Some(text) ==> text@ == decode_utf8(bytes@),
{
    match std::str::from_utf8(bytes) {
        Ok(text) => Some(text.to_string()),
        Err(_) => None,
    }
}

} // verus!
