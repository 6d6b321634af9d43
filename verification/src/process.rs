//! What the compiler processes are called with and what is read from what they
//! print.

use std::path::PathBuf;

use vstd::prelude::*;
use vstd::utf8::{decode_utf8, valid_utf8};

use crate::error::{ExitStatus, SolcError};
use crate::outside::{lossy_text, refusal, utf8_lossy};
use crate::paths::texts;
use crate::text::{
    chars, contains, drop_blank, drop_leading, has_text, lines, non_blank, occurs_at, replace,
    replaced, split_lines, split_words, stands_at, string, trim, trim_start_matches, trimmed,
    views, words,
};
use crate::version::{fits, parsed, Version, VersionView};

verus! {

/// A program and the arguments that it is run with.
#[derive(Debug)]
pub struct CommandLine {
    pub program: PathBuf,
    pub args: Vec<String>,
}

/// How a process ended and what it printed.
#[derive(Debug)]
pub struct Output {
    pub status: ExitStatus,
    pub stdout: Vec<u8>,
    pub stderr: Vec<u8>,
}

/// The versions that a Solidity compiler reports.
#[derive(Debug, PartialEq, Eq)]
pub struct SolcVersionInfo {
    /// The solc compiler version (e.g: 0.8.20)
    pub version: Version,
    /// The full revive solc compiler version (e.g: 0.8.20-1.0.1)
    pub revive_version: Option<Version>,
}

/// The text of `bytes`: the characters that they encode where they are UTF-8,
/// with replacement characters where they are not.
pub open spec fn text_of(bytes: Seq<u8>) -> Seq<char> {
    if valid_utf8(bytes) {
        decode_utf8(bytes)
    } else {
        utf8_lossy(bytes)
    }
}

/// What is shown of a failed process that printed these texts.
pub open spec fn failure_text(stderr: Seq<char>, stdout: Seq<char>) -> Seq<char> {
    if trim(stderr).len() > 0 {
        trim(stderr)
    } else if trim(stdout).len() > 0 {
        trim(stdout)
    } else {
        "<empty output>"@
    }
}

impl Output {
    /// Whether `e` is the error for this failed process.
    pub open spec fn fails_with(self, e: SolcError) -> bool {
        e.is_failure(self.status, failure_text(text_of(self.stderr@), text_of(self.stdout@)))
    }
}

/// The first of `all` in which `pat` occurs.
pub open spec fn first_with(all: Seq<Seq<char>>, pat: Seq<char>) -> Option<Seq<char>>
    decreases all.len(),
{
    if all.len() == 0 {
        None
    } else if contains(all[0], pat) {
        Some(all[0])
    } else {
        first_with(all.drop_first(), pat)
    }
}

/// The line of `text` that names the version.
pub open spec fn version_line(text: Seq<char>) -> Option<Seq<char>> {
    first_with(non_blank(lines(text)), "version"@)
}

/// What may be the version in `line`: its words, without a leading `v`.
pub open spec fn candidates(line: Seq<char>) -> Seq<Seq<char>> {
    Seq::new(words(line).len(), |i: int| trim_start_matches(words(line)[i], "v"@))
}

/// The first of `all` that is a version.
pub open spec fn first_version(all: Seq<Seq<char>>) -> Option<VersionView>
    decreases all.len(),
{
    if all.len() == 0 {
        None
    } else if parsed(all[0]) is Some {
        parsed(all[0])
    } else {
        first_version(all.drop_first())
    }
}

/// The version that the compiler names in `text`.
pub open spec fn named_version(text: Seq<char>) -> Option<VersionView> {
    match version_line(text) {
        Some(line) => first_version(candidates(line)),
        None => None,
    }
}

/// What is said where `text` names no version.
pub open spec fn unnamed(text: Seq<char>) -> Seq<char> {
    if version_line(text) is None {
        "Version not found in resolc output"@
    } else {
        "Unable to retrieve version from resolc output"@
    }
}

/// The text of the Solidity version in `text`: the second line that is not
/// blank, without its label.
pub open spec fn solc_field(text: Seq<char>) -> Option<Seq<char>> {
    let all = non_blank(lines(text));
    if all.len() > 1 {
        Some(replace(trim_start_matches(all[1], "Version: "@), ".g++"@, ".gcc"@))
    } else {
        None
    }
}

/// The text of the Revive version in `text`: the last line that is not blank,
/// without its label, where it has one.
pub open spec fn revive_field(text: Seq<char>) -> Option<Seq<char>> {
    let all = non_blank(lines(text));
    if all.len() > 0 && occurs_at(all.last(), "Revive"@, 0) {
        Some(trim(trim_start_matches(all.last(), "Revive:"@)))
    } else {
        None
    }
}

/// The Revive version in `text`, where it names a well-formed one.
pub open spec fn revive_version(text: Seq<char>) -> Option<VersionView> {
    match revive_field(text) {
        Some(field) => parsed(field),
        None => None,
    }
}

/// What an optional version stands for.
pub open spec fn optional_view(v: Option<Version>) -> Option<VersionView> {
    match v {
        Some(v) => Some(v@),
        None => None,
    }
}

impl Clone for SolcVersionInfo {
    fn clone(&self) -> (res: Self)
        ensures
            res.version@ == self.version@,
            optional_view(res.revive_version) == optional_view(self.revive_version),
    {
        SolcVersionInfo {
            version: self.version.clone(),
            revive_version: match &self.revive_version {
                Some(v) => Some(v.clone()),
                None => None,
            },
        }
    }
}

/// Whether `res` is what the Solidity compiler's report `text` gives.
pub open spec fn is_solc_report(text: Seq<char>, res: Result<SolcVersionInfo, SolcError>) -> bool {
    match solc_field(text) {
        None => res matches Err(e) && e.says("Version not found in Solc output"@),
        Some(field) => match parsed(field) {
            None => res matches Err(e) && (if fits(field) {
                e.is_refusal(refusal(field))
            } else {
                e.says("version text is too long"@)
            }),
            Some(v) => res matches Ok(info) && info.version@ == v && optional_view(
                info.revive_version,
            ) == revive_version(text),
        },
    }
}

/// Whether `res` is what the compiler's report `text` gives.
pub open spec fn is_version_report(text: Seq<char>, res: Result<Version, SolcError>) -> bool {
    match named_version(text) {
        Some(v) => res matches Ok(version) && version@ == v && v.valid(),
        None => res matches Err(e) && e.says(unnamed(text)),
    }
}

impl CommandLine {
    /// The command that asks the program at `path` for its version.
    pub fn version_query(path: &PathBuf) -> (res: CommandLine)
        ensures
            res.program == *path,
            texts(res.args@) == seq!["--version"@],
    {
        let mut args: Vec<String> = Vec::new();
        args.push("--version".to_owned());
        assert(texts(args@) == seq!["--version"@]);
        CommandLine { program: path.clone(), args }
    }
}

/// The text of `bytes`, as [`text_of`] says.
pub fn read_text(bytes: &[u8]) -> (res: String)
    ensures
        res@ == text_of(bytes@),
{
    lossy_text(bytes)
}

/// What is shown of a failed process, as [`failure_text`] says.
pub fn failure_message(stderr: &str, stdout: &str) -> (res: String)
    ensures
        res@ == failure_text(stderr@, stdout@),
{
    let shown = trimmed(chars(stderr).as_slice());
    if shown.len() > 0 {
        return string(shown.as_slice());
    }
    let shown = trimmed(chars(stdout).as_slice());
    if shown.len() > 0 {
        return string(shown.as_slice());
    }
    "<empty output>".to_owned()
}

impl SolcError {
    /// The error for a failed process.
    pub fn solc_output(output: &Output) -> (res: SolcError)
        ensures
            output.fails_with(res),
    {
        let stderr = read_text(output.stderr.as_slice());
        let stdout = read_text(output.stdout.as_slice());
        SolcError::SolcError(output.status, failure_message(stderr.as_str(), stdout.as_str()))
    }
}

/// What a process printed, where it succeeded.
pub fn compile_output(output: Output) -> (res: Result<Vec<u8>, SolcError>)
    ensures
        res is Ok <==> output.status.succeeded(),
        res matches Ok(bytes) ==> bytes@ == output.stdout@,
        res matches Err(e) ==> output.fails_with(e),
{
    if output.status.success() {
        Ok(output.stdout)
    } else {
        Err(SolcError::solc_output(&output))
    }
}

/// The first of `all` in which `pat` occurs, as [`first_with`] says.
fn find_with(all: &Vec<Vec<char>>, pat: &[char]) -> (res: Option<usize>)
    ensures
        res matches Some(i) ==> i < all@.len() && first_with(views(all@), pat@) == Some(
            all@[i as int]@,
        ),
        res is None ==> first_with(views(all@), pat@) is None,
{
    let mut i: usize = 0;
    assert(views(all@).skip(0) == views(all@));
    while i < all.len()
        invariant
            i <= all@.len(),
            first_with(views(all@), pat@) == first_with(views(all@).skip(i as int), pat@),
        decreases all@.len() - i,
    {
        let ghost rest = views(all@).skip(i as int);
        assert(rest[0] == all@[i as int]@);
        if has_text(all[i].as_slice(), pat) {
            return Some(i);
        }
        assert(rest.drop_first() == views(all@).skip(i + 1));
        i += 1;
    }
    None
}

/// The version that the compiler names in its report.
pub fn version_from_text(text: &str) -> (res: Result<Version, SolcError>)
    ensures
        is_version_report(text@, res),
{
    let all = drop_blank(split_lines(chars(text).as_slice()));
    let at = match find_with(&all, chars("version").as_slice()) {
        Some(at) => at,
        None => return Err(SolcError::msg("Version not found in resolc output")),
    };
    let parts = split_words(all[at].as_slice());
    let ghost line = all@[at as int]@;
    let ghost texts = candidates(line);
    let mut i: usize = 0;
    assert(texts.skip(0) == texts);
    while i < parts.len()
        invariant
            i <= parts@.len(),
            views(parts@) == words(line),
            texts == candidates(line),
            version_line(text@) == Some(line),
            first_version(texts) == first_version(texts.skip(i as int)),
        decreases parts@.len() - i,
    {
        assert(views(parts@)[i as int] == parts@[i as int]@);
        let candidate = string(drop_leading(parts[i].as_slice(), chars("v").as_slice()).as_slice());
        let ghost rest = texts.skip(i as int);
        assert(rest[0] == candidate@);
        match Version::parse(candidate.as_str()) {
            Ok(version) => return Ok(version),
            Err(_) => {},
        }
        assert(rest.drop_first() == texts.skip(i + 1));
        i += 1;
    }
    Err(SolcError::msg("Unable to retrieve version from resolc output"))
}

/// The version that the compiler names in what it printed.
pub fn version_from_output(output: Output) -> (res: Result<Version, SolcError>)
    ensures
        output.status.succeeded() ==> is_version_report(text_of(output.stdout@), res),
        !output.status.succeeded() ==> (res matches Err(e) && output.fails_with(e)),
{
    if output.status.success() {
        version_from_text(read_text(output.stdout.as_slice()).as_str())
    } else {
        Err(SolcError::solc_output(&output))
    }
}

/// The versions that the Solidity compiler names in its report.
pub fn solc_info_from_text(text: &str) -> (res: Result<SolcVersionInfo, SolcError>)
    ensures
        is_solc_report(text@, res),
{
    let all = drop_blank(split_lines(chars(text).as_slice()));
    if all.len() < 2 {
        return Err(SolcError::msg("Version not found in Solc output"));
    }
    let ghost views = views(all@);
    let from = chars(".g++");
    proof {
        reveal_strlit(".g++");
    }
    let field = string(
        replaced(
            drop_leading(all[1].as_slice(), chars("Version: ").as_slice()).as_slice(),
            from.as_slice(),
            chars(".gcc").as_slice(),
        ).as_slice(),
    );
    assert(views[1] == all@[1]@);
    assert(solc_field(text@) == Some(field@));
    let version = match Version::parse(field.as_str()) {
        Ok(version) => version,
        Err(e) => return Err(e),
    };
    let last = &all[all.len() - 1];
    assert(views.last() == last@);
    let revive_version = if stands_at(last.as_slice(), chars("Revive").as_slice(), 0) {
        let field = string(
            trimmed(drop_leading(last.as_slice(), chars("Revive:").as_slice()).as_slice()).as_slice(),
        );
        match Version::parse(field.as_str()) {
            Ok(version) => Some(version),
            Err(_) => None,
        }
    } else {
        None
    };
    Ok(SolcVersionInfo { version, revive_version })
}

/// The versions that the Solidity compiler names in what it printed.
pub fn solc_info_from_output(output: Output) -> (res: Result<SolcVersionInfo, SolcError>)
    ensures
        output.status.succeeded() ==> is_solc_report(text_of(output.stdout@), res),
        !output.status.succeeded() ==> (res matches Err(e) && output.fails_with(e)),
{
    if !output.status.success() {
        return Err(SolcError::solc_output(&output));
    }
    solc_info_from_text(read_text(output.stdout.as_slice()).as_str())
}

} // verus!
