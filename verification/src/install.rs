//! How a compiler is installed: what is fetched, where it goes, and in which
//! order the steps are taken.

use vstd::prelude::*;

use crate::compiler::Resolc;
use crate::error::SolcError;
use crate::os::{get_operating_system, resolc_prefix, ResolcOS};
use crate::paths::{
    compiler_name, compiler_names, directory_name, lock_file_path, lock_name, Host, InstallPath,
};
use crate::text::{before, chars, joined, lemma_prefix_len_is, string, take_before, CharClass};
use crate::version::{core_text, lemma_core_chars, version_text, Version, VersionView};

verus! {

/// The permissions of an installed compiler.
pub const COMPILER_MODE: u32 = 0o755;

/// Where the compiler of version `v` is fetched from: releases come from their
/// own repository, pre-releases from the one where the compiler is developed.
pub open spec fn download_url(os: ResolcOS, v: VersionView) -> Seq<char> {
    if v.pre.len() == 0 {
        "https://github.com/paritytech/resolc-bin/releases/download/v"@ + version_text(v) + "/"@
            + compiler_name(os, v)
    } else {
        "https://github.com/paritytech/revive/releases/download/"@ + v.pre + "/resolc-"@
            + resolc_prefix(os) + "v"@ + core_text(v)
    }
}

/// What an installation works with.
#[derive(Debug)]
pub struct InstallPlan {
    /// The directory that holds the compilers.
    pub directory: InstallPath,
    /// The file that the compiler goes to.
    pub compiler_path: InstallPath,
    /// The file that keeps others from installing the same compiler.
    pub lock_path: InstallPath,
    pub download_url: String,
    /// What the compiler is called in messages.
    pub label: String,
}

impl InstallPlan {
    /// Whether this is the plan for version `v` on that machine.
    pub open spec fn is_for(self, host: Host, v: VersionView) -> bool {
        &&& host.supported()
        &&& self.directory.is(host.home->0, seq![directory_name()])
        &&& self.compiler_path.is(host.home->0, compiler_names(host, v))
        &&& self.lock_path.is(
            host.home->0,
            seq![directory_name(), lock_name("resolc"@, version_text(v))],
        )
        &&& self.download_url@ == download_url(host.system()->0, v)
        &&& self.label@ == "resolc-"@ + version_text(v)
    }
}

/// What is to be done next.
#[derive(Debug)]
pub enum InstallStep {
    /// See whether the directory exists.
    CheckDirectory,
    /// Create the directory, and those above it.
    CreateDirectory,
    /// Ask for the download.
    SendRequest,
    /// Receive the compiler.
    ReadBody,
    /// Create the lock file and take the lock.
    TakeLock,
    /// See whether the compiler is there.
    CheckBinary,
    /// Create the file for the compiler.
    CreateBinary,
    /// Write the content to that file.
    WriteBinary,
    /// Give that file its permissions, [`COMPILER_MODE`].
    SetPermissions,
    /// Close that file, give up the lock and remove the lock file. The installation
    /// then ends: with the error, where there is one.
    ReleaseLock(Option<SolcError>),
    /// The compiler is at its path.
    Finished,
    Failed(SolcError),
}

/// Which part of taking the lock failed.
#[derive(Clone, Copy, Debug, PartialEq, Eq, Structural)]
pub enum LockFailure {
    Create,
    Take,
}

/// The status of a reply: its code, and how it is shown.
#[derive(Debug)]
pub struct HttpStatus {
    pub code: u16,
    pub text: String,
}

/// What came of a step. An error is given as its message.
#[derive(Debug)]
pub enum InstallEvent {
    /// Whether the directory exists.
    Directory(bool),
    DirectoryCreated(Result<(), String>),
    Response(Result<HttpStatus, String>),
    Body(Result<Vec<u8>, String>),
    Locked(Result<(), LockFailure>),
    /// Whether the compiler is there.
    Binary(bool),
    BinaryCreated(Result<(), String>),
    BinaryWritten(Result<(), String>),
    PermissionsSet(Result<(), String>),
    /// The lock is given up, whether or not its file could be removed.
    LockReleased,
}

/// An installation under way.
#[derive(Debug)]
pub struct Install {
    pub plan: InstallPlan,
    pub step: InstallStep,
    /// The compiler, once it was received.
    pub content: Vec<u8>,
}

impl HttpStatus {
    /// Whether the code is one of success.
    pub open spec fn is_success(self) -> bool {
        200 <= self.code < 300
    }

    /// Whether the code is one of success.
    pub fn success(&self) -> (res: bool)
        ensures
            res == self.is_success(),
    {
        200 <= self.code && self.code < 300
    }
}

/// Whether `event` is an outcome of `step`.
pub open spec fn answers(step: InstallStep, event: InstallEvent) -> bool {
    match step {
        InstallStep::CheckDirectory => event is Directory,
        InstallStep::CreateDirectory => event is DirectoryCreated,
        InstallStep::SendRequest => event is Response,
        InstallStep::ReadBody => event is Body,
        InstallStep::TakeLock => event is Locked,
        InstallStep::CheckBinary => event is Binary,
        InstallStep::CreateBinary => event is BinaryCreated,
        InstallStep::WriteBinary => event is BinaryWritten,
        InstallStep::SetPermissions => event is PermissionsSet,
        InstallStep::ReleaseLock(_) => event is LockReleased,
        InstallStep::Finished => false,
        InstallStep::Failed(_) => false,
    }
}

/// Whether the lock is held at `step`.
pub open spec fn holds_lock(step: InstallStep) -> bool {
    match step {
        InstallStep::CheckBinary => true,
        InstallStep::CreateBinary => true,
        InstallStep::WriteBinary => true,
        InstallStep::SetPermissions => true,
        InstallStep::ReleaseLock(_) => true,
        _ => false,
    }
}

/// The message with which `event` makes the installation of `label` fail, `None`
/// where it does not.
pub open spec fn failure(label: Seq<char>, event: InstallEvent) -> Option<Seq<char>> {
    match event {
        InstallEvent::DirectoryCreated(Err(e)) => Some("Could not create compilers path: "@ + e@),
        InstallEvent::Response(Err(e)) => Some("Failed to download "@ + label + " file: "@ + e@),
        InstallEvent::Response(Ok(status)) => if status.is_success() {
            None
        } else {
            Some("Failed to download "@ + label + " file: status code "@ + status.text@)
        },
        InstallEvent::Body(Err(e)) => Some("failed to download "@ + label + " file: "@ + e@),
        InstallEvent::Locked(Err(LockFailure::Create)) => Some("Error creating lock file"@),
        InstallEvent::Locked(Err(LockFailure::Take)) => Some("Error taking the lock"@),
        InstallEvent::BinaryCreated(Err(e)) => Some(
            "Failed to create output "@ + label + " file: "@ + e@,
        ),
        InstallEvent::BinaryWritten(Err(e)) => Some(
            "Failed to write the downloaded "@ + label + " file: "@ + e@,
        ),
        InstallEvent::PermissionsSet(Err(e)) => Some(
            "Failed to set "@ + label + " permissions: "@ + e@,
        ),
        _ => None,
    }
}

/// The step that an `event` leads to from `step` where it is no failure.
pub open spec fn following(step: InstallStep, event: InstallEvent) -> InstallStep {
    match event {
        InstallEvent::Directory(true) => InstallStep::SendRequest,
        InstallEvent::Directory(false) => InstallStep::CreateDirectory,
        InstallEvent::DirectoryCreated(_) => InstallStep::SendRequest,
        InstallEvent::Response(_) => InstallStep::ReadBody,
        InstallEvent::Body(_) => InstallStep::TakeLock,
        InstallEvent::Locked(_) => InstallStep::CheckBinary,
        InstallEvent::Binary(true) => InstallStep::ReleaseLock(None),
        InstallEvent::Binary(false) => InstallStep::CreateBinary,
        InstallEvent::BinaryCreated(_) => InstallStep::WriteBinary,
        InstallEvent::BinaryWritten(_) => InstallStep::SetPermissions,
        InstallEvent::PermissionsSet(_) => InstallStep::ReleaseLock(None),
        InstallEvent::LockReleased => match step {
            InstallStep::ReleaseLock(Some(e)) => InstallStep::Failed(e),
            _ => InstallStep::Finished,
        },
    }
}

/// Whether the installation that fails at `from` with the message `text` goes on
/// at `to`: it gives up the lock first, where it holds one.
pub open spec fn fails(from: InstallStep, text: Seq<char>, to: InstallStep) -> bool {
    if holds_lock(from) {
        to matches InstallStep::ReleaseLock(Some(e)) && e.says(text)
    } else {
        to matches InstallStep::Failed(e) && e.says(text)
    }
}

/// Whether `event` takes the installation from `from` to `to`. An event that is
/// no outcome of the step at hand changes nothing.
pub open spec fn advances(from: Install, event: InstallEvent, to: Install) -> bool {
    if !answers(from.step, event) {
        to == from
    } else {
        &&& to.plan == from.plan
        &&& match failure(from.plan.label@, event) {
            Some(text) => fails(from.step, text, to.step),
            None => to.step == following(from.step, event),
        }
        &&& to.content == match event {
            InstallEvent::Body(Ok(bytes)) => bytes,
            _ => from.content,
        }
    }
}

/// `a`, the label, `b` and `c` in a row.
fn sentence(a: &str, label: &str, b: &str, c: &str) -> (res: SolcError)
    ensures
        res.says(a@ + label@ + b@ + c@),
{
    SolcError::Message(joined(joined(joined(a, label).as_str(), b).as_str(), c))
}

impl Install {
    /// Takes note of what came of the step at hand and finds the next one.
    pub fn advance(self, event: InstallEvent) -> (res: Install)
        ensures
            advances(self, event, res),
    {
        let Install { plan, step, content } = self;
        let mut received = content;
        let label = plan.label.as_str();
        let next = match (step, event) {
            (InstallStep::CheckDirectory, InstallEvent::Directory(true)) => InstallStep::SendRequest,
            (InstallStep::CheckDirectory, InstallEvent::Directory(
                false,
            )) => InstallStep::CreateDirectory,
            (InstallStep::CreateDirectory, InstallEvent::DirectoryCreated(outcome)) => match outcome {
                Ok(()) => InstallStep::SendRequest,
                Err(e) => InstallStep::Failed(
                    SolcError::Message(joined("Could not create compilers path: ", e.as_str())),
                ),
            },
            (InstallStep::SendRequest, InstallEvent::Response(outcome)) => match outcome {
                Ok(status) => if status.success() {
                    InstallStep::ReadBody
                } else {
                    InstallStep::Failed(
                        sentence(
                            "Failed to download ",
                            label,
                            " file: status code ",
                            status.text.as_str(),
                        ),
                    )
                },
                Err(e) => InstallStep::Failed(
                    sentence("Failed to download ", label, " file: ", e.as_str()),
                ),
            },
            (InstallStep::ReadBody, InstallEvent::Body(outcome)) => match outcome {
                Ok(bytes) => {
                    received = bytes;
                    InstallStep::TakeLock
                },
                Err(e) => InstallStep::Failed(
                    sentence("failed to download ", label, " file: ", e.as_str()),
                ),
            },
            (InstallStep::TakeLock, InstallEvent::Locked(outcome)) => match outcome {
                Ok(()) => InstallStep::CheckBinary,
                Err(LockFailure::Create) => InstallStep::Failed(
                    SolcError::msg("Error creating lock file"),
                ),
                Err(LockFailure::Take) => InstallStep::Failed(
                    SolcError::msg("Error taking the lock"),
                ),
            },
            (InstallStep::CheckBinary, InstallEvent::Binary(true)) => InstallStep::ReleaseLock(None),
            (InstallStep::CheckBinary, InstallEvent::Binary(false)) => InstallStep::CreateBinary,
            (InstallStep::CreateBinary, InstallEvent::BinaryCreated(outcome)) => match outcome {
                Ok(()) => InstallStep::WriteBinary,
                Err(e) => InstallStep::ReleaseLock(
                    Some(sentence("Failed to create output ", label, " file: ", e.as_str())),
                ),
            },
            (InstallStep::WriteBinary, InstallEvent::BinaryWritten(outcome)) => match outcome {
                Ok(()) => InstallStep::SetPermissions,
                Err(e) => InstallStep::ReleaseLock(
                    Some(sentence("Failed to write the downloaded ", label, " file: ", e.as_str())),
                ),
            },
            (InstallStep::SetPermissions, InstallEvent::PermissionsSet(outcome)) => match outcome {
                Ok(()) => InstallStep::ReleaseLock(None),
                Err(e) => InstallStep::ReleaseLock(
                    Some(sentence("Failed to set ", label, " permissions: ", e.as_str())),
                ),
            },
            (InstallStep::ReleaseLock(None), InstallEvent::LockReleased) => InstallStep::Finished,
            (InstallStep::ReleaseLock(Some(e)), InstallEvent::LockReleased) => InstallStep::Failed(e),
            (step, _) => step,
        };
        Install { plan, step: next, content: received }
    }
}

/// The three numbers of a pre-release are what stands before its first hyphen.
pub proof fn lemma_core_before_hyphen(v: VersionView)
    requires
        v.pre.len() > 0,
    ensures
        before(version_text(v), '-') == core_text(v),
{
    let text = version_text(v);
    let core = core_text(v);
    lemma_core_chars(v);
    assert forall|i: int| 0 <= i < core.len() implies CharClass::Except('-').holds(
        #[trigger] text[i],
    ) by {
        assert(text[i] == core[i]);
    }
    assert(text[core.len() as int] == '-');
    lemma_prefix_len_is(text, CharClass::Except('-'), core.len() as int);
    assert(text.take(core.len() as int) == core);
}

/// The text of [`download_url`].
fn make_download_url(os: &ResolcOS, version: &Version) -> (res: String)
    requires
        version@.valid(),
    ensures
        res@ == download_url(*os, version@),
{
    let prefix = os.get_resolc_prefix();
    let full = version.to_string();
    if version.pre.as_str().is_empty() {
        let folder = joined(
            joined(
                "https://github.com/paritytech/resolc-bin/releases/download/v",
                full.as_str(),
            ).as_str(),
            "/",
        );
        let file = joined(joined(prefix, "v").as_str(), full.as_str());
        joined(folder.as_str(), file.as_str())
    } else {
        proof {
            lemma_core_before_hyphen(version@);
        }
        let core = string(take_before(chars(full.as_str()).as_slice(), '-').as_slice());
        let folder = joined(
            "https://github.com/paritytech/revive/releases/download/",
            version.pre.as_str(),
        );
        let file = joined(joined(folder.as_str(), "/resolc-").as_str(), prefix);
        joined(joined(file.as_str(), "v").as_str(), core.as_str())
    }
}

impl Resolc {
    /// Starts the installation of that version.
    pub fn blocking_install(host: &Host, version: &Version) -> (res: Result<Install, SolcError>)
        requires
            version@.valid(),
        ensures
            res is Ok <==> host.supported(),
            res matches Ok(install) ==> install.plan.is_for(*host, version@),
            res matches Ok(install) ==> install.step is CheckDirectory,
            res matches Ok(install) ==> install.content@ == Seq::<u8>::empty(),
            res matches Err(e) ==> e.says(host.complaint()),
    {
        let os = match get_operating_system(host.os.as_str(), host.arch.as_str()) {
            Ok(os) => os,
            Err(e) => return Err(e),
        };
        let download_url = make_download_url(&os, version);
        let directory = match Self::compilers_dir(host) {
            Ok(dir) => dir,
            Err(e) => return Err(e),
        };
        let compiler_path = match Self::compiler_path(host, version) {
            Ok(path) => path,
            Err(e) => return Err(e),
        };
        let full = version.to_string();
        let lock_path = match &host.home {
            Some(home) => lock_file_path(home, "resolc", full.as_str()),
            None => return Err(SolcError::msg("Could not build Resolc - homedir not found")),
        };
        let label = joined("resolc-", full.as_str());
        Ok(
            Install {
                plan: InstallPlan { directory, compiler_path, lock_path, download_url, label },
                step: InstallStep::CheckDirectory,
                content: Vec::new(),
            },
        )
    }
}

} // verus!
