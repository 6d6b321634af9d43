//! Where compilers are kept.

use std::path::PathBuf;

use vstd::prelude::*;

use crate::compiler::Resolc;
use crate::error::SolcError;
use crate::os::{get_operating_system, resolc_prefix, system_of, ResolcOS};
use crate::text::joined;
use crate::version::{version_text, Version, VersionView};

verus! {

/// What is known about the machine: the names of its operating system and of
/// its architecture, and the user's home directory where there is one.
#[derive(Debug)]
pub struct Host {
    pub os: String,
    pub arch: String,
    pub home: Option<PathBuf>,
}

/// A path below a directory: the directory, then one path component for each
/// name.
#[derive(Debug, PartialEq, Eq)]
pub struct InstallPath {
    pub base: PathBuf,
    pub names: Vec<String>,
}

impl Host {
    /// The release system of the machine.
    pub open spec fn system(self) -> Option<ResolcOS> {
        system_of(self.os@, self.arch@)
    }

    /// Whether there are releases for the machine and a place to keep them.
    pub open spec fn supported(self) -> bool {
        self.system() is Some && self.home is Some
    }

    /// What is said where the machine is not supported.
    pub open spec fn complaint(self) -> Seq<char> {
        if self.system() is None {
            "Unsupported operating system "@ + self.os@
        } else {
            homeless()
        }
    }
}

/// The characters of each of `all`.
pub open spec fn texts(all: Seq<String>) -> Seq<Seq<char>> {
    Seq::new(all.len(), |i: int| all[i]@)
}

impl InstallPath {
    /// Whether this is the path below `base` that `names` spell.
    pub open spec fn is(self, base: PathBuf, names: Seq<Seq<char>>) -> bool {
        self.base == base && texts(self.names@) == names
    }

    /// The path of `name` in this directory.
    fn join(self, name: String) -> (res: InstallPath)
        ensures
            res.is(self.base, texts(self.names@).push(name@)),
    {
        let ghost before = texts(self.names@);
        let mut names = self.names;
        names.push(name);
        assert(texts(names@) == before.push(name@));
        InstallPath { base: self.base, names }
    }
}

/// The name of the directory in the user's home that holds the compilers.
pub open spec fn directory_name() -> Seq<char> {
    ".revive"@
}

/// The name of the file that holds the compiler of version `v`.
pub open spec fn compiler_name(os: ResolcOS, v: VersionView) -> Seq<char> {
    resolc_prefix(os) + "v"@ + version_text(v)
}

/// The path of the compiler of version `v`, below the user's home.
pub open spec fn compiler_names(host: Host, v: VersionView) -> Seq<Seq<char>> {
    seq![directory_name(), compiler_name(host.system()->0, v)]
}

/// The name of the file that guards the installation of a compiler.
pub open spec fn lock_name(compiler: Seq<char>, version: Seq<char>) -> Seq<char> {
    ".lock-"@ + compiler + "-"@ + version
}

/// What is said where there is no home directory.
pub open spec fn homeless() -> Seq<char> {
    "Could not build Resolc - homedir not found"@
}

/// The directory in `home` that holds the compilers.
fn directory_in(home: &PathBuf) -> (res: InstallPath)
    ensures
        res.is(*home, seq![directory_name()]),
{
    let root = InstallPath { base: home.clone(), names: Vec::new() };
    assert(texts(root.names@).push(".revive"@) == seq![directory_name()]);
    root.join(".revive".to_owned())
}

/// The file that guards the installation of that version of that compiler.
pub fn lock_file_path(home: &PathBuf, compiler: &str, version: &str) -> (res: InstallPath)
    ensures
        res.is(*home, seq![directory_name(), lock_name(compiler@, version@)]),
{
    let dir = directory_in(home);
    let name = joined(joined(joined(".lock-", compiler).as_str(), "-").as_str(), version);
    assert(texts(dir.names@).push(name@) == seq![
        directory_name(),
        lock_name(compiler@, version@),
    ]);
    dir.join(name)
}

impl Resolc {
    /// The directory that holds the compilers.
    pub fn compilers_dir(host: &Host) -> (res: Result<InstallPath, SolcError>)
        ensures
            res is Ok <==> host.home is Some,
            res matches Ok(path) ==> path.is(host.home->0, seq![directory_name()]),
            res matches Err(e) ==> e.says(homeless()),
    {
        match &host.home {
            Some(home) => Ok(directory_in(home)),
            None => Err(SolcError::msg("Could not build Resolc - homedir not found")),
        }
    }

    /// The file that holds the compiler of that version.
    pub fn compiler_path(host: &Host, version: &Version) -> (res: Result<InstallPath, SolcError>)
        requires
            version@.valid(),
        ensures
            res is Ok <==> host.supported(),
            res matches Ok(path) ==> path.is(host.home->0, compiler_names(*host, version@)),
            res matches Err(e) ==> e.says(host.complaint()),
    {
        let os = match get_operating_system(host.os.as_str(), host.arch.as_str()) {
            Ok(os) => os,
            Err(e) => return Err(e),
        };
        let dir = match Self::compilers_dir(host) {
            Ok(dir) => dir,
            Err(e) => return Err(e),
        };
        let name = joined(
            joined(os.get_resolc_prefix(), "v").as_str(),
            version.to_string().as_str(),
        );
        assert(texts(dir.names@).push(name@) == compiler_names(*host, version@));
        Ok(dir.join(name))
    }
}

} // verus!
