//! The `resolc` compiler of one installation.

use std::collections::BTreeSet;
use std::path::PathBuf;

use vstd::prelude::*;
use vstd::utf8::{decode_utf8, valid_utf8};

use crate::error::{map_io_err, SolcError};
use crate::install::Install;
use crate::outside::strict_text;
use crate::paths::{compiler_names, texts, Host, InstallPath};
use crate::process::{
    compile_output, is_solc_report, is_version_report, solc_info_from_output, text_of,
    version_from_output, CommandLine, Output, SolcVersionInfo,
};
use crate::version::Version;

verus! {

/// A `resolc` binary and how it is called.
#[derive(Clone, Debug)]
pub struct Resolc {
    pub resolc: PathBuf,
    pub extra_args: Vec<String>,
    pub base_path: Option<PathBuf>,
    pub allow_paths: BTreeSet<PathBuf>,
    pub include_paths: BTreeSet<PathBuf>,
}

/// What came of running the compiler on some input. An error is given as its
/// message.
#[derive(Debug)]
pub enum CompilerRun {
    /// The process could not be started.
    NotStarted(String),
    /// The input could not be handed over.
    NotFed(String),
    /// The process could not be waited for.
    NotAwaited(String),
    Ended(Output),
}

/// How the compiler's answer is found.
#[derive(Debug)]
pub enum CompilerReply {
    /// It is what this JSON text says.
    Json(String),
    /// It is the empty answer.
    Empty,
}

/// Where the compiler of a version comes from.
#[derive(Debug)]
pub enum CompilerSource {
    Installed(InstallPath),
    ToInstall(Install),
}

impl Resolc {
    /// The compiler at `path`, called with no arguments of its own.
    pub fn new(path: PathBuf) -> (res: Result<Self, SolcError>)
        ensures
            res matches Ok(resolc) && {
                &&& resolc.resolc == path
                &&& resolc.extra_args@ == Seq::<String>::empty()
                &&& resolc.base_path is None
                &&& resolc.allow_paths@ == Set::<PathBuf>::empty()
                &&& resolc.include_paths@ == Set::<PathBuf>::empty()
            },
    {
        Ok(
            Self {
                resolc: path,
                extra_args: Vec::new(),
                base_path: None,
                allow_paths: Default::default(),
                include_paths: Default::default(),
            },
        )
    }

    /// The command that compiles a JSON description given on standard input.
    pub fn configure_cmd(&self) -> (res: CommandLine)
        ensures
            res.program == self.resolc,
            texts(res.args@) == texts(self.extra_args@).push("--standard-json"@),
    {
        let mut args: Vec<String> = Vec::new();
        let mut i: usize = 0;
        while i < self.extra_args.len()
            invariant
                i <= self.extra_args@.len(),
                texts(args@) == texts(self.extra_args@).take(i as int),
            decreases self.extra_args@.len() - i,
        {
            let ghost so_far = texts(args@);
            args.push(self.extra_args[i].clone());
            assert(texts(args@) == so_far.push(self.extra_args@[i as int]@));
            assert(texts(self.extra_args@).take(i + 1) == so_far.push(
                self.extra_args@[i as int]@,
            ));
            i += 1;
        }
        let ghost so_far = texts(args@);
        args.push("--standard-json".to_owned());
        assert(texts(args@) == so_far.push("--standard-json"@));
        assert(so_far == texts(self.extra_args@));
        CommandLine { program: self.resolc.clone(), args }
    }

    /// What the compiler printed, where it was run to a successful end.
    pub fn compile_output(&self, run: CompilerRun) -> (res: Result<Vec<u8>, SolcError>)
        ensures
            match run {
                CompilerRun::NotStarted(e) => res matches Err(err) && err.is_io(e@, self.resolc),
                CompilerRun::NotFed(e) => res matches Err(err) && (err matches SolcError::SerdeJson(
                    t,
                ) && t@ == e@),
                CompilerRun::NotAwaited(e) => res matches Err(err) && err.is_io(e@, self.resolc),
                CompilerRun::Ended(output) => if output.status.succeeded() {
                    res matches Ok(bytes) && bytes@ == output.stdout@
                } else {
                    res matches Err(err) && output.fails_with(err)
                },
            },
    {
        match run {
            CompilerRun::NotStarted(e) => Err(SolcError::io(e, &self.resolc)),
            CompilerRun::NotFed(e) => Err(SolcError::SerdeJson(e)),
            CompilerRun::NotAwaited(e) => Err(SolcError::io(e, &self.resolc)),
            CompilerRun::Ended(output) => compile_output(output),
        }
    }

    /// How the compiler's answer is found. Where the compiler was not run to a
    /// successful end, the answer is empty.
    pub fn compile(&self, run: CompilerRun) -> (res: Result<CompilerReply, SolcError>)
        ensures
            match run {
                CompilerRun::Ended(output) if output.status.succeeded() => if valid_utf8(
                    output.stdout@,
                ) {
                    res matches Ok(CompilerReply::Json(text)) && text@ == decode_utf8(
                        output.stdout@,
                    )
                } else {
                    res matches Err(SolcError::InvalidUtf8)
                },
                _ => res matches Ok(CompilerReply::Empty),
            },
    {
        match self.compile_output(run) {
            Ok(results) => match strict_text(results.as_slice()) {
                Some(text) => Ok(CompilerReply::Json(text)),
                None => Err(SolcError::InvalidUtf8),
            },
            Err(_) => Ok(CompilerReply::Empty),
        }
    }

    /// The version of the compiler at `path`. `run` is what came of asking it
    /// for its version.
    pub fn get_version_for_path(path: &PathBuf, run: Result<Output, String>) -> (res: Result<
        Version,
        SolcError,
    >)
        ensures
            match run {
                Err(e) => res matches Err(err) && err.is_io(e@, *path),
                Ok(output) => if output.status.succeeded() {
                    is_version_report(text_of(output.stdout@), res)
                } else {
                    res matches Err(err) && output.fails_with(err)
                },
            },
    {
        match run {
            Ok(output) => version_from_output(output),
            Err(e) => Err(map_io_err(path, e)),
        }
    }

    /// The versions that the Solidity compiler at `path` reports. `run` is what
    /// came of asking it for its version.
    pub fn get_solc_version_info(path: &PathBuf, run: Result<Output, String>) -> (res: Result<
        SolcVersionInfo,
        SolcError,
    >)
        ensures
            match run {
                Err(e) => res matches Err(err) && err.is_io(e@, *path),
                Ok(output) => if output.status.succeeded() {
                    is_solc_report(text_of(output.stdout@), res)
                } else {
                    res matches Err(err) && output.fails_with(err)
                },
            },
    {
        match run {
            Ok(output) => solc_info_from_output(output),
            Err(e) => Err(SolcError::io(e, path)),
        }
    }

    /// The path of the compiler of that version, where it is installed.
    /// `is_file` says whether there is a file at its path.
    pub fn find_installed_version(host: &Host, version: &Version, is_file: bool) -> (res: Result<
        Option<InstallPath>,
        SolcError,
    >)
        requires
            version@.valid(),
        ensures
            res is Ok <==> host.supported(),
            res matches Err(e) ==> e.says(host.complaint()),
            res matches Ok(found) ==> (found is Some <==> is_file),
            res matches Ok(Some(path)) ==> path.is(
                host.home->0,
                compiler_names(*host, version@),
            ),
    {
        let path = match Self::compiler_path(host, version) {
            Ok(path) => path,
            Err(e) => return Err(e),
        };
        if !is_file {
            return Ok(None);
        }
        Ok(Some(path))
    }

    /// Where the compiler of that version comes from: from its path, where it is
    /// installed, and from an installation otherwise. `is_file` says whether
    /// there is a file at its path.
    pub fn get_path_for_version(host: &Host, version: &Version, is_file: bool) -> (res: Result<
        CompilerSource,
        SolcError,
    >)
        requires
            version@.valid(),
        ensures
            res is Ok <==> host.supported(),
            res matches Err(e) ==> e.says(host.complaint()),
            res matches Ok(source) ==> if is_file {
                source matches CompilerSource::Installed(path) && path.is(
                    host.home->0,
                    compiler_names(*host, version@),
                )
            } else {
                source matches CompilerSource::ToInstall(install) && install.plan.is_for(
                    *host,
                    version@,
                ) && install.step is CheckDirectory && install.content@ == Seq::<u8>::empty()
            },
    {
        match Self::find_installed_version(host, version, is_file) {
            Err(e) => Err(e),
            Ok(Some(path)) => Ok(CompilerSource::Installed(path)),
            Ok(None) => match Self::blocking_install(host, version) {
                Ok(install) => Ok(CompilerSource::ToInstall(install)),
                Err(e) => Err(e),
            },
        }
    }
}

} // verus!
