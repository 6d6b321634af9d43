//! What the operations around a compiler's process give, and what each step of an
//! installation leads to.

use std::path::PathBuf;

use vstd::prelude::*;
use vstd::utf8::{decode_utf8, valid_utf8};

use crate::compiler::{CompilerReply, CompilerRun, Resolc};
use crate::error::{map_io_err, ExitStatus, SolcError};
use crate::install::{HttpStatus, Install, InstallEvent, InstallStep, LockFailure};
use crate::outside::{refusal, utf8_lossy};
use crate::paths::texts;
use crate::process::{
    compile_output, failure_message, failure_text, is_solc_report, is_version_report, read_text,
    solc_info_from_output, solc_info_from_text, version_from_output, version_from_text, CommandLine,
    Output, SolcVersionInfo,
};
use crate::text::trim;
use crate::text_laws::{
    is_trimmed, is_white, margins_are_found, trimming_takes_the_margins,
    white_space_is_trimmed_away,
};
use crate::version::{fits, lemma_parsed, version_text, Version, VersionView};
use crate::versions::CompilerVersion;

verus! {

/// Whether `text` is what `s` shows between its margins.
pub open spec fn is_shown_of(text: Seq<char>, s: Seq<char>) -> bool {
    is_trimmed(text) && exists|left: Seq<char>, right: Seq<char>|
        is_white(left) && is_white(right) && s == #[trigger] (left + text + right)
}

/// Whether `text` is told of a failed process that printed `err` and `out`: what
/// `err` shows, or else what `out` shows, or else that there is nothing.
pub open spec fn is_told_of(text: Seq<char>, err: Seq<char>, out: Seq<char>) -> bool {
    if !is_white(err) {
        is_shown_of(text, err)
    } else if !is_white(out) {
        is_shown_of(text, out)
    } else {
        text == "<empty output>"@
    }
}

/// Whether `text` is that of the `bytes`.
pub open spec fn is_text_of(text: Seq<char>, bytes: Seq<u8>) -> bool {
    text == if valid_utf8(bytes) {
        decode_utf8(bytes)
    } else {
        utf8_lossy(bytes)
    }
}

/// Whether `e` tells of the failed process.
pub open spec fn tells_of(e: SolcError, output: Output, err: Seq<char>, out: Seq<char>) -> bool {
    e matches SolcError::SolcError(status, text) && status == output.status && is_told_of(
        text@,
        err,
        out,
    )
}

/// Whether `e` is the failure `message` at `path`.
pub open spec fn is_failure_at(e: SolcError, message: Seq<char>, path: PathBuf) -> bool {
    e matches SolcError::Io { error, path: at } && error@ == message && at == path
}

proof fn lemma_shown(s: Seq<char>)
    requires
        !is_white(s),
    ensures
        is_shown_of(trim(s), s),
{
    let (left, middle, right) = margins_are_found(s);
    trimming_takes_the_margins(left, middle, right);
    assert(s == left + middle + right);
}

proof fn lemma_told(err: Seq<char>, out: Seq<char>)
    ensures
        is_told_of(failure_text(err, out), err, out),
{
    if is_white(err) {
        white_space_is_trimmed_away(err);
        if is_white(out) {
            white_space_is_trimmed_away(out);
        } else {
            lemma_shown(out);
        }
    } else {
        lemma_shown(err);
    }
}

/// Bytes are read as UTF-8.
pub proof fn bytes_are_read(bytes: &[u8], res: String)
    requires
        call_ensures(read_text, (bytes,), res),
    ensures
        is_text_of(res@, bytes@),
{
}

/// A failure tells what was printed, without margins: to standard error, or else
/// to standard output.
pub proof fn failures_tell_what_was_printed(stderr: &str, stdout: &str, res: String)
    requires
        call_ensures(failure_message, (stderr, stdout), res),
    ensures
        is_told_of(res@, stderr@, stdout@),
{
    lemma_told(stderr@, stdout@);
}

/// The error of a failed process keeps its status and tells what it printed.
pub proof fn failed_processes_are_told(
    output: Output,
    err: Seq<char>,
    out: Seq<char>,
    res: SolcError,
)
    requires
        is_text_of(err, output.stderr@),
        is_text_of(out, output.stdout@),
        call_ensures(SolcError::solc_output, (&output,), res),
    ensures
        tells_of(res, output, err, out),
{
    lemma_told(err, out);
}

/// A process succeeded where its exit code is zero.
pub proof fn zero_is_success(status: ExitStatus, res: bool)
    requires
        call_ensures(ExitStatus::success, (&status,), res),
    ensures
        res <==> status.code == Some(0i32),
{
}

/// What a process printed counts where its exit code is zero.
pub proof fn successful_output_is_kept(
    output: Output,
    err: Seq<char>,
    out: Seq<char>,
    res: Result<Vec<u8>, SolcError>,
)
    requires
        is_text_of(err, output.stderr@),
        is_text_of(out, output.stdout@),
        call_ensures(compile_output, (output,), res),
    ensures
        output.status.code == Some(0i32) ==> (res matches Ok(bytes) && bytes@ == output.stdout@),
        output.status.code != Some(0i32) ==> (res matches Err(e) && tells_of(e, output, err, out)),
{
    lemma_told(err, out);
}

/// What the compiler printed is given out, and each way to fail is told apart.
pub proof fn compiler_output_is_kept(
    resolc: Resolc,
    run: CompilerRun,
    err: Seq<char>,
    out: Seq<char>,
    res: Result<Vec<u8>, SolcError>,
)
    requires
        run matches CompilerRun::Ended(output) ==> is_text_of(err, output.stderr@) && is_text_of(
            out,
            output.stdout@,
        ),
        call_ensures(Resolc::compile_output, (&resolc, run), res),
    ensures
        run matches CompilerRun::Ended(output) ==> output.status.code == Some(0i32) ==> (
        res matches Ok(bytes) && bytes@ == output.stdout@),
        run matches CompilerRun::Ended(output) ==> output.status.code != Some(0i32) ==> (
        res matches Err(e) && tells_of(e, output, err, out)),
        run matches CompilerRun::NotStarted(m) ==> (res matches Err(e) && is_failure_at(
            e,
            m@,
            resolc.resolc,
        )),
        run matches CompilerRun::NotAwaited(m) ==> (res matches Err(e) && is_failure_at(
            e,
            m@,
            resolc.resolc,
        )),
        run matches CompilerRun::NotFed(m) ==> (res matches Err(SolcError::SerdeJson(t)) && t@
            == m@),
{
    lemma_told(err, out);
}

/// The compiler's answer is the text that it printed; it is empty where the
/// compiler did not succeed, and refused where that is no text.
pub proof fn compiler_answers_are_its_text(
    resolc: Resolc,
    run: CompilerRun,
    res: Result<CompilerReply, SolcError>,
)
    requires
        call_ensures(Resolc::compile, (&resolc, run), res),
    ensures
        match run {
            CompilerRun::Ended(output) => if output.status.code == Some(0i32) {
                if valid_utf8(output.stdout@) {
                    res matches Ok(CompilerReply::Json(text)) && text@ == decode_utf8(
                        output.stdout@,
                    )
                } else {
                    res matches Err(SolcError::InvalidUtf8)
                }
            } else {
                res matches Ok(CompilerReply::Empty)
            },
            CompilerRun::NotStarted(_) => res matches Ok(CompilerReply::Empty),
            CompilerRun::NotFed(_) => res matches Ok(CompilerReply::Empty),
            CompilerRun::NotAwaited(_) => res matches Ok(CompilerReply::Empty),
        },
{
}

/// A new compiler has its path and nothing else.
pub proof fn new_compilers_are_plain(path: PathBuf, res: Result<Resolc, SolcError>)
    requires
        call_ensures(Resolc::new, (path,), res),
    ensures
        res matches Ok(resolc) && resolc.resolc == path && resolc.extra_args@.len() == 0
            && resolc.base_path is None && resolc.allow_paths@ == Set::<PathBuf>::empty()
            && resolc.include_paths@ == Set::<PathBuf>::empty(),
{
}

/// The compiler is called with its own arguments, in their order, and then with
/// `--standard-json`.
pub proof fn compilers_are_called_with_their_arguments(resolc: Resolc, res: CommandLine)
    requires
        call_ensures(Resolc::configure_cmd, (&resolc,), res),
    ensures
        res.program == resolc.resolc,
        res.args@.len() == resolc.extra_args@.len() + 1,
        forall|i: int|
            0 <= i < resolc.extra_args@.len() ==> (#[trigger] res.args@[i])@
                == resolc.extra_args@[i]@,
        res.args@.last()@ == "--standard-json"@,
{
    let args = texts(res.args@);
    let extra = texts(resolc.extra_args@);
    assert(args.len() == extra.len() + 1);
    assert forall|i: int| 0 <= i < resolc.extra_args@.len() implies (#[trigger] res.args@[i])@
        == resolc.extra_args@[i]@ by {
        assert(args[i] == extra[i]);
    }
    assert(args[extra.len() as int] == "--standard-json"@);
}

/// A compiler is asked for its version with `--version`.
pub proof fn versions_are_asked_for(path: PathBuf, res: CommandLine)
    requires
        call_ensures(CommandLine::version_query, (&path,), res),
    ensures
        res.program == path,
        res.args@.len() == 1,
        res.args@[0]@ == "--version"@,
{
    assert(texts(res.args@).len() == 1);
    assert(texts(res.args@)[0] == "--version"@);
}

/// The version of a compiler is what its report says. A compiler that fails, or
/// that cannot be run, is told of.
pub proof fn versions_come_from_reports(
    path: PathBuf,
    run: Result<Output, String>,
    err: Seq<char>,
    out: Seq<char>,
    res: Result<Version, SolcError>,
)
    requires
        run matches Ok(output) ==> is_text_of(err, output.stderr@) && is_text_of(
            out,
            output.stdout@,
        ),
        call_ensures(Resolc::get_version_for_path, (&path, run), res),
    ensures
        run matches Ok(output) ==> output.status.code == Some(0i32) ==> is_version_report(out, res),
        run matches Ok(output) ==> output.status.code != Some(0i32) ==> (res matches Err(e)
            && tells_of(e, output, err, out)),
        run matches Err(m) ==> (res matches Err(e) && is_failure_at(e, m@, path)),
{
    lemma_told(err, out);
}

/// The same of what was printed and of the report itself.
pub proof fn versions_come_from_output(
    output: Output,
    err: Seq<char>,
    out: Seq<char>,
    res: Result<Version, SolcError>,
)
    requires
        is_text_of(err, output.stderr@),
        is_text_of(out, output.stdout@),
        call_ensures(version_from_output, (output,), res),
    ensures
        output.status.code == Some(0i32) ==> is_version_report(out, res),
        output.status.code != Some(0i32) ==> (res matches Err(e) && tells_of(e, output, err, out)),
{
    lemma_told(err, out);
}

/// The versions of a Solidity compiler are what its report says. A compiler that
/// fails, or that cannot be run, is told of.
pub proof fn solc_versions_come_from_reports(
    path: PathBuf,
    run: Result<Output, String>,
    err: Seq<char>,
    out: Seq<char>,
    res: Result<SolcVersionInfo, SolcError>,
)
    requires
        run matches Ok(output) ==> is_text_of(err, output.stderr@) && is_text_of(
            out,
            output.stdout@,
        ),
        call_ensures(Resolc::get_solc_version_info, (&path, run), res),
    ensures
        run matches Ok(output) ==> output.status.code == Some(0i32) ==> is_solc_report(out, res),
        run matches Ok(output) ==> output.status.code != Some(0i32) ==> (res matches Err(e)
            && tells_of(e, output, err, out)),
        run matches Err(m) ==> (res matches Err(e) && is_failure_at(e, m@, path)),
{
    lemma_told(err, out);
}

/// The same of what was printed.
pub proof fn solc_versions_come_from_output(
    output: Output,
    err: Seq<char>,
    out: Seq<char>,
    res: Result<SolcVersionInfo, SolcError>,
)
    requires
        is_text_of(err, output.stderr@),
        is_text_of(out, output.stdout@),
        call_ensures(solc_info_from_output, (output,), res),
    ensures
        output.status.code == Some(0i32) ==> is_solc_report(out, res),
        output.status.code != Some(0i32) ==> (res matches Err(e) && tells_of(e, output, err, out)),
{
    lemma_told(err, out);
}

/// Reports are read as reports.
pub proof fn reports_are_read(
    text: &str,
    version: Result<Version, SolcError>,
    info: Result<SolcVersionInfo, SolcError>,
)
    requires
        call_ensures(version_from_text, (text,), version),
        call_ensures(solc_info_from_text, (text,), info),
    ensures
        is_version_report(text@, version),
        is_solc_report(text@, info),
{
}

/// A text is read as the version whose text it is, and refused where there is none.
pub proof fn versions_are_read(text: &str, res: Result<Version, SolcError>)
    requires
        call_ensures(Version::parse, (text,), res),
    ensures
        res matches Ok(v) ==> v@.valid() && version_text(v@) == text@ && fits(text@),
        forall|v: VersionView|
            v.valid() && #[trigger] version_text(v) == text@ && fits(text@) ==> res is Ok
                && res->Ok_0@ == v,
        res is Err && fits(text@) ==> (res matches Err(SolcError::SemverError(m)) && m@ == refusal(
            text@,
        )),
        !fits(text@) ==> (res matches Err(SolcError::Message(m)) && m@
            == "version text is too long"@),
{
    assert forall|v: VersionView|
        v.valid() && #[trigger] version_text(v) == text@ && fits(text@) implies res is Ok
        && res->Ok_0@ == v by {
        lemma_parsed(text@, v);
    }
}

/// What a version is written as is read as that version.
pub proof fn written_versions_are_read(
    v: Version,
    written: String,
    text: &str,
    read: Result<Version, SolcError>,
)
    requires
        v@.valid(),
        call_ensures(Version::to_string, (&v,), written),
        text@ == written@,
        fits(text@),
        call_ensures(Version::parse, (text,), read),
    ensures
        read matches Ok(w) && w@ == v@,
{
    versions_are_read(text, read);
    assert(version_text(v@) == text@);
}

/// A version that is made of three numbers has these and no tags.
pub proof fn new_versions_have_no_tags(major: u64, minor: u64, patch: u64, res: Version)
    requires
        call_ensures(Version::new, (major, minor, patch), res),
    ensures
        res.major == major,
        res.minor == minor,
        res.patch == patch,
        res.pre@.len() == 0,
        res.build@.len() == 0,
{
    assert(res@.pre.len() == 0 && res@.build.len() == 0);
    assert(res@.major == major && res@.minor == minor && res@.patch == patch);
}

/// A compiler version gives out the version that it holds.
pub proof fn compiler_versions_give_out_theirs(c: CompilerVersion, res: &Version)
    requires
        call_ensures(CompilerVersion::as_ref, (&c,), res),
    ensures
        c matches CompilerVersion::Installed(v) ==> res@ == v@,
        c matches CompilerVersion::Remote(v) ==> res@ == v@,
{
}

/// A copy holds what was copied.
pub proof fn copies_are_alike(
    v: Version,
    of_v: Version,
    c: CompilerVersion,
    of_c: CompilerVersion,
    info: SolcVersionInfo,
    of_info: SolcVersionInfo,
)
    requires
        call_ensures(<Version as Clone>::clone, (&v,), of_v),
        call_ensures(<CompilerVersion as Clone>::clone, (&c,), of_c),
        call_ensures(<SolcVersionInfo as Clone>::clone, (&info,), of_info),
    ensures
        of_v@ == v@,
        c matches CompilerVersion::Installed(w) ==> (of_c matches CompilerVersion::Installed(x)
            && x@ == w@),
        c matches CompilerVersion::Remote(w) ==> (of_c matches CompilerVersion::Remote(x) && x@
            == w@),
        of_info.version@ == info.version@,
        info.revive_version is None ==> of_info.revive_version is None,
        info.revive_version matches Some(w) ==> (of_info.revive_version matches Some(x) && x@
            == w@),
{
}

/// Errors keep what they are made of.
pub proof fn errors_keep_their_parts(
    text: &str,
    message: SolcError,
    error: String,
    path: PathBuf,
    io: SolcError,
    mapped: SolcError,
)
    requires
        call_ensures(SolcError::msg, (text,), message),
        call_ensures(SolcError::io, (error, &path), io),
        call_ensures(map_io_err, (&path, error), mapped),
    ensures
        message matches SolcError::Message(m) && m@ == text@,
        is_failure_at(io, error@, path),
        is_failure_at(mapped, error@, path),
{
}

/// A request is granted where its code is from 200 to 299.
pub proof fn granted_codes(status: HttpStatus, res: bool)
    requires
        call_ensures(HttpStatus::success, (&status,), res),
    ensures
        res <==> 200 <= status.code <= 299,
{
}

/// Whether `step` is a failure with that message.
pub open spec fn fails_with_text(step: InstallStep, text: Seq<char>) -> bool {
    step matches InstallStep::Failed(SolcError::Message(m)) && m@ == text
}

/// Whether `step` gives up the lock and then fails with that message.
pub open spec fn releases_with_text(step: InstallStep, text: Seq<char>) -> bool {
    step matches InstallStep::ReleaseLock(Some(SolcError::Message(m))) && m@ == text
}

/// Up to the lock, what fails ends the installation and is told.
pub proof fn early_failures_are_told(from: Install, event: InstallEvent, to: Install)
    requires
        call_ensures(Install::advance, (from, event), to),
    ensures
        from.step is CreateDirectory ==> (event matches InstallEvent::DirectoryCreated(Err(e))
            ==> fails_with_text(to.step, "Could not create compilers path: "@ + e@)),
        from.step is SendRequest ==> (event matches InstallEvent::Response(Err(e))
            ==> fails_with_text(
            to.step,
            "Failed to download "@ + from.plan.label@ + " file: "@ + e@,
        )),
        from.step is SendRequest ==> (event matches InstallEvent::Response(Ok(status)) ==> !(200
            <= status.code <= 299) ==> fails_with_text(
            to.step,
            "Failed to download "@ + from.plan.label@ + " file: status code "@ + status.text@,
        )),
        from.step is ReadBody ==> (event matches InstallEvent::Body(Err(e)) ==> fails_with_text(
            to.step,
            "failed to download "@ + from.plan.label@ + " file: "@ + e@,
        )),
        from.step is TakeLock ==> (event matches InstallEvent::Locked(Err(LockFailure::Create))
            ==> fails_with_text(to.step, "Error creating lock file"@)),
        from.step is TakeLock ==> (event matches InstallEvent::Locked(Err(LockFailure::Take))
            ==> fails_with_text(to.step, "Error taking the lock"@)),
{
}

/// With the lock taken, what fails leads to giving up the lock and is told then.
pub proof fn late_failures_are_told(from: Install, event: InstallEvent, to: Install)
    requires
        call_ensures(Install::advance, (from, event), to),
    ensures
        from.step is CreateBinary ==> (event matches InstallEvent::BinaryCreated(Err(e))
            ==> releases_with_text(
            to.step,
            "Failed to create output "@ + from.plan.label@ + " file: "@ + e@,
        )),
        from.step is WriteBinary ==> (event matches InstallEvent::BinaryWritten(Err(e))
            ==> releases_with_text(
            to.step,
            "Failed to write the downloaded "@ + from.plan.label@ + " file: "@ + e@,
        )),
        from.step is SetPermissions ==> (event matches InstallEvent::PermissionsSet(Err(e))
            ==> releases_with_text(
            to.step,
            "Failed to set "@ + from.plan.label@ + " permissions: "@ + e@,
        )),
        from.step matches InstallStep::ReleaseLock(Some(e)) ==> event is LockReleased ==> to.step
            == InstallStep::Failed(e),
{
}

/// What goes well leads to the next step, and in the end to success.
pub proof fn installations_go_on(from: Install, event: InstallEvent, to: Install)
    requires
        call_ensures(Install::advance, (from, event), to),
    ensures
        from.step is CheckDirectory && event == InstallEvent::Directory(true)
            ==> to.step is SendRequest,
        from.step is CheckDirectory && event == InstallEvent::Directory(false)
            ==> to.step is CreateDirectory,
        from.step is CreateDirectory && (event matches InstallEvent::DirectoryCreated(Ok(_)))
            ==> to.step is SendRequest,
        from.step is SendRequest && (event matches InstallEvent::Response(Ok(status)) && 200
            <= status.code <= 299) ==> to.step is ReadBody,
        from.step is ReadBody && (event matches InstallEvent::Body(Ok(_))) ==> to.step is TakeLock,
        from.step is TakeLock && (event matches InstallEvent::Locked(Ok(_)))
            ==> to.step is CheckBinary,
        from.step is CheckBinary && event == InstallEvent::Binary(true) ==> to.step
            == InstallStep::ReleaseLock(None),
        from.step is CheckBinary && event == InstallEvent::Binary(false)
            ==> to.step is CreateBinary,
        from.step is CreateBinary && (event matches InstallEvent::BinaryCreated(Ok(_)))
            ==> to.step is WriteBinary,
        from.step is WriteBinary && (event matches InstallEvent::BinaryWritten(Ok(_)))
            ==> to.step is SetPermissions,
        from.step is SetPermissions && (event matches InstallEvent::PermissionsSet(Ok(_)))
            ==> to.step == InstallStep::ReleaseLock(None),
        from.step == InstallStep::ReleaseLock(None) && event is LockReleased
            ==> to.step is Finished,
{
}

/// Only the outcome of the step at hand changes an installation; its plan stays,
/// and its content is what was received last.
pub proof fn installations_only_heed_the_step_at_hand(from: Install, event: InstallEvent, to: Install)
    requires
        call_ensures(Install::advance, (from, event), to),
    ensures
        to.plan == from.plan,
        to.content == (if from.step is ReadBody && (event matches InstallEvent::Body(Ok(_))) {
            event->Body_0->Ok_0
        } else {
            from.content
        }),
        to.step == from.step || match from.step {
            InstallStep::CheckDirectory => event is Directory,
            InstallStep::CreateDirectory => event is DirectoryCreated,
            InstallStep::SendRequest => event is Response,
            InstallStep::ReadBody => event is Body,
            InstallStep::TakeLock => event is Locked,
            InstallStep::CheckBinary => event is Binary,
            InstallStep::CreateBinary => event is BinaryCreated,
            InstallStep::WriteBinary => event is BinaryWritten,
            InstallStep::SetPermissions => event is PermissionsSet,
            InstallStep::ReleaseLock(_) => event is LockReleased,
            InstallStep::Finished => false,
            InstallStep::Failed(_) => false,
        },
{
}

} // verus!
