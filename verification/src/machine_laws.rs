//! What holds of the files and addresses of a machine, said by the names of its
//! operating system and of its architecture.

use std::path::PathBuf;

use vstd::prelude::*;

use crate::compiler::{CompilerSource, Resolc};
use crate::error::SolcError;
use crate::install::{download_url, Install};
use crate::os::{get_operating_system, resolc_prefix, solc_prefix, system_of, ResolcOS};
use crate::paths::{compiler_name, compiler_names, lock_file_path, texts, Host, InstallPath};
use crate::version::{core_text, fits, version_text, Version, VersionView};
use crate::version_laws::installed_compilers_are_listed;
use crate::versions::listed_version;

verus! {

/// Whether there are releases for that operating system.
pub open spec fn is_released_for(os: Seq<char>) -> bool {
    os == "linux"@ || os == "macos"@ || os == "darwin"@
}

/// How releases name a machine.
pub open spec fn machine(os: Seq<char>, arch: Seq<char>) -> Seq<char> {
    (if os == "linux"@ {
        "linux-"@
    } else {
        "macosx-"@
    }) + (if arch == "aarch64"@ {
        "arm64-"@
    } else {
        "amd64-"@
    })
}

/// What the name of a compiler for that machine starts with.
pub open spec fn binary_prefix(os: Seq<char>, arch: Seq<char>) -> Seq<char> {
    "resolc-"@ + machine(os, arch) + (if os == "linux"@ {
        "musl-"@
    } else {
        Seq::empty()
    })
}

/// Whether `e` says why there can be no compiler on that machine.
pub open spec fn explains(e: SolcError, host: Host) -> bool {
    e matches SolcError::Message(m) && m@ == if !is_released_for(host.os@) {
        "Unsupported operating system "@ + host.os@
    } else {
        "Could not build Resolc - homedir not found"@
    }
}

/// Whether `path` is that of `name` in the compilers directory of that machine.
pub open spec fn is_kept_as(path: InstallPath, host: Host, name: Seq<char>) -> bool {
    &&& host.home == Some(path.base)
    &&& path.names@.len() == 2
    &&& path.names@[0]@ == ".revive"@
    &&& path.names@[1]@ == name
}

/// The release system of a machine, and what its files are called, follow from the
/// names of the operating system and of the architecture.
pub proof fn prefixes_name_the_machine(os: Seq<char>, arch: Seq<char>)
    ensures
        system_of(os, arch) is Some <==> is_released_for(os),
        system_of(os, arch) matches Some(system) ==> resolc_prefix(system) == binary_prefix(
            os,
            arch,
        ) && solc_prefix(system) == "solc-"@ + machine(os, arch),
{
    reveal_strlit("linux");
    reveal_strlit("macos");
    reveal_strlit("darwin");
    reveal_strlit("resolc-");
    reveal_strlit("solc-");
    reveal_strlit("linux-");
    reveal_strlit("macosx-");
    reveal_strlit("arm64-");
    reveal_strlit("amd64-");
    reveal_strlit("musl-");
    reveal_strlit("resolc-linux-amd64-musl-");
    reveal_strlit("resolc-linux-arm64-musl-");
    reveal_strlit("resolc-macosx-amd64-");
    reveal_strlit("resolc-macosx-arm64-");
    reveal_strlit("solc-linux-amd64-");
    reveal_strlit("solc-linux-arm64-");
    reveal_strlit("solc-macosx-amd64-");
    reveal_strlit("solc-macosx-arm64-");
    assert("linux"@[0] == 'l' && "macos"@[0] == 'm' && "darwin"@[0] == 'd');
    if system_of(os, arch) is Some {
        let system = system_of(os, arch)->0;
        assert(resolc_prefix(system) =~= binary_prefix(os, arch));
        assert(solc_prefix(system) =~= "solc-"@ + machine(os, arch));
    }
}

/// The system that is found is the one that releases name like the machine.
pub proof fn systems_are_found(os: &str, arch: &str, res: Result<ResolcOS, SolcError>)
    requires
        call_ensures(get_operating_system, (os, arch), res),
    ensures
        res is Ok <==> is_released_for(os@),
        res matches Ok(system) ==> resolc_prefix(system) == binary_prefix(os@, arch@)
            && solc_prefix(system) == "solc-"@ + machine(os@, arch@),
        res matches Err(e) ==> (e matches SolcError::Message(m) && m@
            == "Unsupported operating system "@ + os@),
{
    prefixes_name_the_machine(os@, arch@);
}

/// A system gives out its own prefixes.
pub proof fn prefixes_are_given_out(
    os: Seq<char>,
    arch: Seq<char>,
    system: ResolcOS,
    resolc: &str,
    solc: &str,
)
    requires
        system_of(os, arch) == Some(system),
        call_ensures(ResolcOS::get_resolc_prefix, (&system,), resolc),
        call_ensures(ResolcOS::get_solc_prefix, (&system,), solc),
    ensures
        resolc@ == binary_prefix(os, arch),
        solc@ == "solc-"@ + machine(os, arch),
{
    prefixes_name_the_machine(os, arch);
}

/// No two systems share a prefix.
pub proof fn prefixes_differ(a: ResolcOS, b: ResolcOS)
    requires
        a != b,
    ensures
        resolc_prefix(a) != resolc_prefix(b),
        !resolc_prefix(a).is_prefix_of(resolc_prefix(b)),
        solc_prefix(a) != solc_prefix(b),
{
    reveal_strlit("resolc-linux-amd64-musl-");
    reveal_strlit("resolc-linux-arm64-musl-");
    reveal_strlit("resolc-macosx-amd64-");
    reveal_strlit("resolc-macosx-arm64-");
    reveal_strlit("solc-linux-amd64-");
    reveal_strlit("solc-linux-arm64-");
    reveal_strlit("solc-macosx-amd64-");
    reveal_strlit("solc-macosx-arm64-");
    let p = resolc_prefix(a);
    let q = resolc_prefix(b);
    if p.is_prefix_of(q) {
        let t = q.take(p.len() as int);
        assert(t[7] == q[7] && t[14] == q[14] && t[15] == q[15]);
    }
    let s = solc_prefix(a);
    let t = solc_prefix(b);
    if s == t {
        assert(s[5] == t[5] && s[12] == t[12] && s[13] == t[13]);
    }
}

/// The compilers directory is `.revive` in the user's home.
pub proof fn compilers_are_kept_at_home(host: Host, res: Result<InstallPath, SolcError>)
    requires
        call_ensures(Resolc::compilers_dir, (&host,), res),
    ensures
        res is Ok <==> host.home is Some,
        res matches Ok(path) ==> host.home == Some(path.base) && path.names@.len() == 1
            && path.names@[0]@ == ".revive"@,
        res matches Err(e) ==> (e matches SolcError::Message(m) && m@
            == "Could not build Resolc - homedir not found"@),
{
    if res is Ok {
        lemma_names(res->Ok_0);
    }
}

proof fn lemma_names(path: InstallPath)
    ensures
        texts(path.names@).len() == path.names@.len(),
        forall|i: int|
            0 <= i < path.names@.len() ==> #[trigger] path.names@[i]@ == texts(path.names@)[i],
{
}

/// The compiler of a version is kept under the machine's own name for it.
pub proof fn compilers_are_kept_under_their_names(
    host: Host,
    version: Version,
    res: Result<InstallPath, SolcError>,
)
    requires
        call_ensures(Resolc::compiler_path, (&host, &version), res),
    ensures
        res is Ok <==> is_released_for(host.os@) && host.home is Some,
        res matches Ok(path) ==> is_kept_as(
            path,
            host,
            binary_prefix(host.os@, host.arch@) + "v"@ + version_text(version@),
        ),
        res matches Err(e) ==> explains(e, host),
{
    prefixes_name_the_machine(host.os@, host.arch@);
    if res is Ok {
        lemma_names(res->Ok_0);
    }
}

/// A compiler is looked for under the machine's own name for it, and found where
/// there is a file.
pub proof fn compilers_are_found_under_their_names(
    host: Host,
    version: Version,
    is_file: bool,
    res: Result<Option<InstallPath>, SolcError>,
)
    requires
        call_ensures(Resolc::find_installed_version, (&host, &version, is_file), res),
    ensures
        res is Ok <==> is_released_for(host.os@) && host.home is Some,
        res matches Ok(found) ==> (found is Some <==> is_file),
        res matches Ok(Some(path)) ==> is_kept_as(
            path,
            host,
            binary_prefix(host.os@, host.arch@) + "v"@ + version_text(version@),
        ),
        res matches Err(e) ==> explains(e, host),
{
    prefixes_name_the_machine(host.os@, host.arch@);
    if res is Ok && res->Ok_0 is Some {
        lemma_names(res->Ok_0->0);
    }
}

/// The lock file is named after the compiler and its version.
pub proof fn locks_are_named(home: PathBuf, compiler: &str, version: &str, res: InstallPath)
    requires
        call_ensures(lock_file_path, (&home, compiler, version), res),
    ensures
        res.base == home,
        res.names@.len() == 2,
        res.names@[0]@ == ".revive"@,
        res.names@[1]@ == ".lock-"@ + compiler@ + "-"@ + version@,
{
    lemma_names(res);
}

/// Where the compiler of a release is fetched from.
pub open spec fn release_address(os: Seq<char>, arch: Seq<char>, v: VersionView) -> Seq<char> {
    "https://github.com/paritytech/resolc-bin/releases/download/v"@ + version_text(v) + "/"@ + (
    binary_prefix(os, arch) + "v"@ + version_text(v))
}

/// Where the compiler of a pre-release is fetched from.
pub open spec fn pre_release_address(os: Seq<char>, arch: Seq<char>, v: VersionView) -> Seq<char> {
    "https://github.com/paritytech/revive/releases/download/"@ + v.pre + "/resolc-"@
        + binary_prefix(os, arch) + "v"@ + core_text(v)
}

/// Whether `install` is about to install version `v` on that machine.
pub open spec fn is_fresh_installation(install: Install, host: Host, v: VersionView) -> bool {
    let plan = install.plan;
    &&& host.home == Some(plan.directory.base)
    &&& plan.directory.names@.len() == 1
    &&& plan.directory.names@[0]@ == ".revive"@
    &&& is_kept_as(
        plan.compiler_path,
        host,
        binary_prefix(host.os@, host.arch@) + "v"@ + version_text(v),
    )
    &&& is_kept_as(plan.lock_path, host, ".lock-"@ + "resolc"@ + "-"@ + version_text(v))
    &&& plan.label@ == "resolc-"@ + version_text(v)
    &&& plan.download_url@ == if v.pre.len() == 0 {
        release_address(host.os@, host.arch@, v)
    } else {
        pre_release_address(host.os@, host.arch@, v)
    }
    &&& install.step is CheckDirectory
    &&& install.content@.len() == 0
}

proof fn lemma_fresh_installation(install: Install, host: Host, v: VersionView)
    requires
        install.plan.is_for(host, v),
        install.step is CheckDirectory,
        install.content@.len() == 0,
    ensures
        is_fresh_installation(install, host, v),
{
    prefixes_name_the_machine(host.os@, host.arch@);
    lemma_names(install.plan.directory);
    lemma_names(install.plan.compiler_path);
    lemma_names(install.plan.lock_path);
}

/// An installation fetches the machine's own compiler of that version and puts it
/// where that compiler is looked for.
pub proof fn installations_are_for_the_machine(
    host: Host,
    version: Version,
    res: Result<Install, SolcError>,
)
    requires
        call_ensures(Resolc::blocking_install, (&host, &version), res),
    ensures
        res is Ok <==> is_released_for(host.os@) && host.home is Some,
        res matches Ok(install) ==> is_fresh_installation(install, host, version@),
        res matches Err(e) ==> explains(e, host),
{
    prefixes_name_the_machine(host.os@, host.arch@);
    if res is Ok {
        lemma_fresh_installation(res->Ok_0, host, version@);
    }
}

/// A compiler comes from its path where it is there, and from a fresh installation
/// where it is not.
pub proof fn compilers_come_from_their_paths_or_are_installed(
    host: Host,
    version: Version,
    is_file: bool,
    res: Result<CompilerSource, SolcError>,
)
    requires
        call_ensures(Resolc::get_path_for_version, (&host, &version, is_file), res),
    ensures
        res is Ok <==> is_released_for(host.os@) && host.home is Some,
        res matches Ok(CompilerSource::Installed(path)) ==> is_file && is_kept_as(
            path,
            host,
            binary_prefix(host.os@, host.arch@) + "v"@ + version_text(version@),
        ),
        res matches Ok(CompilerSource::ToInstall(install)) ==> !is_file && is_fresh_installation(
            install,
            host,
            version@,
        ),
        res matches Err(e) ==> explains(e, host),
{
    prefixes_name_the_machine(host.os@, host.arch@);
    match res {
        Ok(CompilerSource::Installed(path)) => lemma_names(path),
        Ok(CompilerSource::ToInstall(install)) => lemma_fresh_installation(
            install,
            host,
            version@,
        ),
        Err(_) => {},
    }
}

/// The address of a download ends with the name of the binary for that system.
pub proof fn downloads_end_with_the_binary(os: ResolcOS, v: VersionView)
    ensures
        v.pre.len() == 0 ==> ("/"@ + resolc_prefix(os) + "v"@ + version_text(v)).is_suffix_of(
            download_url(os, v),
        ),
        v.pre.len() > 0 ==> ("/resolc-"@ + resolc_prefix(os) + "v"@ + core_text(v)).is_suffix_of(
            download_url(os, v),
        ),
{
    let url = download_url(os, v);
    if v.pre.len() == 0 {
        let end = "/"@ + resolc_prefix(os) + "v"@ + version_text(v);
        assert(url.subrange(url.len() - end.len(), url.len() as int) =~= end);
    } else {
        let end = "/resolc-"@ + resolc_prefix(os) + "v"@ + core_text(v);
        assert(url.subrange(url.len() - end.len(), url.len() as int) =~= end);
    }
}

/// The address of a download starts with that of the release it belongs to.
pub proof fn downloads_start_with_the_release(os: ResolcOS, v: VersionView)
    ensures
        v.pre.len() == 0 ==> ("https://github.com/paritytech/resolc-bin/releases/download/v"@
            + version_text(v) + "/"@).is_prefix_of(download_url(os, v)),
        v.pre.len() > 0 ==> ("https://github.com/paritytech/revive/releases/download/"@ + v.pre
            + "/resolc-"@).is_prefix_of(download_url(os, v)),
{
    let url = download_url(os, v);
    if v.pre.len() == 0 {
        let start = "https://github.com/paritytech/resolc-bin/releases/download/v"@ + version_text(
            v,
        ) + "/"@;
        assert(url.take(start.len() as int) =~= start);
    } else {
        let start = "https://github.com/paritytech/revive/releases/download/"@ + v.pre
            + "/resolc-"@;
        assert(url.take(start.len() as int) =~= start);
    }
}

/// No two systems are given the same download.
pub proof fn downloads_differ_by_system(a: ResolcOS, b: ResolcOS, v: VersionView)
    requires
        a != b,
    ensures
        download_url(a, v) != download_url(b, v),
{
    prefixes_differ(a, b);
    prefixes_differ(b, a);
    let url = download_url(a, v);
    let other = download_url(b, v);
    let start = if v.pre.len() == 0 {
        "https://github.com/paritytech/resolc-bin/releases/download/v"@ + version_text(v) + "/"@
    } else {
        "https://github.com/paritytech/revive/releases/download/"@ + v.pre + "/resolc-"@
    };
    if url == other {
        let n = start.len() as int;
        let p = resolc_prefix(a);
        let q = resolc_prefix(b);
        assert(url.subrange(n, n + p.len()) =~= p);
        assert(other.subrange(n, n + q.len()) =~= q);
        if p.len() <= q.len() {
            assert(q.take(p.len() as int) =~= other.subrange(n, n + p.len()));
        } else {
            assert(p.take(q.len() as int) =~= url.subrange(n, n + q.len()));
        }
    }
}

/// The compiler of a version is looked for under the name under which it is
/// listed on that machine.
pub proof fn compilers_are_looked_for_as_listed(host: Host, v: VersionView)
    requires
        host.supported(),
        v.valid(),
        fits(version_text(v)),
    ensures
        compiler_names(host, v).len() == 2,
        compiler_names(host, v).last() == compiler_name(host.system()->0, v),
        listed_version(host.system()->0, compiler_names(host, v).last()) == Some(v),
{
    installed_compilers_are_listed(host.system()->0, v);
}

/// Machines with different systems look for different files.
pub proof fn compiler_paths_differ_by_system(a: Host, b: Host, v: VersionView, w: VersionView)
    requires
        a.supported(),
        b.supported(),
        a.system() != b.system(),
    ensures
        compiler_names(a, v) != compiler_names(b, w),
        compiler_names(a, v).last() != compiler_names(b, w).last(),
{
    let p = resolc_prefix(a.system()->0);
    let q = resolc_prefix(b.system()->0);
    prefixes_differ(a.system()->0, b.system()->0);
    prefixes_differ(b.system()->0, a.system()->0);
    let x = compiler_names(a, v).last();
    let y = compiler_names(b, w).last();
    if x == y {
        assert(x.take(p.len() as int) =~= p);
        assert(y.take(q.len() as int) =~= q);
        if p.len() <= q.len() {
            assert(q.take(p.len() as int) =~= y.take(p.len() as int));
        } else {
            assert(p.take(q.len() as int) =~= x.take(q.len() as int));
        }
    }
}

} // verus!
