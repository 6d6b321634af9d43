//! The systems that compilers are released for.

use vstd::prelude::*;

use crate::error::SolcError;
use crate::text::{joined, same};

verus! {

#[derive(Clone, Copy, Debug, PartialEq, Eq, Structural)]
pub enum ResolcOS {
    LinuxAMD64,
    LinuxARM64,
    MacAMD,
    MacARM,
}

/// The release system for a machine with that operating system and that
/// architecture, `None` where there are no releases.
pub open spec fn system_of(os: Seq<char>, arch: Seq<char>) -> Option<ResolcOS> {
    if os == "linux"@ {
        if arch == "aarch64"@ {
            Some(ResolcOS::LinuxARM64)
        } else {
            Some(ResolcOS::LinuxAMD64)
        }
    } else if os == "macos"@ || os == "darwin"@ {
        if arch == "aarch64"@ {
            Some(ResolcOS::MacARM)
        } else {
            Some(ResolcOS::MacAMD)
        }
    } else {
        None
    }
}

/// What the file name of a `resolc` release starts with.
pub open spec fn resolc_prefix(os: ResolcOS) -> Seq<char> {
    match os {
        ResolcOS::LinuxAMD64 => "resolc-linux-amd64-musl-"@,
        ResolcOS::LinuxARM64 => "resolc-linux-arm64-musl-"@,
        ResolcOS::MacAMD => "resolc-macosx-amd64-"@,
        ResolcOS::MacARM => "resolc-macosx-arm64-"@,
    }
}

/// What the file name of a `solc` release starts with.
pub open spec fn solc_prefix(os: ResolcOS) -> Seq<char> {
    match os {
        ResolcOS::LinuxAMD64 => "solc-linux-amd64-"@,
        ResolcOS::LinuxARM64 => "solc-linux-arm64-"@,
        ResolcOS::MacAMD => "solc-macosx-amd64-"@,
        ResolcOS::MacARM => "solc-macosx-arm64-"@,
    }
}

/// Finds the release system from the names of the machine's operating system
/// and architecture, as `std::env::consts` spells them.
pub fn get_operating_system(os: &str, arch: &str) -> (res: Result<ResolcOS, SolcError>)
    ensures
        res matches Ok(system) ==> system_of(os@, arch@) == Some(system),
        res is Err <==> system_of(os@, arch@) is None,
        res matches Err(e) ==> e.says("Unsupported operating system "@ + os@),
{
    if same(os, "linux") {
        if same(arch, "aarch64") {
            Ok(ResolcOS::LinuxARM64)
        } else {
            Ok(ResolcOS::LinuxAMD64)
        }
    } else if same(os, "macos") || same(os, "darwin") {
        if same(arch, "aarch64") {
            Ok(ResolcOS::MacARM)
        } else {
            Ok(ResolcOS::MacAMD)
        }
    } else {
        Err(SolcError::Message(joined("Unsupported operating system ", os)))
    }
}

impl ResolcOS {
    /// What the file name of a `resolc` release starts with.
    pub fn get_resolc_prefix(&self) -> (res: &str)
        ensures
            res@ == resolc_prefix(*self),
    {
        match self {
            Self::LinuxAMD64 => "resolc-linux-amd64-musl-",
            Self::LinuxARM64 => "resolc-linux-arm64-musl-",
            Self::MacAMD => "resolc-macosx-amd64-",
            Self::MacARM => "resolc-macosx-arm64-",
        }
    }

    /// What the file name of a `solc` release starts with.
    pub fn get_solc_prefix(&self) -> (res: &str)
        ensures
            res@ == solc_prefix(*self),
    {
        match self {
            Self::LinuxAMD64 => "solc-linux-amd64-",
            Self::LinuxARM64 => "solc-linux-arm64-",
            Self::MacAMD => "solc-macosx-amd64-",
            Self::MacARM => "solc-macosx-arm64-",
        }
    }
}

} // verus!
