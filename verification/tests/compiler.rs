use std::path::PathBuf;

use resolc::compiler::{CompilerReply, CompilerRun, CompilerSource, Resolc};
use resolc::error::{map_io_err, ExitStatus, SolcError};
use resolc::os::{get_operating_system, ResolcOS};
use resolc::paths::{lock_file_path, Host, InstallPath};
use resolc::process::{compile_output, CommandLine, Output};
use resolc::version::Version;

fn resolc_instance() -> Resolc {
    Resolc::new(PathBuf::from("resolc")).unwrap()
}

fn host() -> Host {
    Host {
        os: "linux".to_string(),
        arch: "x86_64".to_string(),
        home: Some(PathBuf::from("/home/user")),
    }
}

fn to_path(path: &InstallPath) -> PathBuf {
    let mut out = path.base.clone();
    for name in &path.names {
        out.push(name);
    }
    out
}

/// A process that ended with `code`, or by a hangup.
fn output(code: Option<i32>, stdout: &[u8], stderr: &[u8]) -> Output {
    let signal = if code.is_none() { Some(1) } else { None };
    Output { status: ExitStatus { code, signal }, stdout: stdout.to_vec(), stderr: stderr.to_vec() }
}

#[test]
fn test_get_operating_system() {
    let cases = [
        ("linux", "aarch64", ResolcOS::LinuxARM64),
        ("linux", "x86_64", ResolcOS::LinuxAMD64),
        ("macos", "aarch64", ResolcOS::MacARM),
        ("macos", "x86_64", ResolcOS::MacAMD),
        ("darwin", "aarch64", ResolcOS::MacARM),
        ("darwin", "x86_64", ResolcOS::MacAMD),
    ];
    for (os, arch, expected) in cases {
        assert_eq!(get_operating_system(os, arch).unwrap(), expected);
    }
}

#[test]
fn unsupported_operating_system_is_named() {
    match get_operating_system("windows", "x86_64") {
        Err(SolcError::Message(text)) => {
            assert_eq!(text, "Unsupported operating system windows")
        }
        other => panic!("{:?}", other),
    }
}

#[test]
fn test_resolc_prefix() {
    let os = get_operating_system("linux", "x86_64").unwrap();
    let prefix = os.get_resolc_prefix();
    assert!(!prefix.is_empty());
    assert!(prefix.contains("resolc"));
    assert!(prefix.ends_with('-'));
}

#[test]
fn test_solc_prefix() {
    let os = get_operating_system("linux", "x86_64").unwrap();
    let prefix = os.get_solc_prefix();
    assert!(!prefix.is_empty());
    assert!(prefix.contains("solc"));
    assert!(prefix.ends_with('-'));
}

#[test]
fn prefixes_of_all_systems() {
    assert_eq!(ResolcOS::LinuxAMD64.get_resolc_prefix(), "resolc-linux-amd64-musl-");
    assert_eq!(ResolcOS::LinuxARM64.get_resolc_prefix(), "resolc-linux-arm64-musl-");
    assert_eq!(ResolcOS::MacAMD.get_resolc_prefix(), "resolc-macosx-amd64-");
    assert_eq!(ResolcOS::MacARM.get_resolc_prefix(), "resolc-macosx-arm64-");
    assert_eq!(ResolcOS::LinuxAMD64.get_solc_prefix(), "solc-linux-amd64-");
    assert_eq!(ResolcOS::LinuxARM64.get_solc_prefix(), "solc-linux-arm64-");
    assert_eq!(ResolcOS::MacAMD.get_solc_prefix(), "solc-macosx-amd64-");
    assert_eq!(ResolcOS::MacARM.get_solc_prefix(), "solc-macosx-arm64-");
}

#[test]
fn test_new_resolc_instance() {
    let path = PathBuf::from("test_resolc");
    let resolc = Resolc::new(path.clone());
    assert!(resolc.is_ok());
    let resolc = resolc.unwrap();
    assert_eq!(resolc.resolc, path);
    assert!(resolc.extra_args.is_empty());
    assert!(resolc.base_path.is_none());
    assert!(resolc.allow_paths.is_empty());
    assert!(resolc.include_paths.is_empty());
}

#[test]
fn test_resolc_instance_with_solc() {
    let path = PathBuf::from("test_resolc");
    let resolc = Resolc::new(path.clone());
    assert!(resolc.is_ok());
    let resolc = resolc.unwrap();
    assert_eq!(resolc.resolc, path);
}

#[test]
fn test_compiler_path_generation() {
    let version = Version::new(1, 5, 7);
    let path = Resolc::compiler_path(&host(), &version);
    assert!(path.is_ok());
    let path = to_path(&path.unwrap());
    assert!(path.to_string_lossy().contains(&version.to_string()));
}

#[test]
fn compiler_path_is_spelled_out() {
    let version = Version::parse("0.1.0-dev.6").unwrap();
    let path = Resolc::compiler_path(&host(), &version).unwrap();
    assert_eq!(
        to_path(&path),
        PathBuf::from("/home/user/.revive/resolc-linux-amd64-musl-v0.1.0-dev.6"),
    );
}

#[test]
fn test_compiler_path_with_spaces() {
    let version = Version::new(0, 1, 0);
    let path = to_path(&Resolc::compiler_path(&host(), &version).unwrap());
    assert!(!path.to_string_lossy().contains(" "));
}

#[test]
fn test_compilers_dir_creation() {
    let dir = Resolc::compilers_dir(&host());
    assert!(dir.is_ok());
    let dir_path = to_path(&dir.unwrap());
    assert!(dir_path.ends_with(".revive"));
}

#[test]
fn missing_home_is_reported() {
    let host = Host { os: "linux".to_string(), arch: "x86_64".to_string(), home: None };
    let expected = "Could not build Resolc - homedir not found";
    match Resolc::compilers_dir(&host) {
        Err(SolcError::Message(text)) => assert_eq!(text, expected),
        other => panic!("{:?}", other),
    }
    match Resolc::compiler_path(&host, &Version::new(0, 1, 0)) {
        Err(SolcError::Message(text)) => assert_eq!(text, expected),
        other => panic!("{:?}", other),
    }
}

#[test]
fn unsupported_system_is_reported_before_the_missing_home() {
    let host = Host { os: "plan9".to_string(), arch: "x86_64".to_string(), home: None };
    for is_file in [false, true] {
        match Resolc::find_installed_version(&host, &Version::new(0, 1, 0), is_file) {
            Err(SolcError::Message(text)) => {
                assert_eq!(text, "Unsupported operating system plan9")
            }
            other => panic!("{:?}", other),
        }
    }
}

#[test]
fn test_lock_file_path() {
    let version = "1.5.7";
    let lock_path = to_path(&lock_file_path(&PathBuf::from("/home/user"), "resolc", version));
    assert!(lock_path.to_string_lossy().contains("resolc"));
    assert!(lock_path.to_string_lossy().contains(version));
    assert!(lock_path.to_string_lossy().contains(".lock"));
    assert_eq!(lock_path, PathBuf::from("/home/user/.revive/.lock-resolc-1.5.7"));
}

#[test]
fn locks_and_compilers_have_names_of_their_own() {
    let versions = ["0.1.0", "0.1.0-dev", "0.1.0+dev", "0.1.1", "1.0.0"];
    let mut names = Vec::new();
    for text in versions {
        let version = Version::parse(text).unwrap();
        for (os, arch) in [("linux", "x86_64"), ("linux", "aarch64"), ("macos", "x86_64")] {
            let host = Host {
                os: os.to_string(),
                arch: arch.to_string(),
                home: Some(PathBuf::from("/h")),
            };
            names.push(to_path(&Resolc::compiler_path(&host, &version).unwrap()));
        }
        names.push(to_path(&lock_file_path(&PathBuf::from("/h"), "resolc", text)));
    }
    let count = names.len();
    names.sort();
    names.dedup();
    assert_eq!(names.len(), count);
}

#[test]
fn test_find_nonexistent_version() {
    let version = Version::parse("99.99.99-dev").unwrap();
    let result = Resolc::find_installed_version(&host(), &version, false);
    assert!(result.is_ok());
    assert!(result.unwrap().is_none());
}

#[test]
fn test_find_installed_versions() {
    let versions =
        [Version::parse("0.1.0-dev-6").unwrap(), Version::parse("0.1.0-dev-5").unwrap()];
    for version in &versions {
        let path = Resolc::blocking_install(&host(), version).unwrap().plan.compiler_path;
        let result = Resolc::find_installed_version(&host(), version, true);
        assert!(result.is_ok());
        let path_opt = result.unwrap();
        assert!(path_opt.is_some());
        assert_eq!(path_opt.unwrap(), path);
    }
}

#[test]
fn path_for_version_is_found_or_installed() {
    let version = Version::new(0, 1, 0);
    match Resolc::get_path_for_version(&host(), &version, true).unwrap() {
        CompilerSource::Installed(path) => assert_eq!(
            to_path(&path),
            PathBuf::from("/home/user/.revive/resolc-linux-amd64-musl-v0.1.0"),
        ),
        other => panic!("{:?}", other),
    }
    match Resolc::get_path_for_version(&host(), &version, false).unwrap() {
        CompilerSource::ToInstall(install) => assert_eq!(
            to_path(&install.plan.compiler_path),
            PathBuf::from("/home/user/.revive/resolc-linux-amd64-musl-v0.1.0"),
        ),
        other => panic!("{:?}", other),
    }
}

#[test]
fn test_configure_cmd() {
    let resolc = resolc_instance();
    let cmd = resolc.configure_cmd();
    assert!(cmd.args.iter().any(|arg| arg == "--standard-json"));
}

#[test]
fn test_configure_cmd_with_base_path() {
    let mut resolc = resolc_instance();
    resolc.base_path = Some(PathBuf::from("/some/dir"));
    let cmd = resolc.configure_cmd();
    assert!(cmd.args.contains(&"--standard-json".to_string()));
}

#[test]
fn test_configure_cmd_with_paths() {
    let mut resolc = resolc_instance();
    resolc.allow_paths.insert(PathBuf::from("/some/dir"));
    resolc.include_paths.insert(PathBuf::from("/some/dir"));
    let cmd = resolc.configure_cmd();
    assert!(cmd.args.contains(&"--standard-json".to_string()));
}

#[test]
fn command_keeps_the_extra_arguments_in_front() {
    let mut resolc = resolc_instance();
    resolc.extra_args = vec!["--solc".to_string(), "/bin/solc".to_string()];
    let cmd = resolc.configure_cmd();
    assert_eq!(cmd.program, PathBuf::from("resolc"));
    assert_eq!(cmd.args, vec!["--solc", "/bin/solc", "--standard-json"]);
    let query = CommandLine::version_query(&PathBuf::from("/bin/solc"));
    assert_eq!(query.program, PathBuf::from("/bin/solc"));
    assert_eq!(query.args, vec!["--version"]);
}

#[test]
fn test_compile_empty_input() {
    let resolc = resolc_instance();
    let result = resolc.compile(CompilerRun::NotStarted("No such file or directory".to_string()));
    assert!(result.is_ok());
}

#[test]
fn compile_takes_json_from_a_success_only() {
    let resolc = resolc_instance();
    match resolc.compile(CompilerRun::Ended(output(Some(0), "{\"a\": \"\u{e9}\"}".as_bytes(), b""))) {
        Ok(CompilerReply::Json(text)) => assert_eq!(text, "{\"a\": \"\u{e9}\"}"),
        other => panic!("{:?}", other),
    }
    match resolc.compile(CompilerRun::Ended(output(Some(0), b"{\xff}", b""))) {
        Err(SolcError::InvalidUtf8) => {}
        other => panic!("{:?}", other),
    }
    let failures = vec![
        CompilerRun::NotStarted("a".to_string()),
        CompilerRun::NotFed("b".to_string()),
        CompilerRun::NotAwaited("c".to_string()),
        CompilerRun::Ended(output(Some(1), b"{}", b"")),
        CompilerRun::Ended(output(None, b"{}", b"")),
    ];
    for run in failures {
        match resolc.compile(run) {
            Ok(CompilerReply::Empty) => {}
            other => panic!("{:?}", other),
        }
    }
}

#[test]
fn compile_output_names_what_failed() {
    let resolc = resolc_instance();
    match resolc.compile_output(CompilerRun::NotStarted("gone".to_string())) {
        Err(SolcError::Io { error, path }) => {
            assert_eq!(error, "gone");
            assert_eq!(path, PathBuf::from("resolc"));
        }
        other => panic!("{:?}", other),
    }
    match resolc.compile_output(CompilerRun::NotFed("no json".to_string())) {
        Err(SolcError::SerdeJson(error)) => assert_eq!(error, "no json"),
        other => panic!("{:?}", other),
    }
    match resolc.compile_output(CompilerRun::NotAwaited("lost".to_string())) {
        Err(SolcError::Io { error, path }) => {
            assert_eq!(error, "lost");
            assert_eq!(path, PathBuf::from("resolc"));
        }
        other => panic!("{:?}", other),
    }
    match resolc.compile_output(CompilerRun::Ended(output(Some(0), b"\xff\x00", b"noise"))) {
        Ok(bytes) => assert_eq!(bytes, b"\xff\x00"),
        other => panic!("{:?}", other),
    }
}

#[test]
fn io_errors_keep_message_and_path() {
    match map_io_err(&PathBuf::from("/bin/resolc"), "denied".to_string()) {
        SolcError::Io { error, path } => {
            assert_eq!(error, "denied");
            assert_eq!(path, PathBuf::from("/bin/resolc"));
        }
        other => panic!("{:?}", other),
    }
}

#[test]
fn test_compile_output_success() {
    let result = compile_output(output(Some(0), b"test output", b""));
    assert!(result.is_ok());
    assert_eq!(result.unwrap(), b"test output");
}

#[test]
fn test_compile_output_failure() {
    let result = compile_output(output(None, b"", b"error"));
    assert!(result.is_err());
}

#[test]
fn test_compile_output_with_stderr() {
    let result = compile_output(output(None, b"", b"compilation error\n"));
    assert!(result.is_err());
    assert!(format!("{:?}", result.unwrap_err()).contains("compilation error"));
}

#[test]
fn failures_show_what_was_printed() {
    let cases: [(&[u8], &[u8], &str); 5] = [
        (b" out ", b" err \n", "err"),
        (b" out ", b" \n\t", "out"),
        (b"", b"", "<empty output>"),
        (b"\n", b"\xff!", "\u{fffd}!"),
        (b"\xe2\x82", b"", "\u{fffd}"),
    ];
    for (stdout, stderr, expected) in cases {
        match compile_output(output(Some(2), stdout, stderr)) {
            Err(SolcError::SolcError(status, text)) => {
                assert_eq!(status, ExitStatus { code: Some(2), signal: None });
                assert_eq!(text, expected);
            }
            other => panic!("{:?}", other),
        }
    }
}
