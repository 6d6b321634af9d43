use std::path::PathBuf;

use resolc::compiler::Resolc;
use resolc::error::{ExitStatus, SolcError};
use resolc::paths::Host;
use resolc::process::{
    read_text, solc_info_from_text, version_from_output, version_from_text, Output,
};
use resolc::version::Version;

/// A process that ended with `code`, or by a hangup.
fn output(code: Option<i32>, stdout: &[u8], stderr: &[u8]) -> Output {
    let signal = if code.is_none() { Some(1) } else { None };
    Output { status: ExitStatus { code, signal }, stdout: stdout.to_vec(), stderr: stderr.to_vec() }
}

#[test]
fn test_version_detection() {
    let run = Ok(output(Some(0), b"resolc version v0.1.0\n", b""));
    let version = Resolc::get_version_for_path(&PathBuf::from("fake_resolc"), run);
    assert!(version.is_ok());
    assert_eq!(version.unwrap(), Version::new(0, 1, 0));
}

#[test]
fn test_resolc_version_handling() {
    let version = Version::new(0, 1, 0);

    let run = Ok(output(Some(0), b"resolc version v0.1.0\n", b""));
    let reported_version = Resolc::get_version_for_path(&PathBuf::from("fake_resolc"), run);
    assert!(reported_version.is_ok());
    assert_eq!(reported_version.unwrap(), Version::new(0, 1, 0));

    let host = Host {
        os: "linux".to_string(),
        arch: "x86_64".to_string(),
        home: Some(PathBuf::from("/home/user")),
    };
    let install_path = Resolc::compiler_path(&host, &version);
    assert!(install_path.is_ok());
    assert!(install_path.unwrap().names.iter().any(|name| name.contains("0.1.0")));
}

#[test]
fn test_version_parsing() {
    let version = version_from_output(output(Some(0), b"resolc version v1.5.7\n", b""));
    assert!(version.is_ok());
    let version = version.unwrap();
    assert_eq!(version.major, 1);
    assert_eq!(version.minor, 5);
    assert_eq!(version.patch, 7);
}

#[test]
fn test_failed_version_parsing() {
    let version = version_from_output(output(None, b"", b"error\n"));
    assert!(version.is_err());
}

#[test]
fn test_version_info() {
    let version = version_from_output(output(None, b"", b"error\n"));
    assert!(version.is_err());
}

#[test]
fn test_invalid_version_output() {
    let version = version_from_output(output(Some(0), b"invalid version format\n", b""));
    assert!(version.is_err());
}

#[test]
fn test_version_from_output_with_whitespace() {
    let version = version_from_output(output(Some(0), b"resolc version   v1.5.7  \n", b""));
    assert!(version.is_ok());
    let version = version.unwrap();
    assert_eq!(version.major, 1);
    assert_eq!(version.minor, 5);
    assert_eq!(version.patch, 7);
}

#[test]
fn test_version_from_output_with_extra_info() {
    let stdout = b"Some other info\nresolc version v1.5.7\nExtra info";
    let version = version_from_output(output(Some(0), stdout, b""));
    assert!(version.is_ok(), "Failed to parse version: {:?}", version);
    let version = version.unwrap();
    assert_eq!(version.to_string(), "1.5.7");
}

#[test]
fn announced_versions_are_read() {
    for text in ["0.0.0", "1.2.3-alpha.1", "1.2.3+b-1", "18446744073709551615.0.1-a+b"] {
        let report = format!("resolc version v{}\nand so on", text);
        assert_eq!(version_from_text(&report).unwrap().to_string(), text);
    }
}

#[test]
fn version_reports_that_name_no_version() {
    let cases = [
        ("", "Version not found in resolc output"),
        ("Version 1.2.3", "Version not found in resolc output"),
        (" \n1.2.3\n", "Version not found in resolc output"),
        ("version 1.2", "Unable to retrieve version from resolc output"),
        ("version\n1.2.3", "Unable to retrieve version from resolc output"),
        ("version v01.2.3 V1.2.3", "Unable to retrieve version from resolc output"),
    ];
    for (text, expected) in cases {
        match version_from_text(text) {
            Err(SolcError::Message(said)) => assert_eq!(said, expected),
            other => panic!("{:?}", other),
        }
    }
}

#[test]
fn first_word_that_is_a_version_wins() {
    let cases = [
        ("version 1.2 vvv1.2.3 4.5.6", "1.2.3"),
        ("a\r\n\r\nversion\u{a0}7.8.9\r\nversion 1.1.1", "7.8.9"),
        ("conversion 2.0.0-rc.1", "2.0.0-rc.1"),
    ];
    for (text, expected) in cases {
        assert_eq!(version_from_text(text).unwrap().to_string(), expected);
    }
}

#[test]
fn failed_runs_are_reported() {
    let path = PathBuf::from("resolc");
    match Resolc::get_version_for_path(&path, Err("not found".to_string())) {
        Err(SolcError::Io { error, path }) => {
            assert_eq!(error, "not found");
            assert_eq!(path, PathBuf::from("resolc"));
        }
        other => panic!("{:?}", other),
    }
    let run = Ok(output(Some(3), b"resolc version v1.5.7\n", b"bad"));
    match Resolc::get_version_for_path(&path, run) {
        Err(SolcError::SolcError(status, text)) => {
            assert_eq!(status.code, Some(3));
            assert_eq!(text, "bad");
        }
        other => panic!("{:?}", other),
    }
    match Resolc::get_solc_version_info(&path, Ok(output(Some(3), b"x\nVersion: 0.8.1", b""))) {
        Err(SolcError::SolcError(_, text)) => assert_eq!(text, "x\nVersion: 0.8.1"),
        other => panic!("{:?}", other),
    }
}

#[test]
fn test_get_solc_version_info_success() {
    let stdout = b"solc, the solidity compiler commandline interface\nVersion: 0.8.28+commit.7893614a.Linux.g++\n";
    let version_info =
        Resolc::get_solc_version_info(&PathBuf::from("solc"), Ok(output(Some(0), stdout, b"")));
    assert!(version_info.is_ok());
    let info = version_info.unwrap();
    assert!(info.version.major == 0);
    assert!(info.version.minor == 8);
    assert_eq!(info.version.to_string(), "0.8.28+commit.7893614a.Linux.gcc");
    assert_eq!(info.revive_version, None);
}

#[test]
fn test_get_solc_version_info_invalid_path() {
    let invalid_path = PathBuf::from("invalid_solc");
    let version_info =
        Resolc::get_solc_version_info(&invalid_path, Err("No such file".to_string()));
    assert!(version_info.is_err());
}

#[test]
fn solc_reports() {
    let info = solc_info_from_text("solc\n\nVersion: Version: 0.8.20\nRevive: 0.8.20-1.0.1 \n\n");
    let info = info.unwrap();
    assert_eq!(info.version, Version::new(0, 8, 20));
    assert_eq!(info.revive_version.unwrap().to_string(), "0.8.20-1.0.1");

    let info = solc_info_from_text("solc\n0.8.1+.g++.g++").map(|info| info.version);
    match info {
        Err(SolcError::SemverError(said)) => {
            assert_eq!(said, "empty identifier segment in build metadata")
        }
        other => panic!("{:?}", other),
    }
    let info = solc_info_from_text("solc\n0.8.1+a.g++.g++").unwrap();
    assert_eq!(info.version.build, "a.gcc.gcc");

    let info = solc_info_from_text("solc\nVersion: 0.8.1\nRevive: none").unwrap();
    assert_eq!(info.revive_version, None);
    let info = solc_info_from_text("solc\nVersion: 0.8.1\n Revive: 1.0.0").unwrap();
    assert_eq!(info.revive_version, None);
    let info = solc_info_from_text("solc\nVersion: 0.8.1\nRevive 1.0.0").unwrap();
    assert_eq!(info.revive_version, None);
    let info = solc_info_from_text("solc\nVersion: 0.8.1\nRevive:Revive:1.0.0").unwrap();
    assert_eq!(info.revive_version, Some(Version::new(1, 0, 0)));
}

#[test]
fn solc_reports_without_version() {
    for text in ["", "Version: 0.8.1", "\n\nVersion: 0.8.1\n \n"] {
        match solc_info_from_text(text) {
            Err(SolcError::Message(said)) => assert_eq!(said, "Version not found in Solc output"),
            other => panic!("{:?}", other),
        }
    }
    let cases = [
        ("solc\nVersion: v0.8.1", "v0.8.1"),
        ("solc\nVersion: 0.8.1 ", "0.8.1 "),
        ("solc\nversion: 0.8.1", "version: 0.8.1"),
        ("solc\nVersion: Version: \nRevive: 1.0.0", ""),
    ];
    for (text, field) in cases {
        match solc_info_from_text(text) {
            Err(SolcError::SemverError(said)) => {
                assert_eq!(said, semver::Version::parse(field).unwrap_err().to_string())
            }
            other => panic!("{:?}", other),
        }
    }
}

#[test]
fn signals_are_kept() {
    let status = ExitStatus { code: None, signal: Some(9) };
    let killed = Output { status, stdout: b"resolc version v1.5.7\n".to_vec(), stderr: vec![] };
    match version_from_output(killed) {
        Err(SolcError::SolcError(status, _)) => assert_eq!(status.signal, Some(9)),
        other => panic!("{:?}", other),
    }
}

#[test]
fn bytes_are_read_as_text() {
    assert_eq!(read_text("gr\u{fc}n".as_bytes()), "gr\u{fc}n");
    assert_eq!(read_text(b"a\xf0\x9f\x98b\xff"), "a\u{fffd}b\u{fffd}");
}
