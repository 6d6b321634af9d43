use std::path::PathBuf;

use resolc::compiler::Resolc;
use resolc::error::SolcError;
use resolc::install::{
    HttpStatus, Install, InstallEvent, InstallStep, LockFailure, COMPILER_MODE,
};
use resolc::os::get_operating_system;
use resolc::paths::Host;
use resolc::version::Version;

fn host() -> Host {
    Host {
        os: "linux".to_string(),
        arch: "x86_64".to_string(),
        home: Some(PathBuf::from("/home/user")),
    }
}

fn start(text: &str) -> Install {
    Resolc::blocking_install(&host(), &Version::parse(text).unwrap()).unwrap()
}

fn status(code: u16, text: &str) -> InstallEvent {
    InstallEvent::Response(Ok(HttpStatus { code, text: text.to_string() }))
}

fn message(install: Install) -> String {
    // An installation that holds the lock gives it up before it ends.
    match install.advance(InstallEvent::LockReleased).step {
        InstallStep::Failed(SolcError::Message(text)) => text,
        other => panic!("{:?}", other),
    }
}

fn message_before_release(install: Install) -> String {
    match install.step {
        InstallStep::ReleaseLock(Some(SolcError::Message(text))) => text,
        other => panic!("{:?}", other),
    }
}

fn at_request() -> Install {
    start("0.1.0").advance(InstallEvent::Directory(true))
}

fn at_lock() -> Install {
    at_request()
        .advance(status(200, "200 OK"))
        .advance(InstallEvent::Body(Ok(vec![1, 2, 3])))
}

fn at_creation() -> Install {
    at_lock().advance(InstallEvent::Locked(Ok(()))).advance(InstallEvent::Binary(false))
}

#[test]
fn test_version_url_format() {
    let version = Version::parse("0.1.0-dev").unwrap();
    let os = get_operating_system("linux", "x86_64").unwrap();
    let compiler_prefix = os.get_resolc_prefix();
    let url = format!(
        "https://github.com/paritytech/revive/releases/download/v{}/{}v{}",
        version.to_string(),
        compiler_prefix,
        version.to_string()
    );
    assert!(url.contains("resolc"));
    assert!(url.contains(&version.to_string()));
}

#[test]
fn test_blocking_install_url_formation() {
    let mut pre_version = Version::parse("0.1.0-dev").unwrap();
    pre_version.pre = "alpha.1".to_string();
    let install = Resolc::blocking_install(&host(), &pre_version).unwrap();
    let install = install.advance(InstallEvent::Directory(true));
    let e = message(install.advance(status(404, "404 Not Found")));
    assert!(
        e.contains("status code 404") || e.contains("Failed to download"),
        "Unexpected error: {}",
        e
    );
    assert_eq!(e, "Failed to download resolc-0.1.0-alpha.1 file: status code 404 Not Found");
}

#[test]
fn releases_and_pre_releases_come_from_their_repositories() {
    assert_eq!(
        start("0.1.0").plan.download_url,
        "https://github.com/paritytech/resolc-bin/releases/download/v0.1.0/resolc-linux-amd64-musl-v0.1.0",
    );
    assert_eq!(
        start("0.1.0+build-7").plan.download_url,
        "https://github.com/paritytech/resolc-bin/releases/download/v0.1.0+build-7/resolc-linux-amd64-musl-v0.1.0+build-7",
    );
    assert_eq!(
        start("0.1.0-dev.6+x").plan.download_url,
        "https://github.com/paritytech/revive/releases/download/dev.6/resolc-resolc-linux-amd64-musl-v0.1.0",
    );
}

#[test]
fn plan_names_every_file() {
    let plan = start("0.1.0-dev").plan;
    assert_eq!(plan.directory.names, vec![".revive"]);
    assert_eq!(plan.compiler_path.names, vec![".revive", "resolc-linux-amd64-musl-v0.1.0-dev"]);
    assert_eq!(plan.lock_path.names, vec![".revive", ".lock-resolc-0.1.0-dev"]);
    assert_eq!(plan.label, "resolc-0.1.0-dev");
    assert_eq!(plan.directory.base, PathBuf::from("/home/user"));
}

#[test]
fn installation_needs_a_supported_machine() {
    let version = Version::new(0, 1, 0);
    let unknown =
        Host { os: "windows".to_string(), arch: "x86_64".to_string(), home: Some(PathBuf::new()) };
    match Resolc::blocking_install(&unknown, &version) {
        Err(SolcError::Message(text)) => {
            assert_eq!(text, "Unsupported operating system windows")
        }
        other => panic!("{:?}", other),
    }
    let homeless = Host { os: "macos".to_string(), arch: "aarch64".to_string(), home: None };
    match Resolc::blocking_install(&homeless, &version) {
        Err(SolcError::Message(text)) => {
            assert_eq!(text, "Could not build Resolc - homedir not found")
        }
        other => panic!("{:?}", other),
    }
}

#[test]
fn installation_takes_its_steps_in_order() {
    let install = start("0.1.0");
    assert!(matches!(install.step, InstallStep::CheckDirectory));
    let install = install.advance(InstallEvent::Directory(false));
    assert!(matches!(install.step, InstallStep::CreateDirectory));
    let install = install.advance(InstallEvent::DirectoryCreated(Ok(())));
    assert!(matches!(install.step, InstallStep::SendRequest));
    let install = install.advance(status(299, "299"));
    assert!(matches!(install.step, InstallStep::ReadBody));
    let install = install.advance(InstallEvent::Body(Ok(vec![7, 8])));
    assert!(matches!(install.step, InstallStep::TakeLock));
    let install = install.advance(InstallEvent::Locked(Ok(())));
    assert!(matches!(install.step, InstallStep::CheckBinary));
    let install = install.advance(InstallEvent::Binary(false));
    assert!(matches!(install.step, InstallStep::CreateBinary));
    let install = install.advance(InstallEvent::BinaryCreated(Ok(())));
    assert!(matches!(install.step, InstallStep::WriteBinary));
    assert_eq!(install.content, vec![7, 8]);
    let install = install.advance(InstallEvent::BinaryWritten(Ok(())));
    assert!(matches!(install.step, InstallStep::SetPermissions));
    assert_eq!(COMPILER_MODE, 0o755);
    let install = install.advance(InstallEvent::PermissionsSet(Ok(())));
    assert!(matches!(install.step, InstallStep::ReleaseLock(None)));
    let install = install.advance(InstallEvent::LockReleased);
    assert!(matches!(install.step, InstallStep::Finished));
}

#[test]
fn test_install_single_version() {
    let version = Version::parse("0.1.0-dev").unwrap();
    let install = Resolc::blocking_install(&host(), &version)
        .unwrap()
        .advance(InstallEvent::Directory(true))
        .advance(status(200, "200 OK"))
        .advance(InstallEvent::Body(Ok(vec![1, 2, 3])))
        .advance(InstallEvent::Locked(Ok(())))
        .advance(InstallEvent::Binary(false))
        .advance(InstallEvent::BinaryCreated(Ok(())))
        .advance(InstallEvent::BinaryWritten(Ok(())))
        .advance(InstallEvent::PermissionsSet(Ok(())))
        .advance(InstallEvent::LockReleased);
    assert!(
        matches!(install.step, InstallStep::Finished),
        "Path should exist for version {}",
        version.to_string()
    );
    let path = install.plan.compiler_path;
    assert_eq!(path, Resolc::compiler_path(&host(), &version).unwrap());
    let found = Resolc::find_installed_version(&host(), &version, true).unwrap();
    assert_eq!(found, Some(path), "Should be a file for version {}", version.to_string());
}

#[test]
fn existing_compiler_is_left_alone() {
    let install =
        at_lock().advance(InstallEvent::Locked(Ok(()))).advance(InstallEvent::Binary(true));
    assert!(matches!(install.step, InstallStep::ReleaseLock(None)));
    let install = install.advance(InstallEvent::LockReleased);
    assert!(matches!(install.step, InstallStep::Finished));
}

#[test]
fn locks_are_given_up_on_every_way_out() {
    let e = || "why".to_string();
    let written = || at_creation().advance(InstallEvent::BinaryCreated(Ok(())));
    let failures = [
        at_creation().advance(InstallEvent::BinaryCreated(Err(e()))),
        written().advance(InstallEvent::BinaryWritten(Err(e()))),
        written()
            .advance(InstallEvent::BinaryWritten(Ok(())))
            .advance(InstallEvent::PermissionsSet(Err(e()))),
    ];
    for install in failures {
        assert!(message_before_release(install).contains("why"));
    }
    // A lock that was not taken is not given up.
    let refused = at_lock().advance(InstallEvent::Locked(Err(LockFailure::Take)));
    assert!(matches!(refused.step, InstallStep::Failed(_)));
    // It is given up at its step only.
    let creating = at_creation().advance(InstallEvent::LockReleased);
    assert!(matches!(creating.step, InstallStep::CreateBinary));
}

#[test]
fn other_events_change_nothing() {
    let install = at_lock()
        .advance(InstallEvent::Binary(false))
        .advance(InstallEvent::Body(Ok(vec![9])))
        .advance(InstallEvent::PermissionsSet(Err("x".to_string())));
    assert!(matches!(install.step, InstallStep::TakeLock));
    assert_eq!(install.content, vec![1, 2, 3]);
    let ended = at_request().advance(status(500, "500")).advance(status(200, "200 OK"));
    assert!(matches!(ended.step, InstallStep::Failed(_)));
}

#[test]
fn every_failure_is_told() {
    let e = || "why".to_string();
    assert_eq!(
        message(
            start("0.1.0")
                .advance(InstallEvent::Directory(false))
                .advance(InstallEvent::DirectoryCreated(Err(e())))
        ),
        "Could not create compilers path: why",
    );
    assert_eq!(
        message(at_request().advance(InstallEvent::Response(Err(e())))),
        "Failed to download resolc-0.1.0 file: why",
    );
    for code in [100, 199, 300, 404] {
        assert_eq!(
            message(at_request().advance(status(code, "shown"))),
            "Failed to download resolc-0.1.0 file: status code shown",
        );
    }
    assert_eq!(
        message(at_request().advance(status(200, "200 OK")).advance(InstallEvent::Body(Err(e())))),
        "failed to download resolc-0.1.0 file: why",
    );
    assert_eq!(
        message(at_lock().advance(InstallEvent::Locked(Err(LockFailure::Create)))),
        "Error creating lock file",
    );
    assert_eq!(
        message(at_lock().advance(InstallEvent::Locked(Err(LockFailure::Take)))),
        "Error taking the lock",
    );
    assert_eq!(
        message(at_creation().advance(InstallEvent::BinaryCreated(Err(e())))),
        "Failed to create output resolc-0.1.0 file: why",
    );
    let written = || at_creation().advance(InstallEvent::BinaryCreated(Ok(())));
    assert_eq!(
        message(written().advance(InstallEvent::BinaryWritten(Err(e())))),
        "Failed to write the downloaded resolc-0.1.0 file: why",
    );
    assert_eq!(
        message(
            written()
                .advance(InstallEvent::BinaryWritten(Ok(())))
                .advance(InstallEvent::PermissionsSet(Err(e())))
        ),
        "Failed to set resolc-0.1.0 permissions: why",
    );
}
