use std::path::PathBuf;

use resolc::compiler::Resolc;
use resolc::error::SolcError;
use resolc::order::{sort, Ranked};
use resolc::os::ResolcOS;
use resolc::paths::Host;
use resolc::version::Version;
use resolc::versions::{merge_versions, read_file_name, CompilerVersion, DirectoryEntry};

const REVIVE_SOLC_RELEASE: semver::Version = semver::Version::new(1, 0, 1);

fn host() -> Host {
    Host {
        os: "linux".to_string(),
        arch: "x86_64".to_string(),
        home: Some(PathBuf::from("/home/user")),
    }
}

fn v(text: &str) -> Version {
    Version::parse(text).unwrap()
}

fn texts(all: &[Version]) -> Vec<String> {
    all.iter().map(|v| v.to_string()).collect()
}

fn files(all: &[&str]) -> Vec<DirectoryEntry> {
    all.iter().map(|s| DirectoryEntry { name: Some(s.to_string()), is_file: true }).collect()
}

/// Whether the file of that version's compiler is among `entries`.
fn is_file(entries: &[DirectoryEntry], version: &Version) -> bool {
    let path = Resolc::compiler_path(&host(), version).unwrap();
    entries.iter().any(|e| e.is_file && e.name.as_ref() == path.names.last())
}

fn outside(all: &[Version]) -> Vec<semver::Version> {
    all.iter().map(|v| semver::Version::parse(&v.to_string()).unwrap()).collect()
}

#[test]
fn test_resolc_with_specific_solc() {
    let resolc = Resolc::new(PathBuf::from("resolc")).unwrap();
    let plan = Resolc::blocking_install(&host(), &v("0.8.20")).unwrap().plan;
    let entries = files(&[plan.compiler_path.names.last().unwrap().as_str()]);
    let versions =
        resolc.available_versions(Resolc::solc_installed_versions(&host(), &entries));
    assert!(!versions.is_empty());
    assert_eq!(versions.first(), Some(&CompilerVersion::Installed(v("0.8.20"))));
    if let Some(CompilerVersion::Installed(v)) = versions.first() {
        let found = Resolc::find_installed_version(&host(), v, is_file(&entries, v));
        assert!(found.unwrap().is_some());
    }
}

#[test]
fn test_solc_version_compatibility() {
    let available_versions = Resolc::solc_available_versions();

    let has_compatible_versions =
        available_versions.iter().any(|v| v.major == 0 && v.minor == 8);
    println!("has_compatible_versions: {:?}", has_compatible_versions);
    assert!(has_compatible_versions, "Should have compatible solc versions");
}

#[test]
fn test_resolc_solc_release() {
    assert_eq!(REVIVE_SOLC_RELEASE, semver::Version::new(1, 0, 1));
    let solc_versions = Resolc::solc_available_versions();
    assert!(solc_versions.iter().any(|v| v.major == 0 && v.minor == 8));
}

#[test]
fn test_resolc_available_versions() {
    let versions = Resolc::solc_available_versions();

    assert!(versions.iter().any(|v| v.major == 0 && v.minor == 8));

    let versions = outside(&versions);
    let mut sorted = versions.clone();
    sorted.sort();
    assert_eq!(versions, sorted);
}

#[test]
fn test_solc_available_versions_sorted() {
    let versions = outside(&Resolc::solc_available_versions());
    let mut sorted = versions.clone();
    sorted.sort();
    assert_eq!(versions, sorted, "Versions should be returned in sorted order");

    // Check version ranges
    for version in versions {
        assert_eq!(version.major, 0, "Major version should be 0");
        assert!(
            version.minor >= 4 && version.minor <= 8,
            "Minor version should be between 4 and 8"
        );
    }
}

#[test]
fn solc_releases_are_complete() {
    let versions = texts(&Resolc::solc_available_versions());
    let mut expected = Vec::new();
    for (minor, min, max) in [(4, 12, 26), (5, 0, 17), (6, 0, 12), (7, 0, 6), (8, 0, 28)] {
        for patch in min..=max {
            expected.push(format!("0.{}.{}", minor, patch));
        }
    }
    assert_eq!(versions, expected);
    assert_eq!(versions.len(), 82);
}

#[test]
fn versions_are_parsed_like_semver() {
    let cases = [
        "", "1", "1.2", "1.2.3", "1.2.3.4", "v1.2.3", "01.2.3", "1.02.3", "1.2.03", "0.0.0",
        "1.2.3-", "1.2.3+", "1.2.3-+", "1.2.3-a", "1.2.3-a.b", "1.2.3-a..b", "1.2.3-.a", "1.2.3-a.",
        "1.2.3-0", "1.2.3-00", "1.2.3-01", "1.2.3-0a", "1.2.3--", "1.2.3+00", "1.2.3+a-b.c",
        "1.2.3-a+b", "1.2.3-a+b+c", "1.2.3+b-a", " 1.2.3", "1.2.3 ", "1.2.x",
        "18446744073709551615.0.0", "18446744073709551616.0.0", "1.2.3-\u{e9}", "1.2.3-a_b",
    ];
    for text in cases {
        match (Version::parse(text), semver::Version::parse(text)) {
            (Ok(ours), Ok(theirs)) => {
                assert_eq!(ours.major, theirs.major);
                assert_eq!(ours.minor, theirs.minor);
                assert_eq!(ours.patch, theirs.patch);
                assert_eq!(ours.pre, theirs.pre.as_str());
                assert_eq!(ours.build, theirs.build.as_str());
                assert_eq!(ours.to_string(), text);
                assert_eq!(v(&ours.to_string()), ours.clone());
            }
            (Err(SolcError::SemverError(ours)), Err(theirs)) => {
                assert_eq!(ours, theirs.to_string());
            }
            other => panic!("{} gives {:?}", text, other),
        }
    }
}

#[test]
fn versions_are_ordered_by_number_then_tag() {
    let sorted = sort(vec![
        v("1.0.0"), v("1.0.0-rc.1"), v("0.10.0"), v("1.0.0-beta.11"), v("1.0.0-alpha"),
        v("1.0.0-beta.2"), v("0.9.9"), v("1.0.0-alpha.1"), v("1.0.0-beta"), v("1.0.0-alpha.beta"),
        v("1.0.0+b"), v("1.0.0-alpha"),
    ]);
    assert_eq!(
        texts(&sorted),
        vec![
            "0.9.9", "0.10.0", "1.0.0-alpha", "1.0.0-alpha", "1.0.0-alpha.1", "1.0.0-alpha.beta",
            "1.0.0-beta", "1.0.0-beta.2", "1.0.0-beta.11", "1.0.0-rc.1", "1.0.0", "1.0.0+b",
        ],
    );
    assert!(v("1.0.0-rc.1").at_most(&v("1.0.0")));
    assert!(!v("1.0.0").at_most(&v("1.0.0-rc.1")));
    assert!(v("1.0.0").at_most(&v("1.0.0")));
}

#[test]
fn order_of_versions_is_the_order_of_semver() {
    let all: Vec<Version> = [
        "0.0.0", "0.0.1-0", "0.0.1-1", "0.0.1-10", "0.0.1-2", "0.0.1-a", "0.0.1-a.0", "0.0.1-a-b",
        "0.0.1-A", "0.0.1", "0.0.1+0", "0.0.1+00", "0.0.1+1", "0.0.1+01", "0.0.1+a", "0.0.1-a+1",
        "0.1.0", "1.0.0",
    ]
    .iter()
    .map(|text| v(text))
    .collect();
    let theirs = outside(&all);
    for i in 0..all.len() {
        for j in 0..all.len() {
            assert_eq!(all[i].at_most(&all[j]), theirs[i] <= theirs[j]);
        }
    }
}

#[test]
fn files_are_listed_by_the_version_in_their_name() {
    let mut entries = files(&[
        "resolc-linux-amd64-musl-v0.2.0",
        "resolc-linux-amd64-musl-v0.1.0-dev.6",
        "resolc-linux-amd64-musl-v0.10.0+x-y",
        "resolc-linux-amd64-musl-0.3.0",
        "resolc-linux-amd64-musl-vv0.3.0",
        "resolc-linux-arm64-musl-v0.4.0",
        ".lock-resolc-0.5.0",
        "resolc-linux-amd64-musl-v",
        "resolc-linux-amd64-musl-v0.6",
        "notes.txt",
        "resolc-linux-amd64-musl-v0.2.0",
    ]);
    entries.push(DirectoryEntry {
        name: Some("resolc-linux-amd64-musl-v0.7.0".to_string()),
        is_file: false,
    });
    entries.push(DirectoryEntry { name: None, is_file: true });
    let found = Resolc::solc_installed_versions(&host(), &entries);
    assert_eq!(texts(&found), vec!["0.1.0-dev.6", "0.2.0", "0.2.0", "0.10.0+x-y"]);
}

#[test]
fn nothing_is_listed_without_a_home() {
    let host = Host { os: "linux".to_string(), arch: "x86_64".to_string(), home: None };
    let found =
        Resolc::solc_installed_versions(&host, &files(&["resolc-linux-amd64-musl-v0.2.0"]));
    assert!(found.is_empty());
}

#[test]
fn installed_compilers_are_listed_and_found() {
    let resolc = Resolc::new(PathBuf::from("resolc")).unwrap();
    for text in ["0.1.0", "0.1.0-dev", "0.1.0-dev-6", "1.2.3+a-b"] {
        let version = v(text);
        let plan = Resolc::blocking_install(&host(), &version).unwrap().plan;
        let name = plan.compiler_path.names.last().unwrap();
        let listed = read_file_name(&ResolcOS::LinuxAMD64, name).unwrap();
        assert_eq!(listed.to_string(), text);

        let entries = files(&[plan.lock_path.names.last().unwrap().as_str(), name.as_str()]);
        let installed = Resolc::solc_installed_versions(&host(), &entries);
        assert_eq!(texts(&installed), vec![text]);
        let all = resolc.available_versions(installed);
        assert!(all.contains(&CompilerVersion::Installed(v(text))));
        let found = Resolc::find_installed_version(&host(), &version, is_file(&entries, &version));
        assert_eq!(found.unwrap(), Some(plan.compiler_path));
    }
}

#[test]
fn names_without_mark_are_neither_listed_nor_found() {
    let entries = files(&["resolc-linux-amd64-musl-0.8.20"]);
    assert!(Resolc::solc_installed_versions(&host(), &entries).is_empty());
    assert!(!is_file(&entries, &v("0.8.20")));
}

#[test]
fn available_versions_are_installed_ones_then_remote_ones() {
    let resolc = Resolc::new(PathBuf::from("resolc")).unwrap();
    let all = resolc.available_versions(vec![v("0.8.28-pre"), v("9.9.9"), v("0.4.12+x")]);
    assert_eq!(all.len(), 3 + 80);
    assert_eq!(all[0], CompilerVersion::Installed(v("0.4.12+x")));
    assert_eq!(all[1], CompilerVersion::Installed(v("0.8.28-pre")));
    assert_eq!(all[2], CompilerVersion::Installed(v("9.9.9")));
    assert_eq!(all[3], CompilerVersion::Remote(v("0.4.13")));
    assert_eq!(all[82].clone(), CompilerVersion::Remote(v("0.8.27")));
    assert!(all[3..].iter().all(|c| matches!(c, CompilerVersion::Remote(_))));
    assert_eq!(all[82].as_ref().to_string(), "0.8.27");
    let numbers = |c: &CompilerVersion| (c.as_ref().major, c.as_ref().minor, c.as_ref().patch);
    for i in 3..all.len() {
        assert!(all[..i].iter().all(|c| numbers(c) != numbers(&all[i])));
    }
}

#[test]
fn remote_versions_are_merged_once() {
    let all = merge_versions(
        vec![v("1.0.0"), v("1.0.0")],
        vec![v("2.0.0-b"), v("2.0.0-a"), v("1.0.0-x"), v("0.1.0")],
    );
    assert_eq!(
        all,
        vec![
            CompilerVersion::Installed(v("1.0.0")),
            CompilerVersion::Installed(v("1.0.0")),
            CompilerVersion::Remote(v("0.1.0")),
            CompilerVersion::Remote(v("2.0.0-b")),
        ],
    );
}
