//! Which compiler versions there are: on this machine, and to be fetched.

use vstd::prelude::*;

use crate::compiler::Resolc;
use crate::order::{all_in_domain, is_sorted, sort, view_all, Ranked};
use crate::os::{get_operating_system, resolc_prefix, ResolcOS};
use crate::paths::Host;
use crate::precedence::{order_is_total, order_is_transitive, version_le};
use crate::text::{chars, copy_range, joined, occurs_at, stands_at, string};
use crate::version::{parsed, release, Version, VersionView};

verus! {

/// A compiler version is either installed (available locally) or can be
/// downloaded, from the remote endpoint.
#[derive(Debug, PartialEq, Eq)]
pub enum CompilerVersion {
    Installed(Version),
    Remote(Version),
}

/// What a [`CompilerVersion`] stands for.
#[verifier::ext_equal]
pub enum CompilerVersionView {
    Installed(VersionView),
    Remote(VersionView),
}

impl View for CompilerVersion {
    type V = CompilerVersionView;

    open spec fn view(&self) -> CompilerVersionView {
        match self {
            CompilerVersion::Installed(v) => CompilerVersionView::Installed(v@),
            CompilerVersion::Remote(v) => CompilerVersionView::Remote(v@),
        }
    }
}

impl Clone for CompilerVersion {
    fn clone(&self) -> (res: Self)
        ensures
            res@ == self@,
    {
        match self {
            CompilerVersion::Installed(v) => CompilerVersion::Installed(v.clone()),
            CompilerVersion::Remote(v) => CompilerVersion::Remote(v.clone()),
        }
    }
}

impl CompilerVersionView {
    /// The version itself.
    pub open spec fn version(self) -> VersionView {
        match self {
            CompilerVersionView::Installed(v) => v,
            CompilerVersionView::Remote(v) => v,
        }
    }
}

/// The order of compiler versions: installed ones come first.
pub open spec fn compiler_version_le(a: CompilerVersionView, b: CompilerVersionView) -> bool {
    match (a, b) {
        (CompilerVersionView::Installed(_), CompilerVersionView::Remote(_)) => true,
        (CompilerVersionView::Remote(_), CompilerVersionView::Installed(_)) => false,
        _ => version_le(a.version(), b.version()),
    }
}

impl CompilerVersion {
    /// The version itself.
    pub fn as_ref(&self) -> (res: &Version)
        ensures
            res@ == self@.version(),
    {
        match self {
            CompilerVersion::Installed(v) => v,
            CompilerVersion::Remote(v) => v,
        }
    }
}

impl Ranked for CompilerVersion {
    open spec fn in_domain(v: CompilerVersionView) -> bool {
        v.version().valid()
    }

    open spec fn le(a: CompilerVersionView, b: CompilerVersionView) -> bool {
        compiler_version_le(a, b)
    }

    fn at_most(&self, other: &Self) -> (res: bool) {
        let res = match (self, other) {
            (CompilerVersion::Installed(_), CompilerVersion::Remote(_)) => true,
            (CompilerVersion::Remote(_), CompilerVersion::Installed(_)) => false,
            (CompilerVersion::Installed(a), CompilerVersion::Installed(b)) => a.at_most(b),
            (CompilerVersion::Remote(a), CompilerVersion::Remote(b)) => a.at_most(b),
        };
        proof {
            order_is_total(self@.version(), other@.version());
            assert forall|c: CompilerVersionView|
                !res && Self::in_domain(c) && #[trigger] Self::le(self@, c) implies Self::le(
                other@,
                c,
            ) by {
                if version_le(other@.version(), self@.version()) && version_le(
                    self@.version(),
                    c.version(),
                ) {
                    order_is_transitive(other@.version(), self@.version(), c.version());
                }
            }
        }
        res
    }
}

/// The versions `0.minor.min` to `0.minor.max`.
pub open spec fn patches(minor: u64, min: u64, max: u64) -> Seq<VersionView> {
    Seq::new((max - min + 1) as nat, |i: int| release(0, minor, (min + i) as u64))
}

/// The Solidity versions that can be fetched.
pub open spec fn solc_releases() -> Seq<VersionView> {
    patches(4, 12, 26) + patches(5, 0, 17) + patches(6, 0, 12) + patches(7, 0, 6) + patches(
        8,
        0,
        28,
    )
}

/// Whether two versions have the same three numbers.
pub open spec fn same_numbers(a: VersionView, b: VersionView) -> bool {
    a.major == b.major && a.minor == b.minor && a.patch == b.patch
}

/// Whether one of `all` has the numbers of `v`.
pub open spec fn has_numbers(all: Seq<VersionView>, v: VersionView) -> bool {
    exists|i: int| 0 <= i < all.len() && same_numbers(#[trigger] all[i], v)
}

/// Those of `remote` whose numbers neither an installed version nor an earlier
/// one of `remote` has.
pub open spec fn fresh(installed: Seq<VersionView>, remote: Seq<VersionView>) -> Seq<VersionView>
    decreases remote.len(),
{
    if remote.len() == 0 {
        Seq::empty()
    } else {
        let earlier = remote.drop_last();
        let kept = fresh(installed, earlier);
        if has_numbers(installed, remote.last()) || has_numbers(earlier, remote.last()) {
            kept
        } else {
            kept.push(remote.last())
        }
    }
}

/// The installed versions, then those that only can be fetched.
pub open spec fn merged(
    installed: Seq<VersionView>,
    remote: Seq<VersionView>,
) -> Seq<CompilerVersionView> {
    installed.map_values(|v: VersionView| CompilerVersionView::Installed(v)) + fresh(
        installed,
        remote,
    ).map_values(|v: VersionView| CompilerVersionView::Remote(v))
}

/// What stands in a directory.
#[derive(Debug)]
pub struct DirectoryEntry {
    /// Its name, where that is text.
    pub name: Option<String>,
    /// Whether it is a regular file.
    pub is_file: bool,
}

impl DirectoryEntry {
    /// Whether this is a file with that name.
    pub open spec fn is_file_named(self, name: Seq<char>) -> bool {
        self.is_file && (self.name matches Some(n) && n@ == name)
    }
}

/// Whether there is a file with that name among `entries`.
pub open spec fn has_file(entries: Seq<DirectoryEntry>, name: Seq<char>) -> bool {
    exists|i: int| 0 <= i < entries.len() && (#[trigger] entries[i]).is_file_named(name)
}

/// The version whose compiler is kept in the file `name` of the compilers
/// directory, where it is one's name.
pub open spec fn listed_version(os: ResolcOS, name: Seq<char>) -> Option<VersionView> {
    let mark = resolc_prefix(os) + "v"@;
    if occurs_at(name, mark, 0) {
        parsed(name.skip(mark.len() as int))
    } else {
        None
    }
}

/// The version whose compiler `entry` of the compilers directory is, where it is
/// one's file.
pub open spec fn entry_version(os: ResolcOS, entry: DirectoryEntry) -> Option<VersionView> {
    match entry.name {
        Some(name) if entry.is_file => listed_version(os, name@),
        _ => None,
    }
}

/// The versions whose compilers are among `entries`, in the order of the entries.
pub open spec fn listed(os: ResolcOS, entries: Seq<DirectoryEntry>) -> Seq<VersionView>
    decreases entries.len(),
{
    if entries.len() == 0 {
        Seq::empty()
    } else {
        let earlier = listed(os, entries.drop_last());
        match entry_version(os, entries.last()) {
            Some(v) => earlier.push(v),
            None => earlier,
        }
    }
}

/// Appends the versions `0.minor.min` to `0.minor.max` to `out`.
fn push_patches(out: &mut Vec<Version>, minor: u64, min: u64, max: u64)
    requires
        min <= max < u64::MAX,
        all_in_domain::<Version>(view_all(old(out)@)),
    ensures
        view_all(final(out)@) == view_all(old(out)@) + patches(minor, min, max),
        all_in_domain::<Version>(view_all(final(out)@)),
{
    let ghost before = view_all(out@);
    let mut patch: u64 = min;
    while patch <= max
        invariant
            min <= patch <= max + 1,
            max < u64::MAX,
            view_all(out@) == before + patches(minor, min, max).take(patch - min),
            all_in_domain::<Version>(view_all(out@)),
        decreases max + 1 - patch,
    {
        let ghost so_far = view_all(out@);
        let version = Version::new(0, minor, patch);
        let ghost v = version@;
        out.push(version);
        proof {
            assert(view_all(out@) == so_far.push(v));
            assert(patches(minor, min, max).take(patch + 1 - min) == patches(minor, min, max).take(
                patch - min,
            ).push(v));
            assert forall|i: int| 0 <= i < out@.len() implies Version::in_domain(
                #[trigger] view_all(out@)[i],
            ) by {
                if i < so_far.len() {
                    assert(view_all(out@)[i] == so_far[i]);
                }
            }
        }
        patch += 1;
    }
    assert(patches(minor, min, max).take(max + 1 - min) == patches(minor, min, max));
}

/// Whether one of the first `upto` of `all` has the numbers of `v`, as
/// [`has_numbers`] says. The versions are few, and nothing is known here about the
/// hashes of tuples, so that they are searched one by one.
fn find_numbers(all: &Vec<Version>, upto: usize, v: &Version) -> (res: bool)
    requires
        upto <= all@.len(),
    ensures
        res == has_numbers(view_all(all@).take(upto as int), v@),
{
    let ghost part = view_all(all@).take(upto as int);
    let mut i: usize = 0;
    while i < upto
        invariant
            i <= upto <= all@.len(),
            part == view_all(all@).take(upto as int),
            forall|j: int| 0 <= j < i ==> !same_numbers(#[trigger] part[j], v@),
        decreases upto - i,
    {
        assert(part[i as int] == all@[i as int]@);
        if all[i].major == v.major && all[i].minor == v.minor && all[i].patch == v.patch {
            return true;
        }
        i += 1;
    }
    false
}

/// The installed versions and those that can be fetched, as [`merged`] says, in
/// order.
pub fn merge_versions(installed: Vec<Version>, remote: Vec<Version>) -> (res: Vec<CompilerVersion>)
    requires
        all_in_domain::<Version>(view_all(installed@)),
        all_in_domain::<Version>(view_all(remote@)),
    ensures
        view_all(res@).to_multiset() == merged(
            view_all(installed@),
            view_all(remote@),
        ).to_multiset(),
        is_sorted::<CompilerVersion>(view_all(res@)),
{
    let ghost have = view_all(installed@);
    let ghost can = view_all(remote@);
    let mut all: Vec<CompilerVersion> = Vec::new();
    let mut i: usize = 0;
    while i < installed.len()
        invariant
            i <= installed@.len(),
            have == view_all(installed@),
            all_in_domain::<Version>(have),
            view_all(all@) == have.take(i as int).map_values(
                |v: VersionView| CompilerVersionView::Installed(v),
            ),
            all_in_domain::<CompilerVersion>(view_all(all@)),
        decreases installed@.len() - i,
    {
        let ghost so_far = view_all(all@);
        assert(have[i as int] == installed@[i as int]@);
        all.push(CompilerVersion::Installed(installed[i].clone()));
        proof {
            assert(view_all(all@) == so_far.push(CompilerVersionView::Installed(have[i as int])));
            assert(have.take(i + 1) == have.take(i as int).push(have[i as int]));
            assert(view_all(all@) == have.take(i + 1).map_values(
                |v: VersionView| CompilerVersionView::Installed(v),
            ));
            assert forall|j: int| 0 <= j < all@.len() implies CompilerVersion::in_domain(
                #[trigger] view_all(all@)[j],
            ) by {
                if j < so_far.len() {
                    assert(view_all(all@)[j] == so_far[j]);
                }
            }
        }
        i += 1;
    }
    assert(have.take(have.len() as int) == have);
    let ghost first = have.map_values(|v: VersionView| CompilerVersionView::Installed(v));
    let mut i: usize = 0;
    while i < remote.len()
        invariant
            i <= remote@.len(),
            have == view_all(installed@),
            can == view_all(remote@),
            all_in_domain::<Version>(can),
            view_all(all@) == first + fresh(have, can.take(i as int)).map_values(
                |v: VersionView| CompilerVersionView::Remote(v),
            ),
            all_in_domain::<CompilerVersion>(view_all(all@)),
        decreases remote@.len() - i,
    {
        let ghost so_far = view_all(all@);
        let ghost part = can.take(i + 1);
        assert(part.drop_last() == can.take(i as int));
        assert(can[i as int] == remote@[i as int]@);
        assert(part.last() == remote@[i as int]@);
        assert(have.take(have.len() as int) == have);
        if !find_numbers(&installed, installed.len(), &remote[i]) && !find_numbers(
            &remote,
            i,
            &remote[i],
        ) {
            all.push(CompilerVersion::Remote(remote[i].clone()));
            proof {
                assert(view_all(all@) == so_far.push(CompilerVersionView::Remote(part.last())));
                assert(view_all(all@) == first + fresh(have, part).map_values(
                    |v: VersionView| CompilerVersionView::Remote(v),
                ));
                assert forall|j: int| 0 <= j < all@.len() implies CompilerVersion::in_domain(
                    #[trigger] view_all(all@)[j],
                ) by {
                    if j < so_far.len() {
                        assert(view_all(all@)[j] == so_far[j]);
                    }
                }
            }
        }
        i += 1;
    }
    assert(can.take(can.len() as int) == can);
    sort(all)
}

/// The version whose compiler is kept under that name, as [`listed_version`] says.
pub fn read_file_name(os: &ResolcOS, name: &str) -> (res: Option<Version>)
    ensures
        res matches Some(v) ==> listed_version(*os, name@) == Some(v@) && v@.valid(),
        res is None ==> listed_version(*os, name@) is None,
{
    let name = chars(name);
    let mark = chars(joined(os.get_resolc_prefix(), "v").as_str());
    if !stands_at(name.as_slice(), mark.as_slice(), 0) {
        return None;
    }
    let rest = copy_range(name.as_slice(), mark.len(), name.len());
    assert(rest@ == name@.skip(mark@.len() as int));
    match Version::parse(string(rest.as_slice()).as_str()) {
        Ok(version) => Some(version),
        Err(_) => None,
    }
}

/// The version whose compiler an entry is, as [`entry_version`] says.
fn read_entry(os: &ResolcOS, entry: &DirectoryEntry) -> (res: Option<Version>)
    ensures
        res matches Some(v) ==> entry_version(*os, *entry) == Some(v@) && v@.valid(),
        res is None ==> entry_version(*os, *entry) is None,
{
    match &entry.name {
        Some(name) => if entry.is_file {
            read_file_name(os, name.as_str())
        } else {
            None
        },
        None => None,
    }
}

impl Resolc {
    /// The Solidity versions that can be fetched, in order.
    pub fn solc_available_versions() -> (res: Vec<Version>)
        ensures
            view_all(res@) == solc_releases(),
            all_in_domain::<Version>(view_all(res@)),
            is_sorted::<Version>(view_all(res@)),
    {
        let mut res: Vec<Version> = Vec::new();
        push_patches(&mut res, 4, 12, 26);
        push_patches(&mut res, 5, 0, 17);
        push_patches(&mut res, 6, 0, 12);
        push_patches(&mut res, 7, 0, 6);
        push_patches(&mut res, 8, 0, 28);
        res
    }

    /// The versions whose compilers are installed, in order. `entries` is what
    /// stands in the compilers directory; without a home directory there is none.
    pub fn solc_installed_versions(host: &Host, entries: &Vec<DirectoryEntry>) -> (res: Vec<Version>)
        requires
            host.home is Some ==> host.system() is Some,
        ensures
            host.home is None ==> res@.len() == 0,
            host.home is Some ==> view_all(res@).to_multiset() == listed(
                host.system()->0,
                entries@,
            ).to_multiset(),
            all_in_domain::<Version>(view_all(res@)),
            is_sorted::<Version>(view_all(res@)),
    {
        let mut found: Vec<Version> = Vec::new();
        if let Err(_) = Self::compilers_dir(host) {
            return found;
        }
        let os = match get_operating_system(host.os.as_str(), host.arch.as_str()) {
            Ok(os) => os,
            Err(_) => return found,
        };
        let mut i: usize = 0;
        while i < entries.len()
            invariant
                i <= entries@.len(),
                view_all(found@) == listed(os, entries@.take(i as int)),
                all_in_domain::<Version>(view_all(found@)),
            decreases entries@.len() - i,
        {
            let ghost so_far = view_all(found@);
            let ghost part = entries@.take(i + 1);
            assert(part.drop_last() == entries@.take(i as int));
            assert(part.last() == entries@[i as int]);
            match read_entry(&os, &entries[i]) {
                Some(version) => {
                    let ghost v = version@;
                    found.push(version);
                    proof {
                        assert(view_all(found@) == so_far.push(v));
                        assert forall|j: int| 0 <= j < found@.len() implies Version::in_domain(
                            #[trigger] view_all(found@)[j],
                        ) by {
                            if j < so_far.len() {
                                assert(view_all(found@)[j] == so_far[j]);
                            }
                        }
                    }
                },
                None => {},
            }
            i += 1;
        }
        assert(entries@.take(entries@.len() as int) == entries@);
        sort(found)
    }

    /// All versions: those that are installed, and those that can be fetched and
    /// are not installed, in order.
    pub fn available_versions(&self, installed: Vec<Version>) -> (res: Vec<CompilerVersion>)
        requires
            all_in_domain::<Version>(view_all(installed@)),
        ensures
            view_all(res@).to_multiset() == merged(
                view_all(installed@),
                solc_releases(),
            ).to_multiset(),
            is_sorted::<CompilerVersion>(view_all(res@)),
    {
        merge_versions(installed, Self::solc_available_versions())
    }
}

} // verus!
