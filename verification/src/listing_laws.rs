//! What the lists of compiler versions hold, item by item, and in which order.

use vstd::prelude::*;

use crate::compiler::Resolc;
use crate::machine_laws::{binary_prefix, is_released_for, prefixes_name_the_machine};
use crate::order::{sort, view_all, Ranked};
use crate::os::{resolc_prefix, system_of, ResolcOS};
use crate::paths::Host;
use crate::precedence::version_le;
use crate::version::{fits, version_text, Version, VersionView};
use crate::version_laws::{
    installed_compilers_are_listed, lemma_fresh, lemma_listed, lists_available,
    listed_compilers_are_found,
};
use crate::versions::{
    entry_version, fresh, has_numbers, listed, merge_versions, merged, read_file_name, same_numbers,
    solc_releases, CompilerVersion, CompilerVersionView, DirectoryEntry,
};

verus! {

/// Whether `v` is one of the Solidity releases that can be fetched.
pub open spec fn can_be_fetched(v: VersionView) -> bool {
    &&& v.pre.len() == 0
    &&& v.build.len() == 0
    &&& v.major == 0
    &&& {
        ||| v.minor == 4 && 12 <= v.patch <= 26
        ||| v.minor == 5 && v.patch <= 17
        ||| v.minor == 6 && v.patch <= 12
        ||| v.minor == 7 && v.patch <= 6
        ||| v.minor == 8 && v.patch <= 28
    }
}

/// Whether one of `all` has the three numbers of `v`.
pub open spec fn one_has_numbers_of(all: Seq<Version>, v: VersionView) -> bool {
    exists|i: int|
        0 <= i < all.len() && (#[trigger] all[i]).major == v.major && all[i].minor == v.minor
            && all[i].patch == v.patch
}

/// Whether `v` is one of `all`.
pub open spec fn is_one_of(all: Seq<Version>, v: VersionView) -> bool {
    exists|i: int| 0 <= i < all.len() && (#[trigger] all[i])@ == v
}

/// How often `v` occurs in `all`.
pub open spec fn occurrences(all: Seq<VersionView>, v: VersionView) -> nat {
    all.to_multiset().count(v)
}

proof fn lemma_releases(v: VersionView)
    ensures
        solc_releases().contains(v) <==> can_be_fetched(v),
{
    let all = solc_releases();
    if can_be_fetched(v) {
        let k: int = if v.minor == 4 {
            v.patch - 12
        } else if v.minor == 5 {
            15 + v.patch
        } else if v.minor == 6 {
            33 + v.patch
        } else if v.minor == 7 {
            46 + v.patch
        } else {
            53 + v.patch
        };
        assert(all[k] =~= v);
        assert(all.contains(v));
    }
    if all.contains(v) {
        let k = choose|k: int| 0 <= k < all.len() && all[k] == v;
        assert(can_be_fetched(all[k]));
    }
}

/// The releases that can be fetched are those of the five series, each once, with
/// ascending numbers.
pub proof fn fetchable_releases_are_listed(res: Vec<Version>)
    requires
        call_ensures(Resolc::solc_available_versions, (), res),
    ensures
        res@.len() == 82,
        forall|v: VersionView| #[trigger]
            is_one_of(res@, v) <==> can_be_fetched(v),
        forall|i: int, j: int|
            0 <= i < j < res@.len() ==> (#[trigger] res@[i]).minor < (#[trigger] res@[j]).minor || (
            res@[i].minor == res@[j].minor && res@[i].patch < res@[j].patch),
{
    let all = view_all(res@);
    assert forall|v: VersionView| #[trigger] is_one_of(res@, v) <==> can_be_fetched(v) by {
        lemma_releases(v);
        if can_be_fetched(v) {
            let k = choose|k: int| 0 <= k < all.len() && all[k] == v;
            assert(res@[k]@ == v);
        }
        if is_one_of(res@, v) {
            let i = choose|i: int| 0 <= i < res@.len() && (#[trigger] res@[i])@ == v;
            assert(all[i] == v);
        }
    }
    assert forall|i: int, j: int| 0 <= i < j < res@.len() implies (#[trigger] res@[i]).minor < (
    #[trigger] res@[j]).minor || (res@[i].minor == res@[j].minor && res@[i].patch < res@[j].patch) by {
        assert(all[i] == res@[i]@ && all[j] == res@[j]@);
        assert(all[i].minor < all[j].minor || (all[i].minor == all[j].minor && all[i].patch
            < all[j].patch));
    }
}

/// In the list of available versions, those of each kind ascend in the order of
/// versions, and installed ones come before the others.
pub proof fn each_kind_ascends(
    all: Seq<CompilerVersionView>,
    installed: Seq<VersionView>,
    i: int,
    j: int,
)
    requires
        lists_available(all, installed),
        0 <= i < j < all.len(),
    ensures
        all[i] is Installed && all[j] is Installed ==> version_le(
            all[i]->Installed_0,
            all[j]->Installed_0,
        ),
        all[i] is Remote && all[j] is Remote ==> version_le(all[i]->Remote_0, all[j]->Remote_0),
        all[i] is Remote ==> all[j] is Remote,
{
    assert(CompilerVersion::le(all[i], all[j]));
}

/// So do those of the list that is given out.
pub proof fn available_versions_ascend(
    resolc: Resolc,
    installed: Vec<Version>,
    res: Vec<CompilerVersion>,
    i: int,
    j: int,
)
    requires
        call_ensures(Resolc::available_versions, (&resolc, installed), res),
        0 <= i < j < res@.len(),
    ensures
        match (res@[i], res@[j]) {
            (CompilerVersion::Installed(a), CompilerVersion::Installed(b)) => version_le(a@, b@),
            (CompilerVersion::Remote(a), CompilerVersion::Remote(b)) => version_le(a@, b@),
            (CompilerVersion::Installed(_), CompilerVersion::Remote(_)) => true,
            (CompilerVersion::Remote(_), CompilerVersion::Installed(_)) => false,
        },
{
    let all = view_all(res@);
    each_kind_ascends(all, view_all(installed@), i, j);
    assert(all[i] == res@[i]@ && all[j] == res@[j]@);
}

proof fn lemma_count_installed(all: Seq<VersionView>, v: VersionView)
    ensures
        all.map_values(
            |v: VersionView| CompilerVersionView::Installed(v),
        ).to_multiset().count(CompilerVersionView::Installed(v)) == all.to_multiset().count(v),
    decreases all.len(),
{
    broadcast use vstd::seq_lib::group_to_multiset_ensures;

    let f = |v: VersionView| CompilerVersionView::Installed(v);
    let marked = all.map_values(f);
    if all.len() == 0 {
        assert(!all.contains(v));
        assert(!marked.contains(CompilerVersionView::Installed(v)));
    } else {
        let rest = all.drop_last();
        lemma_count_installed(rest, v);
        assert(all == rest.push(all.last()));
        assert(marked == rest.map_values(f).push(f(all.last())));
        vstd::seq_lib::to_multiset_build(rest, all.last());
        vstd::seq_lib::to_multiset_build(rest.map_values(f), f(all.last()));
    }
}

proof fn lemma_counts(installed: Seq<VersionView>, remote: Seq<VersionView>, v: VersionView)
    ensures
        merged(installed, remote).to_multiset().count(CompilerVersionView::Installed(v))
            == occurrences(installed, v),
        merged(installed, remote).to_multiset().count(CompilerVersionView::Remote(v)) == (if fresh(
            installed,
            remote,
        ).contains(v) {
            1nat
        } else {
            0nat
        }),
{
    broadcast use vstd::seq_lib::group_to_multiset_ensures;

    let new = fresh(installed, remote);
    let first = installed.map_values(|v: VersionView| CompilerVersionView::Installed(v));
    let second = new.map_values(|v: VersionView| CompilerVersionView::Remote(v));
    let a = CompilerVersionView::Installed(v);
    let b = CompilerVersionView::Remote(v);
    vstd::seq_lib::lemma_multiset_commutative(first, second);
    lemma_count_installed(installed, v);
    assert(!second.contains(a));
    assert(!first.contains(b));
    lemma_fresh(installed, remote);
    assert forall|k: int, l: int| 0 <= k < second.len() && 0 <= l < second.len() && k
        != l implies second[k] != second[l] by {
        assert(second[k] == CompilerVersionView::Remote(new[k]));
        assert(second[l] == CompilerVersionView::Remote(new[l]));
        assert(same_numbers(new[k], new[l]) || second[k] != second[l]);
    }
    second.lemma_multiset_has_no_duplicates();
    if new.contains(v) {
        let k = choose|k: int| 0 <= k < new.len() && new[k] == v;
        assert(second[k] == b);
        assert(second.contains(b));
    }
    if second.contains(b) {
        let k = choose|k: int| 0 <= k < second.len() && second[k] == b;
        assert(new[k] == v);
    }
}

/// The list of available versions holds each installed version as often as it is
/// installed, and each release that can be fetched and whose numbers no installed
/// version has once.
pub proof fn available_versions_are_counted(
    resolc: Resolc,
    installed: Vec<Version>,
    res: Vec<CompilerVersion>,
    v: VersionView,
)
    requires
        call_ensures(Resolc::available_versions, (&resolc, installed), res),
    ensures
        view_all(res@).to_multiset().count(CompilerVersionView::Installed(v)) == occurrences(
            view_all(installed@),
            v,
        ),
        view_all(res@).to_multiset().count(CompilerVersionView::Remote(v)) == (if can_be_fetched(v)
            && !one_has_numbers_of(installed@, v) {
            1nat
        } else {
            0nat
        }),
{
    let have = view_all(installed@);
    let new = fresh(have, solc_releases());
    lemma_counts(have, solc_releases(), v);
    lemma_fresh(have, solc_releases());
    lemma_releases(v);
    lemma_numbers(installed@, v);
    if new.contains(v) {
        let k = choose|k: int| 0 <= k < new.len() && new[k] == v;
        assert(solc_releases().contains(new[k]));
    }
    if can_be_fetched(v) && !has_numbers(have, v) {
        let r = choose|r: int| 0 <= r < solc_releases().len() && solc_releases()[r] == v;
        assert(has_numbers(new, solc_releases()[r]));
        let k = choose|k: int| 0 <= k < new.len() && same_numbers(#[trigger] new[k], v);
        assert(solc_releases().contains(new[k]));
        lemma_releases(new[k]);
        assert(new[k] =~= v);
    }
}

proof fn lemma_numbers(all: Seq<Version>, v: VersionView)
    ensures
        has_numbers(view_all(all), v) == one_has_numbers_of(all, v),
{
    if has_numbers(view_all(all), v) {
        let i = choose|i: int| 0 <= i < all.len() && same_numbers(#[trigger] view_all(all)[i], v);
        assert(all[i]@ == view_all(all)[i]);
        assert(all[i].major == v.major);
    }
    if one_has_numbers_of(all, v) {
        let i = choose|i: int|
            0 <= i < all.len() && (#[trigger] all[i]).major == v.major && all[i].minor == v.minor
                && all[i].patch == v.patch;
        assert(same_numbers(view_all(all)[i], v));
    }
}

/// Where versions are merged, all installed ones stay, and of those that can be
/// fetched the first with numbers that none before it has.
pub proof fn merged_versions_are_counted(
    installed: Vec<Version>,
    remote: Vec<Version>,
    res: Vec<CompilerVersion>,
    v: VersionView,
)
    requires
        call_ensures(merge_versions, (installed, remote), res),
    ensures
        view_all(res@).to_multiset().count(CompilerVersionView::Installed(v)) == occurrences(
            view_all(installed@),
            v,
        ),
        view_all(res@).to_multiset().count(CompilerVersionView::Remote(v)) == (if exists|k: int|
            0 <= k < remote@.len() && (#[trigger] remote@[k])@ == v && !one_has_numbers_of(
                remote@.take(k),
                v,
            ) && !one_has_numbers_of(installed@, v) {
            1nat
        } else {
            0nat
        }),
{
    let have = view_all(installed@);
    let can = view_all(remote@);
    lemma_counts(have, can, v);
    lemma_numbers(installed@, v);
    lemma_fresh_first(have, can, v);
    if exists|k: int|
        0 <= k < remote@.len() && (#[trigger] remote@[k])@ == v && !one_has_numbers_of(
            remote@.take(k),
            v,
        ) && !one_has_numbers_of(installed@, v) {
        let k = choose|k: int|
            0 <= k < remote@.len() && (#[trigger] remote@[k])@ == v && !one_has_numbers_of(
                remote@.take(k),
                v,
            ) && !one_has_numbers_of(installed@, v);
        lemma_numbers(remote@.take(k), v);
        assert(view_all(remote@.take(k)) =~= can.take(k));
        assert(is_first_of_its_numbers(can, k, v));
    }
    if fresh(have, can).contains(v) {
        let k = choose|k: int| is_first_of_its_numbers(can, k, v);
        lemma_numbers(remote@.take(k), v);
        assert(view_all(remote@.take(k)) =~= can.take(k));
        assert(remote@[k]@ == v);
    }
}

spec fn is_first_of_its_numbers(all: Seq<VersionView>, k: int, v: VersionView) -> bool {
    0 <= k < all.len() && all[k] == v && !has_numbers(all.take(k), v)
}

proof fn lemma_fresh_first(installed: Seq<VersionView>, remote: Seq<VersionView>, v: VersionView)
    ensures
        fresh(installed, remote).contains(v) <==> !has_numbers(installed, v) && exists|k: int|
            is_first_of_its_numbers(remote, k, v),
    decreases remote.len(),
{
    if remote.len() > 0 {
        let earlier = remote.drop_last();
        let last = remote.last();
        let kept = fresh(installed, earlier);
        let all = fresh(installed, remote);
        lemma_fresh_first(installed, earlier, v);
        assert forall|k: int| 0 <= k <= earlier.len() implies #[trigger] remote.take(k)
            == earlier.take(k) by {}
        if all.contains(v) {
            if kept.contains(v) {
                let k = choose|k: int| is_first_of_its_numbers(earlier, k, v);
                assert(remote.take(k) == earlier.take(k));
                assert(is_first_of_its_numbers(remote, k, v));
            } else {
                let m = choose|m: int| 0 <= m < all.len() && all[m] == v;
                assert(all == kept.push(last));
                if m < kept.len() {
                    assert(kept[m] == v);
                }
                assert(remote.take(remote.len() - 1) == earlier);
                assert(is_first_of_its_numbers(remote, remote.len() - 1, v));
            }
        }
        if !has_numbers(installed, v) && exists|k: int| is_first_of_its_numbers(remote, k, v) {
            let k = choose|k: int| is_first_of_its_numbers(remote, k, v);
            if k < earlier.len() {
                assert(remote.take(k) == earlier.take(k));
                assert(earlier[k] == v);
                assert(is_first_of_its_numbers(earlier, k, v));
                let m = choose|m: int| 0 <= m < kept.len() && kept[m] == v;
                assert(all[m] == v);
            } else {
                assert(remote.take(k) == earlier);
                assert(all == kept.push(last));
                assert(all[all.len() - 1] == v);
            }
        }
    }
}

/// Merged versions of each kind ascend, installed ones before the others.
pub proof fn merged_versions_ascend(
    installed: Vec<Version>,
    remote: Vec<Version>,
    res: Vec<CompilerVersion>,
    i: int,
    j: int,
)
    requires
        call_ensures(merge_versions, (installed, remote), res),
        0 <= i < j < res@.len(),
    ensures
        match (res@[i], res@[j]) {
            (CompilerVersion::Installed(a), CompilerVersion::Installed(b)) => version_le(a@, b@),
            (CompilerVersion::Remote(a), CompilerVersion::Remote(b)) => version_le(a@, b@),
            (CompilerVersion::Installed(_), CompilerVersion::Remote(_)) => true,
            (CompilerVersion::Remote(_), CompilerVersion::Installed(_)) => false,
        },
{
    let all = view_all(res@);
    assert(CompilerVersion::le(all[i], all[j]));
    assert(all[i] == res@[i]@ && all[j] == res@[j]@);
}

/// Sorting versions keeps each as often as it occurs and lets them ascend.
pub proof fn sorted_versions_ascend(items: Vec<Version>, res: Vec<Version>)
    requires
        call_ensures(sort::<Version>, (items,), res),
    ensures
        forall|v: VersionView|
            #[trigger] occurrences(view_all(res@), v) == occurrences(view_all(items@), v),
        forall|i: int, j: int|
            0 <= i < j < res@.len() ==> version_le((#[trigger] res@[i])@, (#[trigger] res@[j])@),
{
    let all = view_all(res@);
    assert forall|i: int, j: int| 0 <= i < j < res@.len() implies version_le(
        (#[trigger] res@[i])@,
        (#[trigger] res@[j])@,
    ) by {
        assert(Version::le(all[i], all[j]));
    }
}

/// Comparing versions is asking for their order.
pub proof fn versions_are_compared(a: Version, b: Version, res: bool)
    requires
        call_ensures(<Version as Ranked>::at_most, (&a, &b), res),
    ensures
        res == version_le(a@, b@),
{
}

/// Whether `entry` is a file with the name of the compiler of `v` for that machine.
pub open spec fn is_compiler_of(
    entry: DirectoryEntry,
    os: Seq<char>,
    arch: Seq<char>,
    v: VersionView,
) -> bool {
    &&& entry.is_file
    &&& entry.name matches Some(name) && name@ == binary_prefix(os, arch) + "v"@ + version_text(v)
    &&& v.valid()
    &&& fits(version_text(v))
}

/// Whether the compiler of `v` for that machine is among `entries`.
pub open spec fn has_compiler_of(
    entries: Seq<DirectoryEntry>,
    os: Seq<char>,
    arch: Seq<char>,
    v: VersionView,
) -> bool {
    exists|i: int| 0 <= i < entries.len() && #[trigger] is_compiler_of(entries[i], os, arch, v)
}

proof fn lemma_entry(system: ResolcOS, entry: DirectoryEntry, v: VersionView, host: Host)
    requires
        host.system() == Some(system),
    ensures
        entry_version(system, entry) == Some(v) <==> is_compiler_of(entry, host.os@, host.arch@, v),
{
    prefixes_name_the_machine(host.os@, host.arch@);
    if entry_version(system, entry) == Some(v) {
        let name = entry.name->0@;
        listed_compilers_are_found(system, name, v);
        let mark = resolc_prefix(system) + "v"@;
        assert(name.skip(mark.len() as int) =~= version_text(v));
    }
    if is_compiler_of(entry, host.os@, host.arch@, v) {
        installed_compilers_are_listed(system, v);
    }
}

/// On a machine with releases and a home, exactly the versions whose compilers
/// stand in the directory are listed, in ascending order.
pub proof fn compilers_in_the_directory_are_listed(
    host: Host,
    entries: Vec<DirectoryEntry>,
    res: Vec<Version>,
)
    requires
        is_released_for(host.os@),
        host.home is Some,
        call_ensures(Resolc::solc_installed_versions, (&host, &entries), res),
    ensures
        forall|v: VersionView| #[trigger]
            is_one_of(res@, v) <==> has_compiler_of(entries@, host.os@, host.arch@, v),
        forall|i: int, j: int|
            0 <= i < j < res@.len() ==> version_le((#[trigger] res@[i])@, (#[trigger] res@[j])@),
{
    broadcast use vstd::seq_lib::group_to_multiset_ensures;

    prefixes_name_the_machine(host.os@, host.arch@);
    let system = host.system()->0;
    let all = view_all(res@);
    let found = listed(system, entries@);
    assert forall|v: VersionView| #[trigger]
        is_one_of(res@, v) <==> has_compiler_of(entries@, host.os@, host.arch@, v) by {
        assert(all.contains(v) <==> all.to_multiset().count(v) > 0);
        assert(found.contains(v) <==> found.to_multiset().count(v) > 0);
        lemma_listed(system, entries@, v);
        if is_one_of(res@, v) {
            let i = choose|i: int| 0 <= i < res@.len() && (#[trigger] res@[i])@ == v;
            assert(all[i] == v);
            let k = choose|k: int|
                0 <= k < entries@.len() && entry_version(system, #[trigger] entries@[k]) == Some(v);
            lemma_entry(system, entries@[k], v, host);
            assert(is_compiler_of(entries@[k], host.os@, host.arch@, v));
        }
        if has_compiler_of(entries@, host.os@, host.arch@, v) {
            let k = choose|i: int|
                0 <= i < entries@.len() && #[trigger] is_compiler_of(
                    entries@[i],
                    host.os@,
                    host.arch@,
                    v,
                );
            lemma_entry(system, entries@[k], v, host);
            assert(entry_version(system, entries@[k]) == Some(v));
            let i = choose|i: int| 0 <= i < all.len() && all[i] == v;
            assert(res@[i]@ == v);
        }
    }
    assert forall|i: int, j: int| 0 <= i < j < res@.len() implies version_le(
        (#[trigger] res@[i])@,
        (#[trigger] res@[j])@,
    ) by {
        assert(Version::le(all[i], all[j]));
    }
}

proof fn lemma_listed_add(os: ResolcOS, a: Seq<DirectoryEntry>, b: Seq<DirectoryEntry>)
    ensures
        listed(os, a + b) == listed(os, a) + listed(os, b),
    decreases b.len(),
{
    if b.len() == 0 {
        assert(a + b == a);
        assert(listed(os, a) + listed(os, b) == listed(os, a));
    } else {
        assert((a + b).last() == b.last());
        assert((a + b).drop_last() == a + b.drop_last());
        lemma_listed_add(os, a, b.drop_last());
        assert(listed(os, a + b) == listed(os, a) + listed(os, b));
    }
}

/// What is listed of two directories together is what is listed of each: every
/// file counts, and by itself.
pub proof fn listings_add_up(
    host: Host,
    a: Vec<DirectoryEntry>,
    b: Vec<DirectoryEntry>,
    both: Vec<DirectoryEntry>,
    of_a: Vec<Version>,
    of_b: Vec<Version>,
    of_both: Vec<Version>,
    v: VersionView,
)
    requires
        both@ == a@ + b@,
        call_ensures(Resolc::solc_installed_versions, (&host, &a), of_a),
        call_ensures(Resolc::solc_installed_versions, (&host, &b), of_b),
        call_ensures(Resolc::solc_installed_versions, (&host, &both), of_both),
    ensures
        occurrences(view_all(of_both@), v) == occurrences(view_all(of_a@), v) + occurrences(
            view_all(of_b@),
            v,
        ),
{
    broadcast use vstd::seq_lib::group_to_multiset_ensures;

    if host.home is Some {
        let system = host.system()->0;
        lemma_listed_add(system, a@, b@);
        vstd::seq_lib::lemma_multiset_commutative(listed(system, a@), listed(system, b@));
    } else {
        assert(view_all(of_a@) == Seq::<VersionView>::empty());
        assert(view_all(of_b@) == Seq::<VersionView>::empty());
        assert(view_all(of_both@) == Seq::<VersionView>::empty());
        assert(!Seq::<VersionView>::empty().contains(v));
    }
}

/// A single file gives a single version, where it is a compiler.
pub proof fn single_files_are_listed_once(
    host: Host,
    entries: Vec<DirectoryEntry>,
    res: Vec<Version>,
)
    requires
        is_released_for(host.os@),
        host.home is Some,
        entries@.len() == 1,
        call_ensures(Resolc::solc_installed_versions, (&host, &entries), res),
    ensures
        res@.len() <= 1,
{
    broadcast use vstd::seq_lib::group_to_multiset_ensures;

    prefixes_name_the_machine(host.os@, host.arch@);
    let system = host.system()->0;
    assert(entries@.drop_last() == Seq::<DirectoryEntry>::empty());
    assert(listed(system, Seq::<DirectoryEntry>::empty()) == Seq::<VersionView>::empty());
    assert(listed(system, entries@).len() <= 1);
    assert(view_all(res@).len() == view_all(res@).to_multiset().len());
}

/// Without a home nothing is listed.
pub proof fn nothing_is_listed_without_a_home(
    host: Host,
    entries: Vec<DirectoryEntry>,
    res: Vec<Version>,
)
    requires
        host.home is None,
        call_ensures(Resolc::solc_installed_versions, (&host, &entries), res),
    ensures
        res@.len() == 0,
{
}

/// A file name is read as the version whose compiler has that name.
pub proof fn file_names_are_read(
    os: Seq<char>,
    arch: Seq<char>,
    system: ResolcOS,
    name: &str,
    res: Option<Version>,
)
    requires
        system_of(os, arch) == Some(system),
        call_ensures(read_file_name, (&system, name), res),
    ensures
        forall|v: VersionView|
            v.valid() && fits(version_text(v)) && name@ == binary_prefix(os, arch) + "v"@
                + #[trigger] version_text(v) ==> res is Some && res->0@ == v,
        res matches Some(v) ==> name@ == binary_prefix(os, arch) + "v"@ + version_text(v@)
            && v@.valid(),
{
    prefixes_name_the_machine(os, arch);
    assert forall|v: VersionView|
        v.valid() && fits(version_text(v)) && name@ == binary_prefix(os, arch) + "v"@
            + #[trigger] version_text(v) implies res is Some && res->0@ == v by {
        installed_compilers_are_listed(system, v);
    }
    if res is Some {
        listed_compilers_are_found(system, name@, res->0@);
    }
}

} // verus!
