//! What holds of the lists of compiler versions.

use vstd::prelude::*;

use crate::laws::reading_keeps_the_text;
use crate::order::{is_sorted, Ranked};
use crate::os::{resolc_prefix, ResolcOS};
use crate::paths::{compiler_name, lock_name};
use crate::precedence::{
    order_is_antisymmetric, order_is_total, order_is_transitive, version_le,
};
use crate::text::occurs_at;
use crate::version::{fits, lemma_parsed, release, version_text, Version, VersionView};
use crate::versions::{
    compiler_version_le, entry_version, fresh, has_file, has_numbers, listed, listed_version, merged,
    same_numbers, solc_releases, CompilerVersion, CompilerVersionView, DirectoryEntry,
};

verus! {

/// The Solidity versions that can be fetched are releases from `0.4` to `0.8`.
pub proof fn releases_are_plain(i: int)
    requires
        0 <= i < solc_releases().len(),
    ensures
        solc_releases()[i].major == 0,
        4 <= solc_releases()[i].minor <= 8,
        solc_releases()[i].pre.len() == 0,
        solc_releases()[i].build.len() == 0,
{
}

/// No two of the Solidity versions that can be fetched have the same numbers.
pub proof fn releases_are_distinct(i: int, j: int)
    requires
        0 <= i < j < solc_releases().len(),
    ensures
        !same_numbers(solc_releases()[i], solc_releases()[j]),
{
}

/// There are Solidity versions of `0.8` to be fetched.
pub proof fn current_releases_are_available()
    ensures
        solc_releases().len() == 82,
        solc_releases().last() == release(0, 8, 28),
{
}

pub proof fn lemma_fresh(installed: Seq<VersionView>, remote: Seq<VersionView>)
    ensures
        forall|i: int|
            #![trigger fresh(installed, remote)[i]]
            0 <= i < fresh(installed, remote).len() ==> remote.contains(
                fresh(installed, remote)[i],
            ) && !has_numbers(installed, fresh(installed, remote)[i]),
        forall|i: int, j: int|
            0 <= i < j < fresh(installed, remote).len() ==> !same_numbers(
                #[trigger] fresh(installed, remote)[i],
                #[trigger] fresh(installed, remote)[j],
            ),
        forall|i: int|
            #![trigger remote[i]]
            0 <= i < remote.len() ==> has_numbers(installed, remote[i]) || has_numbers(
                fresh(installed, remote),
                remote[i],
            ),
    decreases remote.len(),
{
    if remote.len() > 0 {
        let earlier = remote.drop_last();
        let last = remote.last();
        let kept = fresh(installed, earlier);
        let all = fresh(installed, remote);
        lemma_fresh(installed, earlier);
        assert forall|i: int| 0 <= i < kept.len() implies remote.contains(#[trigger] kept[i]) by {
            let k = choose|k: int| 0 <= k < earlier.len() && earlier[k] == kept[i];
            assert(remote[k] == kept[i]);
        }
        if has_numbers(installed, last) || has_numbers(earlier, last) {
            assert(all == kept);
            assert forall|i: int| #![trigger remote[i]] 0 <= i < remote.len() implies has_numbers(
                installed,
                remote[i],
            ) || has_numbers(all, remote[i]) by {
                if i < earlier.len() {
                    assert(earlier[i] == remote[i]);
                } else if !has_numbers(installed, last) {
                    let k = choose|k: int|
                        0 <= k < earlier.len() && same_numbers(#[trigger] earlier[k], last);
                    assert(!has_numbers(installed, earlier[k])) by {
                        if has_numbers(installed, earlier[k]) {
                            let m = choose|m: int|
                                0 <= m < installed.len() && same_numbers(
                                    #[trigger] installed[m],
                                    earlier[k],
                                );
                            assert(same_numbers(installed[m], last));
                        }
                    }
                    let m = choose|m: int|
                        0 <= m < kept.len() && same_numbers(#[trigger] kept[m], earlier[k]);
                    assert(same_numbers(all[m], last));
                }
            }
        } else {
            assert(all == kept.push(last));
            assert forall|i: int, j: int| 0 <= i < j < all.len() implies !same_numbers(
                #[trigger] all[i],
                #[trigger] all[j],
            ) by {
                assert(all[i] == kept[i]);
                if j < kept.len() {
                    assert(all[j] == kept[j]);
                } else {
                    let k = choose|k: int| 0 <= k < earlier.len() && earlier[k] == kept[i];
                    assert(!same_numbers(earlier[k], last));
                }
            }
            assert forall|i: int| #![trigger all[i]] 0 <= i < all.len() implies remote.contains(
                all[i],
            ) && !has_numbers(installed, all[i]) by {
                if i < kept.len() {
                    assert(all[i] == kept[i]);
                } else {
                    assert(remote[remote.len() - 1] == last);
                }
            }
            assert forall|i: int| #![trigger remote[i]] 0 <= i < remote.len() implies has_numbers(
                installed,
                remote[i],
            ) || has_numbers(all, remote[i]) by {
                if i < earlier.len() {
                    assert(earlier[i] == remote[i]);
                    if has_numbers(kept, remote[i]) {
                        let m = choose|m: int|
                            0 <= m < kept.len() && same_numbers(#[trigger] kept[m], remote[i]);
                        assert(same_numbers(all[m], remote[i]));
                    }
                } else {
                    assert(same_numbers(all[all.len() - 1], last));
                }
            }
        }
    }
}

/// Whether `all` is a possible list of the available versions next to those
/// that are installed.
pub open spec fn lists_available(
    all: Seq<CompilerVersionView>,
    installed: Seq<VersionView>,
) -> bool {
    &&& all.to_multiset() == merged(installed, solc_releases()).to_multiset()
    &&& is_sorted::<CompilerVersion>(all)
}

proof fn lemma_same_items(all: Seq<CompilerVersionView>, installed: Seq<VersionView>)
    requires
        lists_available(all, installed),
    ensures
        all.len() == merged(installed, solc_releases()).len(),
        forall|c: CompilerVersionView|
            all.contains(c) <==> merged(installed, solc_releases()).contains(c),
{
    broadcast use vstd::seq_lib::group_to_multiset_ensures;

    let from = merged(installed, solc_releases());
    assert(all.len() == all.to_multiset().len());
    assert forall|c: CompilerVersionView| all.contains(c) <==> from.contains(c) by {
        assert(all.contains(c) <==> all.to_multiset().count(c) > 0);
        assert(from.contains(c) <==> from.to_multiset().count(c) > 0);
    }
}

/// Installed versions come first in the list of available versions.
pub proof fn installed_come_first(
    all: Seq<CompilerVersionView>,
    installed: Seq<VersionView>,
    i: int,
    j: int,
)
    requires
        lists_available(all, installed),
        0 <= i < j < all.len(),
        all[j] is Installed,
    ensures
        all[i] is Installed,
{
}

/// Exactly the installed versions are marked as installed, and what is marked
/// as remote can be fetched and has the numbers of no installed version.
pub proof fn marks_are_right(all: Seq<CompilerVersionView>, installed: Seq<VersionView>)
    requires
        lists_available(all, installed),
    ensures
        forall|v: VersionView|
            installed.contains(v) <==> #[trigger] all.contains(CompilerVersionView::Installed(v)),
        forall|v: VersionView|
            #[trigger] all.contains(CompilerVersionView::Remote(v)) ==> solc_releases().contains(v)
                && !has_numbers(installed, v),
{
    lemma_same_items(all, installed);
    let new = fresh(installed, solc_releases());
    let first = installed.map_values(|v: VersionView| CompilerVersionView::Installed(v));
    let second = new.map_values(|v: VersionView| CompilerVersionView::Remote(v));
    let from = merged(installed, solc_releases());
    lemma_fresh(installed, solc_releases());
    assert forall|v: VersionView|
        installed.contains(v) <==> #[trigger] all.contains(CompilerVersionView::Installed(v)) by {
        let c = CompilerVersionView::Installed(v);
        if installed.contains(v) {
            let k = choose|k: int| 0 <= k < installed.len() && installed[k] == v;
            assert(from[k] == c);
        }
        if from.contains(c) {
            let k = choose|k: int| 0 <= k < from.len() && from[k] == c;
            if k < first.len() {
                assert(installed[k] == v);
            } else {
                assert(from[k] == second[k - first.len()]);
            }
        }
    }
    assert forall|v: VersionView|
        #[trigger] all.contains(CompilerVersionView::Remote(v)) implies solc_releases().contains(v)
        && !has_numbers(installed, v) by {
        let c = CompilerVersionView::Remote(v);
        let k = choose|k: int| 0 <= k < from.len() && from[k] == c;
        if k < first.len() {
            assert(from[k] == first[k]);
        } else {
            assert(from[k] == second[k - first.len()]);
            assert(new[k - first.len()] == v);
        }
    }
}

/// Every version that is installed or can be fetched has its numbers in the list
/// of available versions, which is therefore never empty.
pub proof fn nothing_is_missing(
    all: Seq<CompilerVersionView>,
    installed: Seq<VersionView>,
    v: VersionView,
)
    requires
        lists_available(all, installed),
        installed.contains(v) || solc_releases().contains(v),
    ensures
        all.len() > 0,
        exists|i: int| 0 <= i < all.len() && same_numbers((#[trigger] all[i]).version(), v),
{
    lemma_same_items(all, installed);
    lemma_fresh(installed, solc_releases());
    let new = fresh(installed, solc_releases());
    let from = merged(installed, solc_releases());
    let first = installed.map_values(|v: VersionView| CompilerVersionView::Installed(v));
    let second = new.map_values(|v: VersionView| CompilerVersionView::Remote(v));
    let c = if has_numbers(installed, v) {
        let k = choose|k: int| 0 <= k < installed.len() && same_numbers(#[trigger] installed[k], v);
        assert(from[k] == first[k]);
        from[k]
    } else {
        if installed.contains(v) {
            let k = choose|k: int| 0 <= k < installed.len() && installed[k] == v;
            assert(same_numbers(installed[k], v));
        }
        let r = choose|r: int| 0 <= r < solc_releases().len() && solc_releases()[r] == v;
        assert(has_numbers(new, solc_releases()[r]));
        let k = choose|k: int| 0 <= k < new.len() && same_numbers(#[trigger] new[k], v);
        assert(from[first.len() + k] == second[k]);
        from[first.len() + k]
    };
    assert(from.contains(c));
    assert(all.contains(c));
    let i = choose|i: int| 0 <= i < all.len() && all[i] == c;
    assert(same_numbers(all[i].version(), v));
}

/// No two of the available versions that are not installed have the same numbers.
pub proof fn remote_versions_are_distinct(
    all: Seq<CompilerVersionView>,
    installed: Seq<VersionView>,
    i: int,
    j: int,
)
    requires
        lists_available(all, installed),
        0 <= i < j < all.len(),
        all[i] is Remote,
        all[j] is Remote,
    ensures
        !same_numbers(all[i].version(), all[j].version()),
{
    broadcast use vstd::seq_lib::group_to_multiset_ensures;

    let new = fresh(installed, solc_releases());
    let first = installed.map_values(|v: VersionView| CompilerVersionView::Installed(v));
    let second = new.map_values(|v: VersionView| CompilerVersionView::Remote(v));
    let from = merged(installed, solc_releases());
    lemma_same_items(all, installed);
    lemma_fresh(installed, solc_releases());
    let a = all[i];
    let b = all[j];
    if same_numbers(a.version(), b.version()) {
        assert(all.contains(a) && all.contains(b));
        assert(from.contains(a) && from.contains(b));
        let m = choose|m: int| 0 <= m < from.len() && from[m] == a;
        let n = choose|n: int| 0 <= n < from.len() && from[n] == b;
        assert(m >= first.len() && n >= first.len());
        assert(from[m] == second[m - first.len()] && from[n] == second[n - first.len()]);
        assert(new[m - first.len()] == a.version() && new[n - first.len()] == b.version());
        assert(m == n);
        // `a` occurs twice in the list, and only once in what it is made of.
        assert(all == all.take(j) + all.skip(j));
        vstd::seq_lib::lemma_multiset_commutative(all.take(j), all.skip(j));
        assert(all.take(j)[i] == a);
        assert(all.skip(j)[0] == a);
        assert(all.take(j).contains(a) && all.skip(j).contains(a));
        assert(all.to_multiset().count(a) >= 2);
        vstd::seq_lib::lemma_multiset_commutative(first, second);
        assert(!first.contains(a));
        assert forall|k: int, l: int| 0 <= k < second.len() && 0 <= l < second.len() && k
            != l implies second[k] != second[l] by {
            assert(second[k] == CompilerVersionView::Remote(new[k]));
            assert(second[l] == CompilerVersionView::Remote(new[l]));
            assert(same_numbers(new[k], new[l]) || second[k] != second[l]);
        }
        second.lemma_multiset_has_no_duplicates();
        assert(from.to_multiset().count(a) <= 1);
    }
}

/// The three numbers of `v`.
spec fn numbers(v: VersionView) -> (u64, u64, u64) {
    (v.major, v.minor, v.patch)
}

/// There are at least as many available versions as can be fetched.
pub proof fn no_fewer_than_the_releases(
    all: Seq<CompilerVersionView>,
    installed: Seq<VersionView>,
)
    requires
        lists_available(all, installed),
    ensures
        all.len() >= solc_releases().len(),
        all.len() >= 82,
{
    let remote = solc_releases().map_values(|v: VersionView| numbers(v));
    let have = all.map_values(|c: CompilerVersionView| numbers(c.version()));
    assert forall|i: int, j: int| 0 <= i < remote.len() && 0 <= j < remote.len() && i
        != j implies remote[i] != remote[j] by {
        if i < j {
            releases_are_distinct(i, j);
        } else {
            releases_are_distinct(j, i);
        }
        assert(remote[i] == numbers(solc_releases()[i]) && remote[j] == numbers(solc_releases()[j]));
    }
    remote.unique_seq_to_set();
    have.lemma_cardinality_of_set();
    assert forall|n: (u64, u64, u64)| #[trigger] remote.to_set().contains(
        n,
    ) implies have.to_set().contains(n) by {
        assert(remote.contains(n));
        let k = choose|k: int| 0 <= k < remote.len() && remote[k] == n;
        let v = solc_releases()[k];
        assert(solc_releases().contains(v));
        nothing_is_missing(all, installed, v);
        let i = choose|i: int|
            0 <= i < all.len() && same_numbers((#[trigger] all[i]).version(), v);
        assert(have[i] == n);
        assert(have.contains(n));
    }
    vstd::seq_lib::seq_to_set_is_finite(have);
    vstd::set_lib::lemma_len_subset(remote.to_set(), have.to_set());
}

/// The file that an installation writes is listed with the version that was
/// installed.
pub proof fn installed_compilers_are_listed(os: ResolcOS, v: VersionView)
    requires
        v.valid(),
        fits(version_text(v)),
    ensures
        listed_version(os, compiler_name(os, v)) == Some(v),
{
    let mark = resolc_prefix(os) + "v"@;
    let name = compiler_name(os, v);
    assert(name.subrange(0, mark.len() as int) == mark);
    assert(name.skip(mark.len() as int) == version_text(v));
    lemma_parsed(version_text(v), v);
}

/// A file that is listed with a version has the name under which the compiler of
/// that version is looked for.
pub proof fn listed_compilers_are_found(os: ResolcOS, name: Seq<char>, v: VersionView)
    requires
        listed_version(os, name) == Some(v),
    ensures
        v.valid(),
        name == compiler_name(os, v),
{
    let mark = resolc_prefix(os) + "v"@;
    assert(name == name.subrange(0, mark.len() as int) + name.skip(mark.len() as int));
    reading_keeps_the_text(name.skip(mark.len() as int), v);
}

/// Lock files are not listed.
pub proof fn locks_are_not_listed(os: ResolcOS, compiler: Seq<char>, version: Seq<char>)
    ensures
        listed_version(os, lock_name(compiler, version)) is None,
{
    reveal_strlit(".lock-");
    reveal_strlit("resolc-linux-amd64-musl-");
    reveal_strlit("resolc-linux-arm64-musl-");
    reveal_strlit("resolc-macosx-amd64-");
    reveal_strlit("resolc-macosx-arm64-");
    let mark = resolc_prefix(os) + "v"@;
    let lock = lock_name(compiler, version);
    assert(lock[0] == '.');
    if occurs_at(lock, mark, 0) {
        assert(lock.subrange(0, mark.len() as int)[0] == lock[0]);
    }
}

pub proof fn lemma_listed(os: ResolcOS, entries: Seq<DirectoryEntry>, v: VersionView)
    ensures
        listed(os, entries).contains(v) <==> exists|i: int|
            0 <= i < entries.len() && entry_version(os, #[trigger] entries[i]) == Some(v),
    decreases entries.len(),
{
    if entries.len() > 0 {
        let rest = entries.drop_last();
        let earlier = listed(os, rest);
        let all = listed(os, entries);
        let last = entries.last();
        lemma_listed(os, rest, v);
        if earlier.contains(v) {
            let k = choose|k: int| 0 <= k < earlier.len() && earlier[k] == v;
            assert(all[k] == v);
            let i = choose|i: int|
                0 <= i < rest.len() && entry_version(os, #[trigger] rest[i]) == Some(v);
            assert(entries[i] == rest[i]);
        }
        if entry_version(os, last) == Some(v) {
            assert(all[all.len() - 1] == v);
            assert(entries[entries.len() - 1] == last);
        }
        if exists|i: int|
            0 <= i < entries.len() && entry_version(os, #[trigger] entries[i]) == Some(v) {
            let i = choose|i: int|
                0 <= i < entries.len() && entry_version(os, #[trigger] entries[i]) == Some(v);
            if i < rest.len() {
                assert(rest[i] == entries[i]);
            }
        }
        if all.contains(v) && !earlier.contains(v) {
            let k = choose|k: int| 0 <= k < all.len() && all[k] == v;
            if k < earlier.len() {
                assert(earlier[k] == v);
            }
        }
    }
}

/// Whether `installed` are the versions whose compilers stand among `entries`.
pub open spec fn lists_installed(
    installed: Seq<VersionView>,
    os: ResolcOS,
    entries: Seq<DirectoryEntry>,
) -> bool {
    installed.to_multiset() == listed(os, entries).to_multiset()
}

proof fn lemma_installed(
    installed: Seq<VersionView>,
    os: ResolcOS,
    entries: Seq<DirectoryEntry>,
    v: VersionView,
)
    requires
        lists_installed(installed, os, entries),
    ensures
        installed.contains(v) <==> listed(os, entries).contains(v),
{
    broadcast use vstd::seq_lib::group_to_multiset_ensures;

    assert(installed.contains(v) <==> installed.to_multiset().count(v) > 0);
    assert(listed(os, entries).contains(v) <==> listed(os, entries).to_multiset().count(v) > 0);
}

/// Installed versions are detected: where the file that the installation of a
/// version writes is in the compilers directory, that version is available as an
/// installed one.
pub proof fn installed_compilers_are_available(
    os: ResolcOS,
    entries: Seq<DirectoryEntry>,
    installed: Seq<VersionView>,
    all: Seq<CompilerVersionView>,
    v: VersionView,
)
    requires
        v.valid(),
        fits(version_text(v)),
        has_file(entries, compiler_name(os, v)),
        lists_installed(installed, os, entries),
        lists_available(all, installed),
    ensures
        all.contains(CompilerVersionView::Installed(v)),
{
    let i = choose|i: int|
        0 <= i < entries.len() && (#[trigger] entries[i]).is_file_named(compiler_name(os, v));
    installed_compilers_are_listed(os, v);
    assert(entry_version(os, entries[i]) == Some(v));
    lemma_listed(os, entries, v);
    lemma_installed(installed, os, entries, v);
    marks_are_right(all, installed);
}

/// A version that is available as an installed one is found: the file in which it
/// is looked for is in the compilers directory.
pub proof fn available_compilers_are_found(
    os: ResolcOS,
    entries: Seq<DirectoryEntry>,
    installed: Seq<VersionView>,
    all: Seq<CompilerVersionView>,
    v: VersionView,
)
    requires
        lists_installed(installed, os, entries),
        lists_available(all, installed),
        all.contains(CompilerVersionView::Installed(v)),
    ensures
        v.valid(),
        has_file(entries, compiler_name(os, v)),
{
    marks_are_right(all, installed);
    lemma_installed(installed, os, entries, v);
    lemma_listed(os, entries, v);
    let i = choose|i: int|
        0 <= i < entries.len() && entry_version(os, #[trigger] entries[i]) == Some(v);
    listed_compilers_are_found(os, entries[i].name->0@, v);
    assert(entries[i].is_file_named(compiler_name(os, v)));
}

/// The order of versions leaves no choice: the same versions in order are the
/// same list.
pub proof fn sorted_versions_are_determined(x: Seq<VersionView>, y: Seq<VersionView>)
    requires
        is_sorted::<Version>(x),
        is_sorted::<Version>(y),
        x.to_multiset() == y.to_multiset(),
    ensures
        x == y,
{
    let leq = |a: VersionView, b: VersionView| version_le(a, b);
    assert forall|a: VersionView, b: VersionView| #[trigger] leq(a, b) && #[trigger] leq(
        b,
        a,
    ) implies a == b by {
        order_is_antisymmetric(a, b);
    }
    assert forall|a: VersionView, b: VersionView, c: VersionView| #[trigger] leq(a, b)
        && #[trigger] leq(b, c) implies leq(a, c) by {
        order_is_transitive(a, b, c);
    }
    assert forall|a: VersionView, b: VersionView| #[trigger] leq(a, b) || #[trigger] leq(b, a) by {
        order_is_total(a, b);
    }
    assert(vstd::relations::total_ordering(leq));
    assert forall|i: int, j: int| 0 <= i < j < x.len() implies #[trigger] leq(x[i], x[j]) by {
        assert(Version::le(x[i], x[j]));
    }
    assert forall|i: int, j: int| 0 <= i < j < y.len() implies #[trigger] leq(y[i], y[j]) by {
        assert(Version::le(y[i], y[j]));
    }
    vstd::seq_lib::lemma_sorted_unique(x, y, leq);
}

/// What versions are available is one list, whatever the order in which the
/// installed ones are found.
pub proof fn available_versions_are_determined(
    x: Seq<CompilerVersionView>,
    y: Seq<CompilerVersionView>,
    installed: Seq<VersionView>,
)
    requires
        lists_available(x, installed),
        lists_available(y, installed),
    ensures
        x == y,
{
    let leq = |a: CompilerVersionView, b: CompilerVersionView| compiler_version_le(a, b);
    assert forall|a: CompilerVersionView, b: CompilerVersionView| #[trigger] leq(a, b)
        && #[trigger] leq(b, a) implies a == b by {
        order_is_antisymmetric(a.version(), b.version());
    }
    assert forall|a: CompilerVersionView, b: CompilerVersionView, c: CompilerVersionView| #[trigger]
        leq(a, b) && #[trigger] leq(b, c) implies leq(a, c) by {
        if version_le(a.version(), b.version()) && version_le(b.version(), c.version()) {
            order_is_transitive(a.version(), b.version(), c.version());
        }
    }
    assert forall|a: CompilerVersionView, b: CompilerVersionView| #[trigger] leq(a, b)
        || #[trigger] leq(b, a) by {
        order_is_total(a.version(), b.version());
    }
    assert(vstd::relations::total_ordering(leq));
    assert forall|i: int, j: int| 0 <= i < j < x.len() implies #[trigger] leq(x[i], x[j]) by {
        assert(CompilerVersion::le(x[i], x[j]));
    }
    assert forall|i: int, j: int| 0 <= i < j < y.len() implies #[trigger] leq(y[i], y[j]) by {
        assert(CompilerVersion::le(y[i], y[j]));
    }
    vstd::seq_lib::lemma_sorted_unique(x, y, leq);
}

} // verus!
