//! What holds of the library as a whole.

use vstd::prelude::*;

use crate::install::{download_url, InstallPlan};
use crate::os::{resolc_prefix, solc_prefix, ResolcOS};
use crate::paths::{compiler_name, compiler_names, lock_name, texts, Host, InstallPath};
use crate::process::failure_text;
use crate::text::{contains, occurs_at};
use crate::version::{
    core_text, fits, is_digit, is_tag_char, lemma_core_chars, lemma_parsed, lemma_tag_chars, parsed,
    tag_text, version_text, version_text_is_unique, VersionView,
};

verus! {

/// What a text is read as has that text.
pub proof fn reading_keeps_the_text(text: Seq<char>, v: VersionView)
    requires
        parsed(text) == Some(v),
    ensures
        v.valid(),
        version_text(v) == text,
{
}

/// The text of a version is read back as that version.
pub proof fn text_is_read_back(v: VersionView)
    requires
        v.valid(),
        fits(version_text(v)),
    ensures
        parsed(version_text(v)) == Some(v),
{
    lemma_parsed(version_text(v), v);
}

/// Where the characters of a version come from: digits, dots, tag characters and
/// a plus sign.
pub proof fn version_characters(v: VersionView)
    requires
        v.valid(),
    ensures
        version_text(v).len() > 0,
        is_digit(version_text(v)[0]),
        forall|i: int|
            0 <= i < version_text(v).len() ==> is_tag_char(#[trigger] version_text(v)[i])
                || version_text(v)[i] == '.' || version_text(v)[i] == '+',
{
    lemma_core_chars(v);
    lemma_tag_chars(v.pre, true);
    lemma_tag_chars(v.build, false);
    let text = version_text(v);
    let core = core_text(v);
    let pre = tag_text('-', v.pre);
    let build = tag_text('+', v.build);
    assert(text[0] == core[0]);
    assert forall|i: int| 0 <= i < text.len() implies is_tag_char(#[trigger] text[i]) || text[i]
        == '.' || text[i] == '+' by {
        if i < core.len() {
            assert(text[i] == core[i]);
        } else if i < core.len() + pre.len() {
            assert(text[i] == pre[i - core.len()]);
            if i > core.len() {
                assert(pre[i - core.len()] == v.pre[i - core.len() - 1]);
            }
        } else {
            let j = i - core.len() - pre.len();
            assert(text[i] == build[j]);
            if j > 0 {
                assert(build[j] == v.build[j - 1]);
            }
        }
    }
}

/// A text that does not start with a digit is no version.
pub proof fn versions_start_with_digits(text: Seq<char>)
    requires
        text.len() == 0 || !is_digit(text[0]),
    ensures
        parsed(text) is None,
{
    if parsed(text) is Some {
        version_characters(parsed(text)->0);
    }
}

proof fn lemma_prefix_chars(os: ResolcOS)
    ensures
        resolc_prefix(os).len() >= 20,
        resolc_prefix(os)[0] == 'r',
        resolc_prefix(os)[7] == (match os {
            ResolcOS::LinuxAMD64 | ResolcOS::LinuxARM64 => 'l',
            _ => 'm',
        }),
        resolc_prefix(os).len() == (match os {
            ResolcOS::LinuxAMD64 | ResolcOS::LinuxARM64 => 24nat,
            _ => 20nat,
        }),
        (match os {
            ResolcOS::LinuxAMD64 => resolc_prefix(os)[14] == 'm',
            ResolcOS::LinuxARM64 => resolc_prefix(os)[14] == 'r',
            ResolcOS::MacAMD => resolc_prefix(os)[15] == 'm',
            ResolcOS::MacARM => resolc_prefix(os)[15] == 'r',
        }),
        resolc_prefix(os).last() == '-',
        forall|i: int|
            0 <= i < resolc_prefix(os).len() ==> is_tag_char(#[trigger] resolc_prefix(os)[i]),
        occurs_at(resolc_prefix(os), "resolc"@, 0),
{
    reveal_strlit("resolc-linux-amd64-musl-");
    reveal_strlit("resolc-linux-arm64-musl-");
    reveal_strlit("resolc-macosx-amd64-");
    reveal_strlit("resolc-macosx-arm64-");
    reveal_strlit("resolc");
    assert(resolc_prefix(os).subrange(0, 6) == "resolc"@);
}

/// Every `resolc` release name contains the compiler's name and ends its prefix
/// with a hyphen.
pub proof fn resolc_prefixes_are_marked(os: ResolcOS)
    ensures
        contains(resolc_prefix(os), "resolc"@),
        resolc_prefix(os).len() > 0,
        resolc_prefix(os).last() == '-',
{
    lemma_prefix_chars(os);
}

/// Every `solc` release name contains the compiler's name and ends its prefix
/// with a hyphen.
pub proof fn solc_prefixes_are_marked(os: ResolcOS)
    ensures
        contains(solc_prefix(os), "solc"@),
        solc_prefix(os).len() > 0,
        solc_prefix(os).last() == '-',
{
    reveal_strlit("solc-linux-amd64-");
    reveal_strlit("solc-linux-arm64-");
    reveal_strlit("solc-macosx-amd64-");
    reveal_strlit("solc-macosx-arm64-");
    reveal_strlit("solc");
    assert(solc_prefix(os).subrange(0, 4) == "solc"@);
    assert(occurs_at(solc_prefix(os), "solc"@, 0));
}

/// No two compilers, for whatever system, have the same file name.
pub proof fn compiler_names_are_unique(os_a: ResolcOS, a: VersionView, os_b: ResolcOS, b: VersionView)
    requires
        a.valid(),
        b.valid(),
        compiler_name(os_a, a) == compiler_name(os_b, b),
    ensures
        os_a == os_b,
        a == b,
{
    reveal_strlit("v");
    lemma_prefix_chars(os_a);
    lemma_prefix_chars(os_b);
    let name = compiler_name(os_a, a);
    let other = compiler_name(os_b, b);
    assert(name[7] == resolc_prefix(os_a)[7]);
    assert(other[7] == resolc_prefix(os_b)[7]);
    assert(name[14] == resolc_prefix(os_a)[14]);
    assert(other[14] == resolc_prefix(os_b)[14]);
    assert(name[15] == resolc_prefix(os_a)[15]);
    assert(other[15] == resolc_prefix(os_b)[15]);
    assert(os_a == os_b);
    let n = resolc_prefix(os_a).len() as int + 1;
    assert(name.skip(n) == version_text(a));
    assert(other.skip(n) == version_text(b));
    version_text_is_unique(a, b);
}

/// The file name of a compiler contains the text of its version, and neither
/// spaces nor path separators.
pub proof fn compiler_name_is_one_plain_word(os: ResolcOS, v: VersionView)
    requires
        v.valid(),
    ensures
        contains(compiler_name(os, v), version_text(v)),
        forall|i: int|
            0 <= i < compiler_name(os, v).len() ==> {
                let c = #[trigger] compiler_name(os, v)[i];
                c != ' ' && c != '/' && c != '\\'
            },
{
    reveal_strlit("v");
    lemma_prefix_chars(os);
    version_characters(v);
    let name = compiler_name(os, v);
    let n = resolc_prefix(os).len() as int;
    assert forall|i: int| 0 <= i < name.len() implies ({
        let c = #[trigger] name[i];
        c != ' ' && c != '/' && c != '\\'
    }) by {
        if i < n {
            assert(name[i] == resolc_prefix(os)[i]);
        } else if i == n {
            assert(name[i] == 'v');
        } else {
            assert(name[i] == version_text(v)[i - n - 1]);
        }
    }
    assert(name.subrange(n + 1, n + 1 + version_text(v).len()) == version_text(v));
    assert(occurs_at(name, version_text(v), n + 1));
}

/// A lock file has no compiler's name, and each version has its own.
pub proof fn locks_are_apart(os: ResolcOS, a: VersionView, b: VersionView)
    requires
        a.valid(),
        b.valid(),
    ensures
        lock_name("resolc"@, version_text(a)) != compiler_name(os, b),
        lock_name("resolc"@, version_text(a)) == lock_name("resolc"@, version_text(b)) ==> a == b,
{
    reveal_strlit(".lock-");
    lemma_prefix_chars(os);
    let lock = lock_name("resolc"@, version_text(a));
    assert(lock[0] == '.');
    assert(compiler_name(os, b)[0] == resolc_prefix(os)[0]);
    let n = (".lock-"@ + "resolc"@ + "-"@).len() as int;
    assert(lock.skip(n) == version_text(a));
    assert(lock_name("resolc"@, version_text(b)).skip(n) == version_text(b));
    if lock == lock_name("resolc"@, version_text(b)) {
        version_text_is_unique(a, b);
    }
}

/// Every download is one of a `resolc` compiler; that of a release names its
/// version, and that of a pre-release its tag.
pub proof fn downloads_are_marked(os: ResolcOS, v: VersionView)
    ensures
        contains(download_url(os, v), "resolc"@),
        v.pre.len() == 0 ==> contains(download_url(os, v), version_text(v)),
        v.pre.len() > 0 ==> contains(download_url(os, v), v.pre),
{
    lemma_prefix_chars(os);
    let url = download_url(os, v);
    let prefix = resolc_prefix(os);
    let text = version_text(v);
    reveal_strlit("resolc");
    if v.pre.len() == 0 {
        let base = "https://github.com/paritytech/resolc-bin/releases/download/v"@;
        let at = (base + text + "/"@).len() as int;
        assert(url.subrange(at, at + prefix.len()) == prefix);
        assert(url.subrange(at, at + 6) == url.subrange(at, at + prefix.len()).subrange(0, 6));
        assert(occurs_at(url, "resolc"@, at));
        assert(url.subrange(base.len() as int, (base.len() + text.len()) as int) == text);
        assert(occurs_at(url, text, base.len() as int));
    } else {
        let base = "https://github.com/paritytech/revive/releases/download/"@;
        let at = (base + v.pre + "/resolc-"@).len() as int;
        assert(url.subrange(at, at + prefix.len()) == prefix);
        assert(url.subrange(at, at + 6) == url.subrange(at, at + prefix.len()).subrange(0, 6));
        assert(occurs_at(url, "resolc"@, at));
        assert(url.subrange(base.len() as int, (base.len() + v.pre.len()) as int) == v.pre);
        assert(occurs_at(url, v.pre, base.len() as int));
    }
}

/// An installation puts the compiler where it is looked for.
pub proof fn installed_where_it_is_looked_for(
    host: Host,
    v: VersionView,
    plan: InstallPlan,
    found: InstallPath,
)
    requires
        plan.is_for(host, v),
        found.is(host.home->0, compiler_names(host, v)),
    ensures
        plan.compiler_path.base == found.base,
        texts(plan.compiler_path.names@) == texts(found.names@),
{
}

/// What is shown of a failed process is never empty.
pub proof fn failures_are_never_silent(stderr: Seq<char>, stdout: Seq<char>)
    ensures
        failure_text(stderr, stdout).len() > 0,
{
    reveal_strlit("<empty output>");
}

} // verus!
