//! What holds of the reports that compilers print.

use vstd::prelude::*;

use crate::error::SolcError;
use crate::laws::{version_characters, versions_start_with_digits};
use crate::process::{
    candidates, first_version, is_solc_report, named_version, revive_version, solc_field,
    version_line, SolcVersionInfo,
};
use crate::text::{
    contains, is_blank, is_white_space, lemma_prefix_len, lemma_prefix_len_is, lines, non_blank,
    occurs_at, prefix_len, replace, strip_return, trim, trim_start_matches, words, CharClass,
};
use crate::version::{
    core_text, fits, is_digit, lemma_core_chars, lemma_parsed, lemma_tag_chars, parsed, tag_text,
    version_text, VersionView,
};

verus! {

/// Among the words that may be the version, the first that is one is taken, and
/// words that do not start with a digit are none.
pub proof fn first_readable_word_is_taken(all: Seq<Seq<char>>, k: int, v: VersionView)
    requires
        0 <= k < all.len(),
        forall|i: int|
            0 <= i < k ==> (#[trigger] all[i]).len() == 0 || !is_digit(all[i][0]),
        v.valid(),
        fits(all[k]),
        all[k] == version_text(v),
    ensures
        first_version(all) == Some(v),
    decreases k,
{
    if k == 0 {
        lemma_parsed(all[0], v);
    } else {
        versions_start_with_digits(all[0]);
        let rest = all.drop_first();
        assert(rest[k - 1] == all[k]);
        assert forall|i: int| 0 <= i < k - 1 implies (#[trigger] rest[i]).len() == 0 || !is_digit(
            rest[i][0],
        ) by {
            assert(rest[i] == all[i + 1]);
        }
        first_readable_word_is_taken(rest, k - 1, v);
    }
}

proof fn lemma_non_blank_cons(first: Seq<char>, rest: Seq<Seq<char>>)
    requires
        !is_blank(first),
    ensures
        non_blank(seq![first] + rest) == seq![first] + non_blank(rest),
    decreases rest.len(),
{
    let all = seq![first] + rest;
    if rest.len() == 0 {
        assert(all.drop_last() == Seq::<Seq<char>>::empty());
        assert(all.last() == first);
        assert(non_blank(all.drop_last()) == Seq::<Seq<char>>::empty());
        assert(non_blank(all) == seq![first] + non_blank(rest));
    } else {
        lemma_non_blank_cons(first, rest.drop_last());
        assert(all.drop_last() == seq![first] + rest.drop_last());
        assert(all.last() == rest.last());
        assert(non_blank(all) == seq![first] + non_blank(rest));
    }
}

proof fn lemma_words_cons(word: Seq<char>, rest: Seq<char>)
    requires
        word.len() > 0,
        forall|i: int| 0 <= i < word.len() ==> !is_white_space(#[trigger] word[i]),
        rest.len() == 0 || is_white_space(rest[0]),
    ensures
        words(word + rest) == seq![word] + words(rest),
{
    let s = word + rest;
    assert(s[0] == word[0]);
    assert(prefix_len(s, CharClass::Space) == 0);
    assert(s.skip(0) == s);
    assert forall|i: int| 0 <= i < word.len() implies CharClass::Visible.holds(#[trigger] s[i]) by {
        assert(s[i] == word[i]);
    }
    if rest.len() > 0 {
        assert(s[word.len() as int] == rest[0]);
    }
    lemma_prefix_len_is(s, CharClass::Visible, word.len() as int);
    assert(s.take(word.len() as int) == word);
    assert(s.skip(word.len() as int) == rest);
}

proof fn lemma_words_space(c: char, rest: Seq<char>)
    requires
        is_white_space(c),
    ensures
        words(seq![c] + rest) == words(rest),
{
    let s = seq![c] + rest;
    assert(s.drop_first() == rest);
    let n = prefix_len(rest, CharClass::Space);
    assert(prefix_len(s, CharClass::Space) == 1 + n);
    lemma_prefix_len(rest, CharClass::Space);
    assert(s.skip((1 + n) as int) == rest.skip(n as int));
}

proof fn lemma_first_line(line: Seq<char>, more: Seq<char>)
    requires
        forall|i: int| 0 <= i < line.len() ==> #[trigger] line[i] != '\n',
    ensures
        lines(line + "\n"@ + more) == seq![strip_return(line)] + lines(more),
{
    reveal_strlit("\n");
    let text = line + "\n"@ + more;
    assert forall|i: int| 0 <= i < line.len() implies CharClass::Except('\n').holds(
        #[trigger] text[i],
    ) by {
        assert(text[i] == line[i]);
    }
    assert(text[line.len() as int] == '\n');
    lemma_prefix_len_is(text, CharClass::Except('\n'), line.len() as int);
    assert(text.take(line.len() as int) == line);
    assert(text.skip(line.len() as int + 1) == more);
}

/// The line on which a compiler announces version `v`.
pub open spec fn announcement(v: VersionView) -> Seq<char> {
    "resolc version v"@ + version_text(v)
}

proof fn lemma_announcement_chars(v: VersionView)
    requires
        v.valid(),
    ensures
        announcement(v) == seq!['r', 'e', 's', 'o', 'l', 'c'] + (seq![' '] + (seq![
            'v',
            'e',
            'r',
            's',
            'i',
            'o',
            'n',
        ] + (seq![' '] + (seq!['v'] + version_text(v))))),
        contains(announcement(v), "version"@),
{
    reveal_strlit("resolc version v");
    reveal_strlit("version");
    let line = announcement(v);
    assert(line.subrange(7, 14) == "version"@);
    assert(occurs_at(line, "version"@, 7));
}

proof fn lemma_announced_line(v: VersionView, more: Seq<char>)
    requires
        v.valid(),
    ensures
        version_line(announcement(v) + "\n"@ + more) == Some(announcement(v)),
{
    reveal_strlit("resolc version v");
    let number = version_text(v);
    let line = announcement(v);
    let text = line + "\n"@ + more;
    version_characters(v);
    lemma_announcement_chars(v);
    assert forall|i: int| 0 <= i < line.len() implies #[trigger] line[i] != '\n' by {
        if i >= 16 {
            assert(line[i] == number[i - 16]);
        }
    }
    lemma_first_line(line, more);
    assert(line.last() == number[number.len() - 1]);
    assert(strip_return(line) == line);
    assert(lines(text) == seq![line] + lines(more));
    assert(!is_white_space(line[0]));
    lemma_non_blank_cons(line, lines(more));
    assert(non_blank(lines(text))[0] == line);
}

proof fn lemma_announced_words(v: VersionView)
    requires
        v.valid(),
    ensures
        words(announcement(v)) == seq![
            seq!['r', 'e', 's', 'o', 'l', 'c'],
            seq!['v', 'e', 'r', 's', 'i', 'o', 'n'],
            seq!['v'] + version_text(v),
        ],
{
    let number = version_text(v);
    let first = seq!['r', 'e', 's', 'o', 'l', 'c'];
    let second = seq!['v', 'e', 'r', 's', 'i', 'o', 'n'];
    let third = seq!['v'] + number;
    let tail = second + (seq![' '] + third);
    version_characters(v);
    lemma_announcement_chars(v);
    assert forall|i: int| 0 <= i < third.len() implies !is_white_space(#[trigger] third[i]) by {
        if i > 0 {
            assert(third[i] == number[i - 1]);
        }
    }
    lemma_words_cons(first, seq![' '] + tail);
    lemma_words_space(' ', tail);
    lemma_words_cons(second, seq![' '] + third);
    lemma_words_space(' ', third);
    lemma_words_cons(third, Seq::empty());
    assert(third + Seq::<char>::empty() == third);
    assert(words(Seq::<char>::empty()) == Seq::<Seq<char>>::empty());
    assert(words(third) == seq![third]);
}

proof fn lemma_trim_none(s: Seq<char>)
    requires
        s.len() > 0,
        s[0] != 'v',
    ensures
        trim_start_matches(s, "v"@) == s,
{
    reveal_strlit("v");
    assert(s.subrange(0, 1)[0] == s[0]);
}

proof fn lemma_trim_one(s: Seq<char>)
    requires
        s.len() > 0,
        s[0] != 'v',
    ensures
        trim_start_matches(seq!['v'] + s, "v"@) == s,
{
    reveal_strlit("v");
    let t = seq!['v'] + s;
    assert(t.subrange(0, 1) == "v"@);
    assert(t.skip(1) == s);
    lemma_trim_none(s);
}

/// A compiler that prints `resolc version v` and its version on its first line is
/// known by that version, whatever else it prints.
pub proof fn announced_version_is_read(v: VersionView, more: Seq<char>)
    requires
        v.valid(),
        fits(version_text(v)),
    ensures
        named_version(announcement(v) + "\n"@ + more) == Some(v),
{
    let number = version_text(v);
    let first = seq!['r', 'e', 's', 'o', 'l', 'c'];
    let second = seq!['v', 'e', 'r', 's', 'i', 'o', 'n'];
    let ersion = seq!['e', 'r', 's', 'i', 'o', 'n'];
    version_characters(v);
    lemma_announced_line(v, more);
    lemma_announced_words(v);
    lemma_trim_none(first);
    lemma_trim_one(ersion);
    assert(second == seq!['v'] + ersion);
    lemma_trim_one(number);
    let all = candidates(announcement(v));
    assert(all[0] == first && all[1] == ersion && all[2] == number);
    first_readable_word_is_taken(all, 2, v);
}

/// At most one plus sign stands in the text of a version.
proof fn lemma_one_plus(v: VersionView, i: int, j: int)
    requires
        v.valid(),
        0 <= i <= j < version_text(v).len(),
        version_text(v)[i] == '+',
        version_text(v)[j] == '+',
    ensures
        i == j,
{
    let text = version_text(v);
    let plain = VersionView { build: Seq::empty(), ..v };
    lemma_no_plus(plain);
    lemma_tag_chars(v.build, false);
    let n = (core_text(v) + tag_text('-', v.pre)).len() as int;
    assert(version_text(plain) == core_text(v) + tag_text('-', v.pre));
    if i < n {
        assert(text[i] == version_text(plain)[i]);
    }
    if j > n {
        assert(text[j] == v.build[j - n - 1]);
    }
}

/// Without a build tag, there is no plus sign in the text of a version.
proof fn lemma_no_plus(v: VersionView)
    requires
        v.valid(),
        v.build.len() == 0,
    ensures
        forall|i: int| 0 <= i < version_text(v).len() ==> #[trigger] version_text(v)[i] != '+',
{
    let text = version_text(v);
    lemma_core_chars(v);
    lemma_tag_chars(v.pre, true);
    let core = core_text(v);
    assert forall|i: int| 0 <= i < text.len() implies #[trigger] text[i] != '+' by {
        if i < core.len() {
            assert(text[i] == core[i]);
        } else if i > core.len() {
            assert(text[i] == v.pre[i - core.len() - 1]);
        }
    }
}

proof fn lemma_replace_none(s: Seq<char>, from: Seq<char>, to: Seq<char>)
    requires
        forall|i: int| !occurs_at(s, from, i),
    ensures
        replace(s, from, to) == s,
    decreases s.len(),
{
    if s.len() > 0 {
        let rest = s.drop_first();
        assert forall|i: int| !occurs_at(rest, from, i) by {
            if occurs_at(rest, from, i) {
                assert(s.subrange(i + 1, i + 1 + from.len()) == rest.subrange(i, i + from.len()));
                assert(occurs_at(s, from, i + 1));
            }
        }
        assert(!occurs_at(s, from, 0));
        lemma_replace_none(rest, from, to);
        assert(s == seq![s[0]] + rest);
    }
}

proof fn lemma_replace_end(head: Seq<char>, from: Seq<char>, to: Seq<char>)
    requires
        from.len() > 0,
        forall|i: int| i != head.len() ==> !occurs_at(head + from, from, i),
    ensures
        replace(head + from, from, to) == head + to,
    decreases head.len(),
{
    let s = head + from;
    if head.len() == 0 {
        assert(s.subrange(0, from.len() as int) == from);
        assert(occurs_at(s, from, 0));
        assert(s.skip(from.len() as int) == Seq::<char>::empty());
        assert(replace(Seq::<char>::empty(), from, to) == Seq::<char>::empty());
        assert(head + to == to + Seq::<char>::empty());
    } else {
        let rest = head.drop_first();
        assert(s.drop_first() == rest + from);
        assert forall|i: int| i != rest.len() implies !occurs_at(rest + from, from, i) by {
            if occurs_at(rest + from, from, i) {
                assert(s.subrange(i + 1, i + 1 + from.len()) == (rest + from).subrange(
                    i,
                    i + from.len(),
                ));
                assert(occurs_at(s, from, i + 1));
            }
        }
        assert(!occurs_at(s, from, 0));
        lemma_replace_end(rest, from, to);
        assert(head + to == seq![s[0]] + (rest + to));
    }
}

/// Whether `line` is one line that is not blank.
pub open spec fn is_line(line: Seq<char>) -> bool {
    &&& !is_blank(line)
    &&& line.last() != '\r'
    &&& forall|i: int| 0 <= i < line.len() ==> #[trigger] line[i] != '\n'
}

/// The report of a Solidity compiler that prints `title` and, as its version,
/// `field`; `more` stands below.
pub open spec fn solc_report(title: Seq<char>, field: Seq<char>, more: Seq<char>) -> Seq<char> {
    title + "\n"@ + ("Version: "@ + field + "\n"@ + more)
}

proof fn lemma_report_lines(title: Seq<char>, field: Seq<char>, more: Seq<char>)
    requires
        is_line(title),
        field.len() > 0,
        forall|i: int|
            0 <= i < field.len() ==> !is_white_space(#[trigger] field[i]),
    ensures
        non_blank(lines(solc_report(title, field, more))) == seq![title, "Version: "@ + field]
            + non_blank(lines(more)),
{
    reveal_strlit("Version: ");
    let line = "Version: "@ + field;
    let below = line + "\n"@ + more;
    assert(title.len() > 0);
    lemma_first_line(title, below);
    assert forall|i: int| 0 <= i < line.len() implies #[trigger] line[i] != '\n' by {
        if i >= 9 {
            assert(line[i] == field[i - 9]);
        }
    }
    lemma_first_line(line, more);
    assert(line.last() == field[field.len() - 1]);
    assert(!is_white_space(line[0]));
    lemma_non_blank_cons(line, lines(more));
    lemma_non_blank_cons(title, lines(below));
    assert(non_blank(lines(solc_report(title, field, more))) == seq![title] + (seq![line]
        + non_blank(lines(more))));
    assert(seq![title] + (seq![line] + non_blank(lines(more))) == seq![title, line] + non_blank(
        lines(more),
    ));
}

proof fn lemma_trim_label(label: Seq<char>, rest: Seq<char>)
    requires
        label.len() > 0,
        rest.len() > 0,
        rest[0] != label[0],
    ensures
        trim_start_matches(label + rest, label) == rest,
{
    let s = label + rest;
    assert(s.subrange(0, label.len() as int) == label);
    assert(occurs_at(s, label, 0));
    assert(s.skip(label.len() as int) == rest);
    if occurs_at(rest, label, 0) {
        assert(rest.subrange(0, label.len() as int)[0] == rest[0]);
    }
    assert(trim_start_matches(rest, label) == rest);
}

proof fn lemma_no_double_plus(s: Seq<char>)
    requires
        forall|i: int| 0 <= i < s.len() - 1 && s[i] == '+' ==> #[trigger] s[i + 1] != '+',
    ensures
        forall|i: int| !occurs_at(s, ".g++"@, i),
{
    reveal_strlit(".g++");
    assert forall|i: int| !occurs_at(s, ".g++"@, i) by {
        if occurs_at(s, ".g++"@, i) {
            let sub = s.subrange(i, i + 4);
            assert(sub[2] == s[i + 2] && sub[3] == s[i + 3]);
            assert(s[i + 2 + 1] != '+');
        }
    }
}

/// A Solidity compiler that prints its version on its second line is known by
/// that version.
pub proof fn reported_solc_version_is_read(title: Seq<char>, v: VersionView, more: Seq<char>)
    requires
        is_line(title),
        v.valid(),
        fits(version_text(v)),
    ensures
        solc_field(solc_report(title, version_text(v), more)) == Some(version_text(v)),
        parsed(version_text(v)) == Some(v),
{
    reveal_strlit("Version: ");
    let text = version_text(v);
    version_characters(v);
    lemma_report_lines(title, text, more);
    lemma_trim_label("Version: "@, text);
    assert forall|i: int| 0 <= i < text.len() - 1 && text[i] == '+' implies #[trigger] text[i + 1]
        != '+' by {
        if text[i + 1] == '+' {
            lemma_one_plus(v, i, i + 1);
        }
    }
    lemma_no_double_plus(text);
    lemma_replace_none(text, ".g++"@, ".gcc"@);
    lemma_parsed(text, v);
}

/// A version that ends with `.g++`, which is none, is read as the one that ends
/// with `.gcc`.
pub proof fn compiler_names_in_versions_are_mended(
    title: Seq<char>,
    head: Seq<char>,
    v: VersionView,
    more: Seq<char>,
)
    requires
        is_line(title),
        v.valid(),
        fits(version_text(v)),
        version_text(v) == head + ".gcc"@,
    ensures
        solc_field(solc_report(title, head + ".g++"@, more)) == Some(version_text(v)),
        parsed(version_text(v)) == Some(v),
{
    reveal_strlit("Version: ");
    reveal_strlit(".g++");
    reveal_strlit(".gcc");
    let text = version_text(v);
    let shown = head + ".g++"@;
    version_characters(v);
    assert forall|i: int| 0 <= i < shown.len() implies !is_white_space(#[trigger] shown[i]) by {
        if i < head.len() {
            assert(shown[i] == text[i]);
        }
    }
    lemma_report_lines(title, shown, more);
    assert(shown[0] == text[0]);
    lemma_trim_label("Version: "@, shown);
    assert forall|i: int| i != head.len() implies !occurs_at(shown, ".g++"@, i) by {
        if occurs_at(shown, ".g++"@, i) {
            let sub = shown.subrange(i, i + 4);
            assert(sub[0] == shown[i] && sub[1] == shown[i + 1] && sub[2] == shown[i + 2] && sub[3]
                == shown[i + 3]);
            assert(i < head.len());
            if i + 3 < head.len() {
                assert(text[i + 2] == '+' && text[i + 3] == '+');
                lemma_one_plus(v, i + 2, i + 3);
            }
        }
    }
    lemma_replace_end(head, ".g++"@, ".gcc"@);
    lemma_parsed(text, v);
}

/// A Solidity compiler that prints the Revive version on its last line is known
/// by that version too.
pub proof fn reported_revive_version_is_read(title: Seq<char>, field: Seq<char>, w: VersionView)
    requires
        is_line(title),
        field.len() > 0,
        forall|i: int| 0 <= i < field.len() ==> !is_white_space(#[trigger] field[i]),
        w.valid(),
        fits(version_text(w)),
    ensures
        revive_version(solc_report(title, field, "Revive: "@ + version_text(w) + "\n"@)) == Some(w),
{
    reveal_strlit("Revive: ");
    reveal_strlit("Revive:");
    reveal_strlit("Revive");
    let number = version_text(w);
    let line = "Revive: "@ + number;
    let more = line + "\n"@;
    version_characters(w);
    lemma_report_lines(title, field, more);
    assert forall|i: int| 0 <= i < line.len() implies #[trigger] line[i] != '\n' by {
        if i >= 8 {
            assert(line[i] == number[i - 8]);
        }
    }
    assert(more == line + "\n"@ + Seq::<char>::empty());
    lemma_first_line(line, Seq::empty());
    assert(line.last() == number[number.len() - 1]);
    assert(lines(Seq::<char>::empty()) == Seq::<Seq<char>>::empty());
    assert(!is_white_space(line[0]));
    lemma_non_blank_cons(line, Seq::empty());
    assert(non_blank(Seq::<Seq<char>>::empty()) == Seq::<Seq<char>>::empty());
    let all = non_blank(lines(solc_report(title, field, more)));
    assert(all.last() == line);
    assert(line.subrange(0, 6) == "Revive"@);
    let rest = seq![' '] + number;
    assert(line == "Revive:"@ + rest);
    lemma_trim_label("Revive:"@, rest);
    assert(rest.drop_first() == number);
    assert(prefix_len(number, CharClass::Space) == 0);
    assert(prefix_len(rest, CharClass::Space) == 1);
    assert(rest.skip(1) == number);
    assert(number.last() == number[number.len() - 1]);
    assert(trim(rest) == number);
    lemma_parsed(number, w);
}

/// A Solidity compiler that prints its version on its second line and the Revive
/// version on its third is known by both, whatever tags they have.
pub proof fn reported_versions_are_both_read(
    title: Seq<char>,
    v: VersionView,
    w: VersionView,
    res: Result<SolcVersionInfo, SolcError>,
)
    requires
        is_line(title),
        v.valid(),
        fits(version_text(v)),
        w.valid(),
        fits(version_text(w)),
        is_solc_report(
            title + "\n"@ + ("Version: "@ + version_text(v) + "\n"@ + ("Revive: "@ + version_text(w)
                + "\n"@)),
            res,
        ),
    ensures
        res matches Ok(info) && info.version@ == v && (info.revive_version matches Some(r) && r@
            == w),
{
    let more = "Revive: "@ + version_text(w) + "\n"@;
    version_characters(v);
    reported_solc_version_is_read(title, v, more);
    reported_revive_version_is_read(title, version_text(v), w);
}

/// The same holds of a version that ends with `.g++`: it is read as the one that
/// ends with `.gcc`, next to the Revive version.
pub proof fn mended_versions_are_both_read(
    title: Seq<char>,
    head: Seq<char>,
    v: VersionView,
    w: VersionView,
    res: Result<SolcVersionInfo, SolcError>,
)
    requires
        is_line(title),
        v.valid(),
        fits(version_text(v)),
        version_text(v) == head + ".gcc"@,
        w.valid(),
        fits(version_text(w)),
        is_solc_report(
            title + "\n"@ + ("Version: "@ + (head + ".g++"@) + "\n"@ + ("Revive: "@ + version_text(w)
                + "\n"@)),
            res,
        ),
    ensures
        res matches Ok(info) && info.version@ == v && (info.revive_version matches Some(r) && r@
            == w),
{
    reveal_strlit(".g++");
    reveal_strlit(".gcc");
    let more = "Revive: "@ + version_text(w) + "\n"@;
    let field = head + ".g++"@;
    version_characters(v);
    assert forall|i: int| 0 <= i < field.len() implies !is_white_space(#[trigger] field[i]) by {
        if i < head.len() {
            assert(field[i] == version_text(v)[i]);
        }
    }
    compiler_names_in_versions_are_mended(title, head, v, more);
    reported_revive_version_is_read(title, field, w);
}

} // verus!
