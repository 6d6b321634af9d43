//! What is read from the reports that compilers print, whatever their shape.
//!
//! A report is given by its lines, a line by its words, and a word by what it is
//! made of; the laws say what the result is for each.

use vstd::prelude::*;

use crate::error::SolcError;
use crate::laws::version_characters;
use crate::outside::refusal;
use crate::process::{
    candidates, first_version, first_with, is_solc_report, is_version_report, SolcVersionInfo,
};
use crate::text::{contains, is_white_space, non_blank, trim, trim_start_matches};
use crate::text_laws::{
    chained, has_lines, has_words, holds_text, is_made_of, is_white, lemma_contains,
    lemma_non_blank_add, lemma_non_blank_none, lemma_non_blank_one, lemma_starts,
    lines_are_read_back, margins_are_found, names_are_replaced, repeated, repetitions_are_found,
    repetitions_are_trimmed, trimming_takes_the_margins, white_space_is_trimmed_away,
    words_are_read_back,
};
use crate::version::{fits, lemma_parsed, parsed, version_text, Version, VersionView};

verus! {

/// Whether `word` is the text of `v` behind `n` times the letter `v`.
pub open spec fn is_version_word(word: Seq<char>, n: nat, v: VersionView) -> bool {
    v.valid() && fits(version_text(v)) && word == repeated("v"@, n) + version_text(v)
}

/// Whether `word` is the text of a version, perhaps behind letters `v`.
pub open spec fn names_some_version(word: Seq<char>) -> bool {
    exists|n: nat, v: VersionView| is_version_word(word, n, v)
}

proof fn lemma_version_word(word: Seq<char>, n: nat, v: VersionView)
    requires
        is_version_word(word, n, v),
    ensures
        parsed(trim_start_matches(word, "v"@)) == Some(v),
{
    reveal_strlit("v");
    let text = version_text(v);
    version_characters(v);
    if "v"@.is_prefix_of(text) {
        assert(text.take(1)[0] == text[0]);
    }
    repetitions_are_trimmed("v"@, n, text);
    lemma_parsed(text, v);
}

proof fn lemma_no_version_word(word: Seq<char>)
    requires
        !names_some_version(word),
    ensures
        parsed(trim_start_matches(word, "v"@)) is None,
{
    reveal_strlit("v");
    let (n, rest) = repetitions_are_found("v"@, word);
    repetitions_are_trimmed("v"@, n, rest);
    if parsed(rest) is Some {
        let v = parsed(rest)->0;
        assert(is_version_word(word, n, v));
    }
}

proof fn lemma_first_version(all: Seq<Seq<char>>, k: int)
    requires
        0 <= k <= all.len(),
        forall|m: int| 0 <= m < k ==> parsed(#[trigger] all[m]) is None,
    ensures
        k < all.len() && parsed(all[k]) is Some ==> first_version(all) == parsed(all[k]),
        k == all.len() ==> first_version(all) is None,
    decreases k,
{
    if k > 0 {
        let rest = all.drop_first();
        assert forall|m: int| 0 <= m < k - 1 implies parsed(#[trigger] rest[m]) is None by {
            assert(rest[m] == all[m + 1]);
        }
        lemma_first_version(rest, k - 1);
        assert(parsed(all[0]) is None);
        if k < all.len() {
            assert(rest[k - 1] == all[k]);
        }
    }
}

proof fn lemma_first_with(all: Seq<Seq<char>>, rest: Seq<Seq<char>>, pat: Seq<char>)
    requires
        forall|m: int| 0 <= m < all.len() ==> !contains(#[trigger] all[m], pat),
    ensures
        first_with(non_blank(all) + rest, pat) == first_with(rest, pat),
    decreases all.len(),
{
    if all.len() == 0 {
        assert(non_blank(all) + rest == rest);
    } else {
        let last = all.last();
        let earlier = all.drop_last();
        assert(!contains(all[all.len() - 1], pat));
        if non_blank(all).len() == non_blank(earlier).len() {
            assert(non_blank(all) == non_blank(earlier));
            lemma_first_with(earlier, rest, pat);
        } else {
            let longer = seq![last] + rest;
            assert(non_blank(all) + rest == non_blank(earlier) + longer);
            lemma_first_with(earlier, longer, pat);
            assert(longer.drop_first() == rest);
        }
    }
}

proof fn lemma_version_line(all: Seq<Seq<char>>, i: int)
    requires
        0 <= i < all.len(),
        holds_text(all[i], "version"@),
        forall|m: int| 0 <= m < i ==> !holds_text(#[trigger] all[m], "version"@),
    ensures
        first_with(non_blank(all), "version"@) == Some(all[i]),
{
    reveal_strlit("version");
    let line = all[i];
    let head = all.take(i);
    let tail = all.skip(i + 1);
    assert(!is_white(line)) by {
        let (a, b) = choose|a: Seq<char>, b: Seq<char>| is_made_of(line, a, "version"@, b);
        assert(line[a.len() as int] == 'v');
        assert(!is_white_space(line[a.len() as int]));
    }
    assert(all == head + (seq![line] + tail));
    lemma_non_blank_add(head, seq![line] + tail);
    lemma_non_blank_add(seq![line], tail);
    lemma_non_blank_one(line);
    assert forall|m: int| 0 <= m < head.len() implies !contains(#[trigger] head[m], "version"@) by {
        assert(head[m] == all[m]);
        lemma_contains(head[m], "version"@);
    }
    let rest = seq![line] + non_blank(tail);
    lemma_first_with(head, rest, "version"@);
    lemma_contains(line, "version"@);
    assert(rest[0] == line);
}

/// The version of a compiler is read from the first line that holds the word
/// "version": it is the first word there that is the text of a version, at
/// whatever place, perhaps behind letters `v`.
pub proof fn first_version_on_the_version_line_is_read(
    text: Seq<char>,
    raw: Seq<Seq<char>>,
    tail: Seq<char>,
    all: Seq<Seq<char>>,
    i: int,
    gaps: Seq<Seq<char>>,
    parts: Seq<Seq<char>>,
    k: int,
    n: nat,
    v: VersionView,
    res: Result<Version, SolcError>,
)
    requires
        has_lines(text, raw, tail, all),
        0 <= i < all.len(),
        holds_text(all[i], "version"@),
        forall|m: int| 0 <= m < i ==> !holds_text(#[trigger] all[m], "version"@),
        has_words(all[i], gaps, parts),
        0 <= k < parts.len(),
        is_version_word(parts[k], n, v),
        forall|m: int| 0 <= m < k ==> !names_some_version(#[trigger] parts[m]),
        is_version_report(text, res),
    ensures
        res matches Ok(version) && version@ == v,
{
    lines_are_read_back(text, raw, tail, all);
    lemma_version_line(all, i);
    words_are_read_back(all[i], gaps, parts);
    let found = candidates(all[i]);
    assert forall|m: int| 0 <= m < k implies parsed(#[trigger] found[m]) is None by {
        assert(!names_some_version(parts[m]));
        lemma_no_version_word(parts[m]);
    }
    lemma_version_word(parts[k], n, v);
    assert(parsed(found[k]) == Some(v));
    lemma_first_version(found, k);
}

/// Where no word of that line is the text of a version, that is what is said.
pub proof fn version_lines_without_version_are_refused(
    text: Seq<char>,
    raw: Seq<Seq<char>>,
    tail: Seq<char>,
    all: Seq<Seq<char>>,
    i: int,
    gaps: Seq<Seq<char>>,
    parts: Seq<Seq<char>>,
    res: Result<Version, SolcError>,
)
    requires
        has_lines(text, raw, tail, all),
        0 <= i < all.len(),
        holds_text(all[i], "version"@),
        forall|m: int| 0 <= m < i ==> !holds_text(#[trigger] all[m], "version"@),
        has_words(all[i], gaps, parts),
        forall|m: int| 0 <= m < parts.len() ==> !names_some_version(#[trigger] parts[m]),
        is_version_report(text, res),
    ensures
        res matches Err(SolcError::Message(m)) && m@
            == "Unable to retrieve version from resolc output"@,
{
    lines_are_read_back(text, raw, tail, all);
    lemma_version_line(all, i);
    words_are_read_back(all[i], gaps, parts);
    let found = candidates(all[i]);
    assert forall|m: int| 0 <= m < found.len() implies parsed(#[trigger] found[m]) is None by {
        assert(!names_some_version(parts[m]));
        lemma_no_version_word(parts[m]);
    }
    lemma_first_version(found, found.len() as int);
}

/// Where no line holds the word "version", that is what is said.
pub proof fn reports_without_version_line_are_refused(
    text: Seq<char>,
    raw: Seq<Seq<char>>,
    tail: Seq<char>,
    all: Seq<Seq<char>>,
    res: Result<Version, SolcError>,
)
    requires
        has_lines(text, raw, tail, all),
        forall|m: int| 0 <= m < all.len() ==> !holds_text(#[trigger] all[m], "version"@),
        is_version_report(text, res),
    ensures
        res matches Err(SolcError::Message(m)) && m@ == "Version not found in resolc output"@,
{
    lines_are_read_back(text, raw, tail, all);
    assert forall|m: int| 0 <= m < all.len() implies !contains(#[trigger] all[m], "version"@) by {
        lemma_contains(all[m], "version"@);
    }
    let none = Seq::<Seq<char>>::empty();
    lemma_first_with(all, none, "version"@);
    assert(non_blank(all) + none == non_blank(all));
}

/// Whether lines `i` and `j` are the first two of `all` that are more than white
/// space, and `k` is the last.
pub open spec fn are_marked_lines(all: Seq<Seq<char>>, i: int, j: int, k: int) -> bool {
    &&& 0 <= i < j <= k < all.len()
    &&& !is_white(all[i])
    &&& !is_white(all[j])
    &&& !is_white(all[k])
    &&& forall|m: int|
        0 <= m < i || i < m < j || k < m < all.len() ==> is_white(#[trigger] all[m])
}

/// Whether `line` is made of `n` labels and of `parts` with `.g++` between them.
pub open spec fn is_version_field(line: Seq<char>, n: nat, parts: Seq<Seq<char>>) -> bool {
    &&& parts.len() > 0
    &&& forall|m: int| 0 <= m < parts.len() ==> !holds_text(#[trigger] parts[m], ".g++"@)
    &&& line == repeated("Version: "@, n) + chained(parts, ".g++"@)
    &&& !"Version: "@.is_prefix_of(chained(parts, ".g++"@))
}

/// Whether `line` is made of `n` labels, at least one, and of the text of `w`
/// between white space.
pub open spec fn is_revive_line(
    line: Seq<char>,
    n: nat,
    left: Seq<char>,
    w: VersionView,
    right: Seq<char>,
) -> bool {
    &&& n > 0
    &&& is_white(left)
    &&& is_white(right)
    &&& w.valid()
    &&& fits(version_text(w))
    &&& line == repeated("Revive:"@, n) + (left + version_text(w) + right)
}

proof fn lemma_marked_lines(all: Seq<Seq<char>>, i: int, j: int, k: int)
    requires
        are_marked_lines(all, i, j, k),
    ensures
        non_blank(all).len() > 1,
        non_blank(all)[1] == all[j],
        non_blank(all).last() == all[k],
{
    let first = all.take(i);
    let between = all.subrange(i + 1, j);
    let rest = all.skip(j + 1);
    assert forall|m: int| 0 <= m < first.len() implies is_white(#[trigger] first[m]) by {
        assert(is_white(all[m]));
    }
    assert forall|m: int| 0 <= m < between.len() implies is_white(#[trigger] between[m]) by {
        assert(is_white(all[i + 1 + m]));
    }
    lemma_non_blank_none(first);
    lemma_non_blank_none(between);
    lemma_non_blank_one(all[i]);
    lemma_non_blank_one(all[j]);
    lemma_non_blank_one(all[k]);
    assert(all == first + (seq![all[i]] + (between + (seq![all[j]] + rest))));
    lemma_non_blank_add(first, seq![all[i]] + (between + (seq![all[j]] + rest)));
    lemma_non_blank_add(seq![all[i]], between + (seq![all[j]] + rest));
    lemma_non_blank_add(between, seq![all[j]] + rest);
    lemma_non_blank_add(seq![all[j]], rest);
    assert(non_blank(all)[1] == all[j]);
    let head = all.take(k);
    let end = all.skip(k + 1);
    assert forall|m: int| 0 <= m < end.len() implies is_white(#[trigger] end[m]) by {
        assert(is_white(all[k + 1 + m]));
    }
    lemma_non_blank_none(end);
    assert(all == head + (seq![all[k]] + end));
    lemma_non_blank_add(head, seq![all[k]] + end);
    lemma_non_blank_add(seq![all[k]], end);
    assert(non_blank(all) == non_blank(head).push(all[k]));
}

/// The version of a Solidity compiler is what stands behind the label on the
/// second line that is more than white space, with `.gcc` for `.g++`.
pub proof fn solc_version_is_on_the_second_line(
    text: Seq<char>,
    raw: Seq<Seq<char>>,
    tail: Seq<char>,
    all: Seq<Seq<char>>,
    i: int,
    j: int,
    k: int,
    n: nat,
    parts: Seq<Seq<char>>,
    v: VersionView,
    res: Result<SolcVersionInfo, SolcError>,
)
    requires
        has_lines(text, raw, tail, all),
        are_marked_lines(all, i, j, k),
        is_version_field(all[j], n, parts),
        v.valid(),
        fits(version_text(v)),
        version_text(v) == chained(parts, ".gcc"@),
        is_solc_report(text, res),
    ensures
        res matches Ok(info) && info.version@ == v,
{
    reveal_strlit("Version: ");
    lines_are_read_back(text, raw, tail, all);
    lemma_marked_lines(all, i, j, k);
    repetitions_are_trimmed("Version: "@, n, chained(parts, ".g++"@));
    names_are_replaced(parts);
    lemma_parsed(version_text(v), v);
}

/// Where that is the text of no version, the refusal of that text is told.
pub proof fn unreadable_solc_versions_are_refused(
    text: Seq<char>,
    raw: Seq<Seq<char>>,
    tail: Seq<char>,
    all: Seq<Seq<char>>,
    i: int,
    j: int,
    k: int,
    n: nat,
    parts: Seq<Seq<char>>,
    res: Result<SolcVersionInfo, SolcError>,
)
    requires
        has_lines(text, raw, tail, all),
        are_marked_lines(all, i, j, k),
        is_version_field(all[j], n, parts),
        fits(chained(parts, ".gcc"@)),
        forall|v: VersionView|
            v.valid() ==> #[trigger] version_text(v) != chained(parts, ".gcc"@),
        is_solc_report(text, res),
    ensures
        res matches Err(SolcError::SemverError(m)) && m@ == refusal(chained(parts, ".gcc"@)),
{
    reveal_strlit("Version: ");
    lines_are_read_back(text, raw, tail, all);
    lemma_marked_lines(all, i, j, k);
    repetitions_are_trimmed("Version: "@, n, chained(parts, ".g++"@));
    names_are_replaced(parts);
}

/// Where that is too long to be read, that is what is said.
pub proof fn overlong_solc_versions_are_refused(
    text: Seq<char>,
    raw: Seq<Seq<char>>,
    tail: Seq<char>,
    all: Seq<Seq<char>>,
    i: int,
    j: int,
    k: int,
    n: nat,
    parts: Seq<Seq<char>>,
    res: Result<SolcVersionInfo, SolcError>,
)
    requires
        has_lines(text, raw, tail, all),
        are_marked_lines(all, i, j, k),
        is_version_field(all[j], n, parts),
        !fits(chained(parts, ".gcc"@)),
        is_solc_report(text, res),
    ensures
        res matches Err(SolcError::Message(m)) && m@ == "version text is too long"@,
{
    reveal_strlit("Version: ");
    lines_are_read_back(text, raw, tail, all);
    lemma_marked_lines(all, i, j, k);
    repetitions_are_trimmed("Version: "@, n, chained(parts, ".g++"@));
    names_are_replaced(parts);
}

/// A report with less than two lines that are more than white space is refused.
pub proof fn short_solc_reports_are_refused(
    text: Seq<char>,
    raw: Seq<Seq<char>>,
    tail: Seq<char>,
    all: Seq<Seq<char>>,
    i: int,
    res: Result<SolcVersionInfo, SolcError>,
)
    requires
        has_lines(text, raw, tail, all),
        forall|m: int| 0 <= m < all.len() && m != i ==> is_white(#[trigger] all[m]),
        is_solc_report(text, res),
    ensures
        res matches Err(SolcError::Message(m)) && m@ == "Version not found in Solc output"@,
{
    lines_are_read_back(text, raw, tail, all);
    if 0 <= i < all.len() && !is_white(all[i]) {
        let head = all.take(i);
        let end = all.skip(i + 1);
        assert forall|m: int| 0 <= m < head.len() implies is_white(#[trigger] head[m]) by {
            assert(is_white(all[m]));
        }
        assert forall|m: int| 0 <= m < end.len() implies is_white(#[trigger] end[m]) by {
            assert(is_white(all[i + 1 + m]));
        }
        lemma_non_blank_none(head);
        lemma_non_blank_none(end);
        lemma_non_blank_one(all[i]);
        assert(all == head + (seq![all[i]] + end));
        lemma_non_blank_add(head, seq![all[i]] + end);
        lemma_non_blank_add(seq![all[i]], end);
        assert(non_blank(all).len() == 1);
    } else {
        lemma_non_blank_none(all);
    }
}

/// The Revive version is what stands behind the label on the last line that is
/// more than white space.
pub proof fn revive_version_is_on_the_last_line(
    text: Seq<char>,
    raw: Seq<Seq<char>>,
    tail: Seq<char>,
    all: Seq<Seq<char>>,
    i: int,
    j: int,
    k: int,
    n: nat,
    left: Seq<char>,
    w: VersionView,
    right: Seq<char>,
    res: Result<SolcVersionInfo, SolcError>,
)
    requires
        has_lines(text, raw, tail, all),
        are_marked_lines(all, i, j, k),
        is_revive_line(all[k], n, left, w, right),
        is_solc_report(text, res),
        res is Ok,
    ensures
        res->Ok_0.revive_version matches Some(r) && r@ == w,
{
    reveal_strlit("Revive");
    reveal_strlit("Revive:");
    let line = all[k];
    let number = version_text(w);
    let rest = left + number + right;
    lines_are_read_back(text, raw, tail, all);
    lemma_marked_lines(all, i, j, k);
    version_characters(w);
    assert(rest[0] == if left.len() > 0 {
        left[0]
    } else {
        number[0]
    });
    if "Revive:"@.is_prefix_of(rest) {
        assert(rest.take(7)[0] == rest[0]);
    }
    repetitions_are_trimmed("Revive:"@, n, rest);
    assert(line == "Revive:"@ + (repeated("Revive:"@, (n - 1) as nat) + rest));
    assert(line.take(6) == "Revive"@);
    lemma_starts(line, "Revive"@);
    assert(number.last() == number[number.len() - 1]);
    trimming_takes_the_margins(left, number, right);
    lemma_parsed(number, w);
}

/// A Revive version is only given where that line is made that way.
pub proof fn revive_versions_are_not_invented(
    text: Seq<char>,
    raw: Seq<Seq<char>>,
    tail: Seq<char>,
    all: Seq<Seq<char>>,
    i: int,
    j: int,
    k: int,
    res: Result<SolcVersionInfo, SolcError>,
)
    requires
        has_lines(text, raw, tail, all),
        are_marked_lines(all, i, j, k),
        is_solc_report(text, res),
        res matches Ok(info) && info.revive_version is Some,
    ensures
        exists|n: nat, left: Seq<char>, right: Seq<char>|
            is_revive_line(all[k], n, left, res->Ok_0.revive_version->0@, right),
{
    reveal_strlit("Revive");
    reveal_strlit("Revive:");
    let line = all[k];
    let w = res->Ok_0.revive_version->0@;
    lines_are_read_back(text, raw, tail, all);
    lemma_marked_lines(all, i, j, k);
    lemma_starts(line, "Revive"@);
    let (n, rest) = repetitions_are_found("Revive:"@, line);
    repetitions_are_trimmed("Revive:"@, n, rest);
    assert(parsed(trim(rest)) == Some(w));
    let number = version_text(w);
    version_characters(w);
    let (left, middle, right) = margins_are_found(rest);
    if is_white(rest) {
        white_space_is_trimmed_away(rest);
    } else {
        trimming_takes_the_margins(left, middle, right);
    }
    assert(middle == number);
    if n == 0 {
        assert(line == rest);
        assert(line.take(6)[0] == line[0]);
        assert(rest[0] == if left.len() > 0 {
            left[0]
        } else {
            number[0]
        });
    }
    assert(is_revive_line(line, n, left, w, right));
}

} // verus!
