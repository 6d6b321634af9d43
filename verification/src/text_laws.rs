//! What holds of the splitting and trimming rules: text that is put together from
//! parts is taken apart into these parts again.

use vstd::prelude::*;

use crate::text::{
    contains, is_white_space, lemma_prefix_len_is, lines, non_blank, occurs_at, replace,
    strip_return, trim, trim_end, trim_start_matches, words, CharClass,
};

verus! {

/// Whether every character of `s` is white space.
pub open spec fn is_white(s: Seq<char>) -> bool {
    forall|i: int| 0 <= i < s.len() ==> is_white_space(#[trigger] s[i])
}

/// Whether no character of `s` is white space, and there is at least one.
pub open spec fn is_word(s: Seq<char>) -> bool {
    &&& s.len() > 0
    &&& forall|i: int| 0 <= i < s.len() ==> !is_white_space(#[trigger] s[i])
}

/// Whether `s` neither starts nor ends with white space, and is not empty.
pub open spec fn is_trimmed(s: Seq<char>) -> bool {
    s.len() > 0 && !is_white_space(s[0]) && !is_white_space(s.last())
}

/// Whether there is no line feed in `s`.
pub open spec fn has_no_feed(s: Seq<char>) -> bool {
    forall|i: int| 0 <= i < s.len() ==> #[trigger] s[i] != '\n'
}

/// Whether `s` is made of `a`, `part` and `b`.
pub open spec fn is_made_of(s: Seq<char>, a: Seq<char>, part: Seq<char>, b: Seq<char>) -> bool {
    s == a + part + b
}

/// Whether `part` stands somewhere in `s`.
pub open spec fn holds_text(s: Seq<char>, part: Seq<char>) -> bool {
    exists|a: Seq<char>, b: Seq<char>| is_made_of(s, a, part, b)
}

/// `part`, `n` times in a row.
pub open spec fn repeated(part: Seq<char>, n: nat) -> Seq<char>
    decreases n,
{
    if n == 0 {
        Seq::empty()
    } else {
        part + repeated(part, (n - 1) as nat)
    }
}

/// The `parts` in a row, with `mark` between each two.
pub open spec fn chained(parts: Seq<Seq<char>>, mark: Seq<char>) -> Seq<char>
    decreases parts.len(),
{
    if parts.len() == 0 {
        Seq::empty()
    } else if parts.len() == 1 {
        parts[0]
    } else {
        parts[0] + mark + chained(parts.drop_first(), mark)
    }
}

/// The text of `raw` lines, each with a line feed behind it, and of `tail`.
pub open spec fn fed(raw: Seq<Seq<char>>, tail: Seq<char>) -> Seq<char>
    decreases raw.len(),
{
    if raw.len() == 0 {
        tail
    } else {
        raw[0] + seq!['\n'] + fed(raw.drop_first(), tail)
    }
}

/// A line without the carriage return at its end, where there is one.
pub open spec fn shown(line: Seq<char>) -> Seq<char> {
    if line.len() > 0 && line[line.len() - 1] == '\r' {
        line.take(line.len() - 1)
    } else {
        line
    }
}

/// Whether `text` has these `all` lines: those of `raw`, which line feeds end,
/// without their carriage returns, and `tail`, where it is not empty.
pub open spec fn has_lines(
    text: Seq<char>,
    raw: Seq<Seq<char>>,
    tail: Seq<char>,
    all: Seq<Seq<char>>,
) -> bool {
    &&& text == fed(raw, tail)
    &&& forall|i: int| 0 <= i < raw.len() ==> has_no_feed(#[trigger] raw[i])
    &&& has_no_feed(tail)
    &&& all.len() == raw.len() + (if tail.len() > 0 {
        1int
    } else {
        0int
    })
    &&& forall|i: int| 0 <= i < raw.len() ==> #[trigger] all[i] == shown(raw[i])
    &&& tail.len() > 0 ==> all[raw.len() as int] == tail
}

/// The words `all` in a row, between `gaps`.
pub open spec fn spaced(gaps: Seq<Seq<char>>, all: Seq<Seq<char>>) -> Seq<char>
    decreases all.len(),
{
    if all.len() == 0 {
        gaps[0]
    } else {
        gaps[0] + all[0] + spaced(gaps.drop_first(), all.drop_first())
    }
}

/// Whether `line` consists of the words `all` with white space, the `gaps`,
/// around and between them.
pub open spec fn has_words(line: Seq<char>, gaps: Seq<Seq<char>>, all: Seq<Seq<char>>) -> bool {
    &&& line == spaced(gaps, all)
    &&& gaps.len() == all.len() + 1
    &&& forall|i: int| 0 <= i < gaps.len() ==> is_white(#[trigger] gaps[i])
    &&& forall|i: int| 0 < i < gaps.len() - 1 ==> (#[trigger] gaps[i]).len() > 0
    &&& forall|i: int| 0 <= i < all.len() ==> is_word(#[trigger] all[i])
}

/// The lines of a text are what line feeds end, and what stands behind the last.
pub proof fn lines_are_read_back(
    text: Seq<char>,
    raw: Seq<Seq<char>>,
    tail: Seq<char>,
    all: Seq<Seq<char>>,
)
    requires
        has_lines(text, raw, tail, all),
    ensures
        lines(text) == all,
    decreases raw.len(),
{
    if raw.len() == 0 {
        if tail.len() > 0 {
            assert forall|i: int| 0 <= i < tail.len() implies CharClass::Except('\n').holds(
                #[trigger] tail[i],
            ) by {}
            lemma_prefix_len_is(tail, CharClass::Except('\n'), tail.len() as int);
            assert(all == seq![tail]);
        } else {
            assert(all == Seq::<Seq<char>>::empty());
        }
    } else {
        let line = raw[0];
        let rest = fed(raw.drop_first(), tail);
        assert(has_no_feed(raw[0]));
        assert(text == line + seq!['\n'] + rest);
        assert forall|i: int| 0 <= i < line.len() implies CharClass::Except('\n').holds(
            #[trigger] text[i],
        ) by {
            assert(text[i] == line[i]);
        }
        assert(text[line.len() as int] == '\n');
        lemma_prefix_len_is(text, CharClass::Except('\n'), line.len() as int);
        assert(text.take(line.len() as int) == line);
        assert(text.skip(line.len() as int + 1) == rest);
        let later = all.drop_first();
        let raw_later = raw.drop_first();
        assert forall|i: int| 0 <= i < raw_later.len() implies has_no_feed(#[trigger] raw_later[i]) by {
            assert(raw_later[i] == raw[i + 1]);
        }
        assert forall|i: int| 0 <= i < raw_later.len() implies #[trigger] later[i] == shown(
            raw_later[i],
        ) by {
            assert(later[i] == all[i + 1]);
            assert(raw_later[i] == raw[i + 1]);
        }
        if tail.len() > 0 {
            assert(later[raw_later.len() as int] == all[raw.len() as int]);
        }
        lines_are_read_back(rest, raw_later, tail, later);
        assert(strip_return(line) == shown(line));
        assert(all == seq![all[0]] + later);
    }
}

/// The words of a line are what stands between white space.
pub proof fn words_are_read_back(line: Seq<char>, gaps: Seq<Seq<char>>, all: Seq<Seq<char>>)
    requires
        has_words(line, gaps, all),
    ensures
        words(line) == all,
    decreases all.len(),
{
    let gap = gaps[0];
    assert(is_white(gap));
    if all.len() == 0 {
        assert(all == Seq::<Seq<char>>::empty());
        assert forall|i: int| 0 <= i < line.len() implies CharClass::Space.holds(
            #[trigger] line[i],
        ) by {}
        lemma_prefix_len_is(line, CharClass::Space, line.len() as int);
    } else {
        let word = all[0];
        let rest = spaced(gaps.drop_first(), all.drop_first());
        assert(is_word(word));
        assert(line == gap + word + rest);
        assert forall|i: int| 0 <= i < gap.len() implies CharClass::Space.holds(
            #[trigger] line[i],
        ) by {
            assert(line[i] == gap[i]);
        }
        assert(line[gap.len() as int] == word[0]);
        lemma_prefix_len_is(line, CharClass::Space, gap.len() as int);
        let s = line.skip(gap.len() as int);
        assert(s == word + rest);
        assert forall|i: int| 0 <= i < word.len() implies CharClass::Visible.holds(
            #[trigger] s[i],
        ) by {
            assert(s[i] == word[i]);
        }
        let next = gaps.drop_first()[0];
        assert(next == gaps[1]);
        assert(is_white(gaps[1]));
        if rest.len() > 0 {
            if all.len() == 1 {
                assert(rest == next);
            } else {
                assert(gaps[1].len() > 0);
                assert(rest[0] == next[0]);
            }
            assert(s[word.len() as int] == rest[0]);
        }
        lemma_prefix_len_is(s, CharClass::Visible, word.len() as int);
        assert(s.take(word.len() as int) == word);
        assert(s.skip(word.len() as int) == rest);
        let later = all.drop_first();
        let between = gaps.drop_first();
        assert forall|i: int| 0 <= i < between.len() implies is_white(#[trigger] between[i]) by {
            assert(between[i] == gaps[i + 1]);
        }
        assert forall|i: int| 0 < i < between.len() - 1 implies (#[trigger] between[i]).len() > 0 by {
            assert(between[i] == gaps[i + 1]);
        }
        assert forall|i: int| 0 <= i < later.len() implies is_word(#[trigger] later[i]) by {
            assert(later[i] == all[i + 1]);
        }
        words_are_read_back(rest, between, later);
        assert(all == seq![word] + later);
    }
}

/// Trimming takes the white space off both ends, and no more.
pub proof fn trimming_takes_the_margins(left: Seq<char>, s: Seq<char>, right: Seq<char>)
    requires
        is_white(left),
        is_white(right),
        is_trimmed(s),
    ensures
        trim(left + s + right) == s,
{
    let all = left + s + right;
    assert forall|i: int| 0 <= i < left.len() implies CharClass::Space.holds(#[trigger] all[i]) by {
        assert(all[i] == left[i]);
    }
    assert(all[left.len() as int] == s[0]);
    lemma_prefix_len_is(all, CharClass::Space, left.len() as int);
    assert(all.skip(left.len() as int) == s + right);
    lemma_trim_end(s, right);
}

proof fn lemma_trim_end(s: Seq<char>, right: Seq<char>)
    requires
        is_white(right),
        is_trimmed(s),
    ensures
        trim_end(s + right) == s,
    decreases right.len(),
{
    if right.len() == 0 {
        assert(s + right == s);
    } else {
        assert((s + right).last() == right.last());
        assert((s + right).drop_last() == s + right.drop_last());
        lemma_trim_end(s, right.drop_last());
    }
}

/// Of white space nothing is left.
pub proof fn white_space_is_trimmed_away(s: Seq<char>)
    requires
        is_white(s),
    ensures
        trim(s).len() == 0,
{
    assert forall|i: int| 0 <= i < s.len() implies CharClass::Space.holds(#[trigger] s[i]) by {}
    lemma_prefix_len_is(s, CharClass::Space, s.len() as int);
}

/// Every text is white space, or has something to trim to.
pub proof fn margins_are_found(s: Seq<char>) -> (res: (Seq<char>, Seq<char>, Seq<char>))
    ensures
        is_white(s) || (s == res.0 + res.1 + res.2 && is_white(res.0) && is_trimmed(res.1)
            && is_white(res.2)),
    decreases s.len(),
{
    let none = Seq::<char>::empty();
    if s.len() == 0 {
        (none, none, none)
    } else if is_white_space(s[0]) {
        let (a, m, b) = margins_are_found(s.drop_first());
        let left = seq![s[0]] + a;
        if is_white(s.drop_first()) {
            assert forall|i: int| 0 <= i < s.len() implies is_white_space(#[trigger] s[i]) by {
                if i > 0 {
                    assert(s[i] == s.drop_first()[i - 1]);
                }
            }
        } else {
            assert(s == seq![s[0]] + s.drop_first());
            assert(s == left + m + b);
            assert forall|i: int| 0 <= i < left.len() implies is_white_space(
                #[trigger] left[i],
            ) by {
                if i > 0 {
                    assert(left[i] == a[i - 1]);
                }
            }
        }
        (left, m, b)
    } else if is_white_space(s.last()) {
        let (a, m, b) = margins_are_found(s.drop_last());
        let right = b.push(s.last());
        assert(s.drop_last()[0] == s[0]);
        assert(!is_white(s.drop_last()));
        assert(s == s.drop_last().push(s.last()));
        assert(s == a + m + right);
        (a, m, right)
    } else {
        assert(s == none + s + none);
        (none, s, none)
    }
}

pub proof fn lemma_contains(s: Seq<char>, part: Seq<char>)
    ensures
        contains(s, part) == holds_text(s, part),
{
    if contains(s, part) {
        let i = choose|i: int| occurs_at(s, part, i);
        let a = s.take(i);
        let b = s.skip(i + part.len());
        assert(s == a + part + b);
        assert(is_made_of(s, a, part, b));
    }
    if holds_text(s, part) {
        let (a, b) = choose|a: Seq<char>, b: Seq<char>| is_made_of(s, a, part, b);
        assert(s.subrange(a.len() as int, (a.len() + part.len()) as int) == part);
        assert(occurs_at(s, part, a.len() as int));
    }
}

pub proof fn lemma_starts(s: Seq<char>, part: Seq<char>)
    ensures
        occurs_at(s, part, 0) == part.is_prefix_of(s),
{
    if part.len() <= s.len() {
        assert(s.subrange(0, part.len() as int) == s.take(part.len() as int));
    }
}

/// Every repetition at the start is taken off, and no more.
pub proof fn repetitions_are_trimmed(part: Seq<char>, n: nat, rest: Seq<char>)
    requires
        part.len() > 0,
        !part.is_prefix_of(rest),
    ensures
        trim_start_matches(repeated(part, n) + rest, part) == rest,
    decreases n,
{
    let s = repeated(part, n) + rest;
    if n == 0 {
        assert(s == rest);
        lemma_starts(rest, part);
    } else {
        let shorter = repeated(part, (n - 1) as nat) + rest;
        assert(s == part + shorter);
        assert(s.subrange(0, part.len() as int) == part);
        assert(occurs_at(s, part, 0));
        assert(s.skip(part.len() as int) == shorter);
        repetitions_are_trimmed(part, (n - 1) as nat, rest);
    }
}

/// Every text is some repetitions of `part` and a rest that does not start with it.
pub proof fn repetitions_are_found(part: Seq<char>, s: Seq<char>) -> (res: (nat, Seq<char>))
    requires
        part.len() > 0,
    ensures
        s == repeated(part, res.0) + res.1,
        !part.is_prefix_of(res.1),
    decreases s.len(),
{
    if part.is_prefix_of(s) {
        let (n, rest) = repetitions_are_found(part, s.skip(part.len() as int));
        assert(s == part + s.skip(part.len() as int));
        assert(s == repeated(part, n + 1) + rest);
        (n + 1, rest)
    } else {
        assert(s == repeated(part, 0) + s);
        (0, s)
    }
}

proof fn lemma_replace_before(head: Seq<char>, rest: Seq<char>, to: Seq<char>)
    requires
        !holds_text(head, ".g++"@),
    ensures
        replace(head + ".g++"@ + rest, ".g++"@, to) == head + to + replace(rest, ".g++"@, to),
    decreases head.len(),
{
    reveal_strlit(".g++");
    let from = ".g++"@;
    let s = head + from + rest;
    if head.len() == 0 {
        assert(s.subrange(0, 4) == from);
        assert(occurs_at(s, from, 0));
        assert(s.skip(4) == rest);
        assert(head + to + replace(rest, from, to) == to + replace(rest, from, to));
    } else {
        if occurs_at(s, from, 0) {
            let sub = s.subrange(0, 4);
            assert(sub[0] == s[0] && sub[1] == s[1] && sub[2] == s[2] && sub[3] == s[3]);
            if head.len() >= 4 {
                assert(head.subrange(0, 4) == from);
                assert(occurs_at(head, from, 0));
                lemma_contains(head, from);
            } else {
                assert(s[head.len() as int] == '.');
            }
        }
        let later = head.drop_first();
        if holds_text(later, from) {
            let (a, b) = choose|a: Seq<char>, b: Seq<char>| is_made_of(later, a, from, b);
            assert(head == seq![head[0]] + later);
            assert(head == (seq![head[0]] + a) + from + b);
            assert(is_made_of(head, seq![head[0]] + a, from, b));
        }
        assert(s.drop_first() == later + from + rest);
        lemma_replace_before(later, rest, to);
        assert(seq![s[0]] + (later + to + replace(rest, from, to)) == head + to + replace(
            rest,
            from,
            to,
        ));
    }
}

proof fn lemma_replace_nothing(s: Seq<char>, to: Seq<char>)
    requires
        !holds_text(s, ".g++"@),
    ensures
        replace(s, ".g++"@, to) == s,
    decreases s.len(),
{
    let from = ".g++"@;
    if s.len() > 0 {
        lemma_contains(s, from);
        assert(!occurs_at(s, from, 0));
        let later = s.drop_first();
        if holds_text(later, from) {
            let (a, b) = choose|a: Seq<char>, b: Seq<char>| is_made_of(later, a, from, b);
            assert(s == seq![s[0]] + later);
            assert(s == (seq![s[0]] + a) + from + b);
            assert(is_made_of(s, seq![s[0]] + a, from, b));
        }
        lemma_replace_nothing(later, to);
        assert(s == seq![s[0]] + later);
    }
}

/// The name of one compiler is replaced by that of the other wherever it stands,
/// and all between stays.
pub proof fn names_are_replaced(parts: Seq<Seq<char>>)
    requires
        forall|i: int| 0 <= i < parts.len() ==> !holds_text(#[trigger] parts[i], ".g++"@),
    ensures
        replace(chained(parts, ".g++"@), ".g++"@, ".gcc"@) == chained(parts, ".gcc"@),
    decreases parts.len(),
{
    if parts.len() == 0 {
    } else if parts.len() == 1 {
        lemma_replace_nothing(parts[0], ".gcc"@);
    } else {
        let later = parts.drop_first();
        assert forall|i: int| 0 <= i < later.len() implies !holds_text(
            #[trigger] later[i],
            ".g++"@,
        ) by {
            assert(later[i] == parts[i + 1]);
        }
        names_are_replaced(later);
        assert(!holds_text(parts[0], ".g++"@));
        lemma_replace_before(parts[0], chained(later, ".g++"@), ".gcc"@);
    }
}

pub proof fn lemma_non_blank_none(all: Seq<Seq<char>>)
    requires
        forall|i: int| 0 <= i < all.len() ==> is_white(#[trigger] all[i]),
    ensures
        non_blank(all) == Seq::<Seq<char>>::empty(),
    decreases all.len(),
{
    if all.len() > 0 {
        assert(is_white(all[all.len() - 1]));
        lemma_non_blank_none(all.drop_last());
    }
}

pub proof fn lemma_non_blank_add(a: Seq<Seq<char>>, b: Seq<Seq<char>>)
    ensures
        non_blank(a + b) == non_blank(a) + non_blank(b),
    decreases b.len(),
{
    if b.len() == 0 {
        assert(a + b == a);
        assert(non_blank(a) + non_blank(b) == non_blank(a));
    } else {
        assert((a + b).last() == b.last());
        assert((a + b).drop_last() == a + b.drop_last());
        lemma_non_blank_add(a, b.drop_last());
        assert(non_blank(a + b) == non_blank(a) + non_blank(b));
    }
}

pub proof fn lemma_non_blank_one(line: Seq<char>)
    requires
        !is_white(line),
    ensures
        non_blank(seq![line]) == seq![line],
{
    assert(seq![line].drop_last() == Seq::<Seq<char>>::empty());
    assert(non_blank(Seq::<Seq<char>>::empty()) == Seq::<Seq<char>>::empty());
    assert(non_blank(seq![line]) == seq![line]);
}

} // verus!
