//! The order of tags, and with it the order of versions.

use vstd::prelude::*;

use crate::text::{lemma_prefix_len, prefix_len, CharClass};
use crate::version::{is_digit, VersionView};

verus! {

/// The parts of a tag between its dots.
pub open spec fn segments(s: Seq<char>) -> Seq<Seq<char>>
    decreases s.len(),
{
    let n = prefix_len(s, CharClass::Except('.'));
    if n < s.len() {
        seq![s.take(n as int)] + segments(s.skip((n + 1) as int))
    } else {
        seq![s]
    }
}

/// Whether `s` consists of digits only.
pub open spec fn is_number(s: Seq<char>) -> bool {
    forall|i: int| 0 <= i < s.len() ==> is_digit(#[trigger] s[i])
}

/// The number that the digits `s` denote.
pub open spec fn value(s: Seq<char>) -> int
    decreases s.len(),
{
    if s.len() == 0 {
        0
    } else {
        10 * value(s.drop_last()) + (s.last() as int - '0' as int)
    }
}

/// Numbers are compared as such; of two that denote the same, the one with fewer
/// leading zeros comes first.
pub open spec fn number_less(a: Seq<char>, b: Seq<char>) -> bool {
    value(a) < value(b) || value(a) == value(b) && a.len() < b.len()
}

/// The order of a dictionary, by character code.
pub open spec fn word_less(a: Seq<char>, b: Seq<char>) -> bool
    decreases a.len(),
{
    if b.len() == 0 {
        false
    } else if a.len() == 0 {
        true
    } else if a[0] != b[0] {
        a[0] < b[0]
    } else {
        word_less(a.drop_first(), b.drop_first())
    }
}

/// Whether segment `a` comes before segment `b`: numbers come before words.
pub open spec fn segment_less(a: Seq<char>, b: Seq<char>) -> bool {
    if is_number(a) && is_number(b) {
        number_less(a, b)
    } else if is_number(a) || is_number(b) {
        is_number(a)
    } else {
        word_less(a, b)
    }
}

/// Whether the segments `a` come before the segments `b`: the first difference
/// decides, and the shorter of two that agree comes first.
pub open spec fn segments_less(a: Seq<Seq<char>>, b: Seq<Seq<char>>) -> bool
    decreases a.len(),
{
    if b.len() == 0 {
        false
    } else if a.len() == 0 {
        true
    } else if a[0] != b[0] {
        segment_less(a[0], b[0])
    } else {
        segments_less(a.drop_first(), b.drop_first())
    }
}

/// Whether the pre-release tag `a` comes before `b`: no tag, which marks a
/// release, comes last.
pub open spec fn pre_less(a: Seq<char>, b: Seq<char>) -> bool {
    a.len() > 0 && (b.len() == 0 || segments_less(segments(a), segments(b)))
}

/// Whether version `a` comes before version `b`: by number, then by pre-release
/// tag, then by build tag.
pub open spec fn version_less(a: VersionView, b: VersionView) -> bool {
    if a.major != b.major {
        a.major < b.major
    } else if a.minor != b.minor {
        a.minor < b.minor
    } else if a.patch != b.patch {
        a.patch < b.patch
    } else if a.pre != b.pre {
        pre_less(a.pre, b.pre)
    } else {
        segments_less(segments(a.build), segments(b.build))
    }
}

/// Whether version `a` is `b` or comes before it.
pub open spec fn version_le(a: VersionView, b: VersionView) -> bool {
    a == b || version_less(a, b)
}

proof fn lemma_segments_len(s: Seq<char>)
    ensures
        segments(s).len() > 0,
{
    lemma_prefix_len(s, CharClass::Except('.'));
}

proof fn lemma_segments_unique(a: Seq<char>, b: Seq<char>)
    requires
        segments(a) == segments(b),
    ensures
        a == b,
    decreases a.len(),
{
    let na = prefix_len(a, CharClass::Except('.')) as int;
    let nb = prefix_len(b, CharClass::Except('.')) as int;
    lemma_prefix_len(a, CharClass::Except('.'));
    lemma_prefix_len(b, CharClass::Except('.'));
    let rest_a = a.skip(na + 1);
    let rest_b = b.skip(nb + 1);
    lemma_segments_len(rest_a);
    lemma_segments_len(rest_b);
    if na < a.len() && nb < b.len() {
        assert(segments(a)[0] == a.take(na));
        assert(segments(b)[0] == b.take(nb));
        assert(segments(a).skip(1) == segments(rest_a));
        assert(segments(b).skip(1) == segments(rest_b));
        lemma_segments_unique(rest_a, rest_b);
        assert(a[na] == '.' && b[nb] == '.');
        assert(a == a.take(na) + seq!['.'] + rest_a);
        assert(b == b.take(nb) + seq!['.'] + rest_b);
    } else if na >= a.len() && nb >= b.len() {
        assert(segments(a)[0] == a);
        assert(segments(b)[0] == b);
    } else if na < a.len() {
        assert(segments(a).len() == 1 + segments(rest_a).len());
        assert(segments(b).len() == 1);
    } else {
        assert(segments(b).len() == 1 + segments(rest_b).len());
        assert(segments(a).len() == 1);
    }
}

proof fn lemma_value_unique(a: Seq<char>, b: Seq<char>)
    requires
        is_number(a),
        is_number(b),
        a.len() == b.len(),
        value(a) == value(b),
    ensures
        a == b,
    decreases a.len(),
{
    if a.len() > 0 {
        assert(is_digit(a[a.len() - 1]) && is_digit(b[b.len() - 1]));
        let x = a.drop_last();
        let y = b.drop_last();
        assert forall|i: int| 0 <= i < x.len() implies is_digit(#[trigger] x[i]) by {
            assert(x[i] == a[i]);
        }
        assert forall|i: int| 0 <= i < y.len() implies is_digit(#[trigger] y[i]) by {
            assert(y[i] == b[i]);
        }
        lemma_value_unique(x, y);
        assert(a == x.push(a.last()));
        assert(b == y.push(b.last()));
    } else {
        assert(a == b);
    }
}

proof fn lemma_word_total(a: Seq<char>, b: Seq<char>)
    requires
        a != b,
    ensures
        word_less(a, b) || word_less(b, a),
    decreases a.len(),
{
    if a.len() > 0 && b.len() > 0 && a[0] == b[0] {
        let x = a.drop_first();
        let y = b.drop_first();
        if x == y {
            assert(a == seq![a[0]] + x);
            assert(b == seq![b[0]] + y);
        }
        lemma_word_total(x, y);
    } else if a.len() == 0 && b.len() == 0 {
        assert(a == b);
    }
}

proof fn lemma_word_transitive(a: Seq<char>, b: Seq<char>, c: Seq<char>)
    requires
        word_less(a, b),
        word_less(b, c),
    ensures
        word_less(a, c),
    decreases a.len(),
{
    if a.len() > 0 && a[0] == b[0] && b[0] == c[0] {
        lemma_word_transitive(a.drop_first(), b.drop_first(), c.drop_first());
    }
}

proof fn lemma_segment_total(a: Seq<char>, b: Seq<char>)
    requires
        a != b,
    ensures
        segment_less(a, b) || segment_less(b, a),
{
    if is_number(a) && is_number(b) {
        if value(a) == value(b) && a.len() == b.len() {
            lemma_value_unique(a, b);
        }
    } else if !is_number(a) && !is_number(b) {
        lemma_word_total(a, b);
    }
}

proof fn lemma_segment_transitive(a: Seq<char>, b: Seq<char>, c: Seq<char>)
    requires
        segment_less(a, b),
        segment_less(b, c),
    ensures
        segment_less(a, c),
        a != c,
{
    if !is_number(a) && !is_number(b) && !is_number(c) {
        lemma_word_transitive(a, b, c);
        lemma_word_irreflexive(c);
    }
}

proof fn lemma_word_irreflexive(a: Seq<char>)
    ensures
        !word_less(a, a),
    decreases a.len(),
{
    if a.len() > 0 {
        lemma_word_irreflexive(a.drop_first());
    }
}

proof fn lemma_segments_total(a: Seq<Seq<char>>, b: Seq<Seq<char>>)
    requires
        a != b,
    ensures
        segments_less(a, b) || segments_less(b, a),
    decreases a.len(),
{
    if a.len() > 0 && b.len() > 0 {
        if a[0] == b[0] {
            let x = a.drop_first();
            let y = b.drop_first();
            if x == y {
                assert(a == seq![a[0]] + x);
                assert(b == seq![b[0]] + y);
            }
            lemma_segments_total(x, y);
        } else {
            lemma_segment_total(a[0], b[0]);
        }
    } else if a.len() == 0 && b.len() == 0 {
        assert(a == b);
    }
}

proof fn lemma_segments_transitive(a: Seq<Seq<char>>, b: Seq<Seq<char>>, c: Seq<Seq<char>>)
    requires
        segments_less(a, b),
        segments_less(b, c),
    ensures
        segments_less(a, c),
    decreases a.len(),
{
    if a.len() > 0 {
        if a[0] == b[0] && b[0] == c[0] {
            lemma_segments_transitive(a.drop_first(), b.drop_first(), c.drop_first());
        } else if a[0] != b[0] && b[0] != c[0] {
            lemma_segment_transitive(a[0], b[0], c[0]);
        }
    }
}

/// Of two different versions one comes before the other.
pub proof fn order_is_total(a: VersionView, b: VersionView)
    ensures
        version_le(a, b) || version_le(b, a),
{
    if a.major == b.major && a.minor == b.minor && a.patch == b.patch {
        if a.pre != b.pre {
            if a.pre.len() > 0 && b.pre.len() > 0 {
                if segments(a.pre) == segments(b.pre) {
                    lemma_segments_unique(a.pre, b.pre);
                }
                lemma_segments_total(segments(a.pre), segments(b.pre));
            } else if a.pre.len() == 0 && b.pre.len() == 0 {
                assert(a.pre == b.pre);
            }
        } else if a.build != b.build {
            if segments(a.build) == segments(b.build) {
                lemma_segments_unique(a.build, b.build);
            }
            lemma_segments_total(segments(a.build), segments(b.build));
        } else {
            assert(a == b);
        }
    }
}

/// What comes before a version comes before all that follow it.
pub proof fn order_is_transitive(a: VersionView, b: VersionView, c: VersionView)
    requires
        version_le(a, b),
        version_le(b, c),
    ensures
        version_le(a, c),
{
    if a != b && b != c && a.major == b.major && b.major == c.major && a.minor == b.minor && b.minor
        == c.minor && a.patch == b.patch && b.patch == c.patch {
        if a.pre != b.pre && b.pre != c.pre {
            if c.pre.len() > 0 {
                lemma_segments_transitive(segments(a.pre), segments(b.pre), segments(c.pre));
                if a.pre == c.pre {
                    lemma_segments_irreflexive(segments(a.pre));
                }
            }
        } else if a.pre == b.pre && b.pre == c.pre {
            lemma_segments_transitive(segments(a.build), segments(b.build), segments(c.build));
        }
    }
}

/// No two versions come before one another.
pub proof fn order_is_antisymmetric(a: VersionView, b: VersionView)
    requires
        version_le(a, b),
        version_le(b, a),
    ensures
        a == b,
{
    if a != b && a.major == b.major && a.minor == b.minor && a.patch == b.patch {
        if a.pre != b.pre {
            lemma_segments_transitive(segments(a.pre), segments(b.pre), segments(a.pre));
            lemma_segments_irreflexive(segments(a.pre));
        } else {
            lemma_segments_transitive(segments(a.build), segments(b.build), segments(a.build));
            lemma_segments_irreflexive(segments(a.build));
        }
    }
}

proof fn lemma_segments_irreflexive(a: Seq<Seq<char>>)
    ensures
        !segments_less(a, a),
    decreases a.len(),
{
    if a.len() > 0 {
        lemma_segments_irreflexive(a.drop_first());
    }
}

} // verus!
