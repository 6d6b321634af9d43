//! Semantic versions: their parts, their text and their order.

use vstd::prelude::*;
use vstd::utf8::encode_utf8;

use crate::error::SolcError;
use crate::order::Ranked;
use crate::outside::{parse_version, refusal, show_version, version_at_most};
use crate::precedence::{order_is_total, order_is_transitive, version_le};
use crate::text::{lemma_prefix_len, prefix_len, CharClass};

verus! {

/// A version `major.minor.patch`, with a pre-release tag and a build tag that
/// are empty where the version has none.
#[derive(Debug, PartialEq, Eq)]
pub struct Version {
    pub major: u64,
    pub minor: u64,
    pub patch: u64,
    pub pre: String,
    pub build: String,
}

/// What a [`Version`] stands for.
#[verifier::ext_equal]
pub struct VersionView {
    pub major: u64,
    pub minor: u64,
    pub patch: u64,
    pub pre: Seq<char>,
    pub build: Seq<char>,
}

impl View for Version {
    type V = VersionView;

    open spec fn view(&self) -> VersionView {
        VersionView {
            major: self.major,
            minor: self.minor,
            patch: self.patch,
            pre: self.pre@,
            build: self.build@,
        }
    }
}

impl Clone for Version {
    fn clone(&self) -> (res: Self)
        ensures
            res@ == self@,
    {
        Version {
            major: self.major,
            minor: self.minor,
            patch: self.patch,
            pre: self.pre.clone(),
            build: self.build.clone(),
        }
    }
}

/// Whether `c` is an ASCII digit.
pub open spec fn is_digit(c: char) -> bool {
    '0' <= c <= '9'
}

/// Whether `c` may stand in a tag, next to dots.
pub open spec fn is_tag_char(c: char) -> bool {
    is_digit(c) || 'a' <= c <= 'z' || 'A' <= c <= 'Z' || c == '-'
}

/// Whether `s` may stand between the dots of a tag. With `strict`, a number of
/// more than one digit does not start with zero.
pub open spec fn is_segment(s: Seq<char>, strict: bool) -> bool {
    &&& s.len() > 0
    &&& forall|i: int| 0 <= i < s.len() ==> is_tag_char(#[trigger] s[i])
    &&& strict && s.len() > 1 && s[0] == '0' ==> exists|i: int|
        0 <= i < s.len() && !is_digit(#[trigger] s[i])
}

/// Whether `s` is a series of segments with one dot between each two.
pub open spec fn is_segments(s: Seq<char>, strict: bool) -> bool
    decreases s.len(),
{
    let n = prefix_len(s, CharClass::Except('.'));
    if n < s.len() {
        is_segment(s.take(n as int), strict) && is_segments(s.skip((n + 1) as int), strict)
    } else {
        is_segment(s, strict)
    }
}

/// Whether `s` is a tag: empty, or a series of segments.
pub open spec fn is_tag(s: Seq<char>, strict: bool) -> bool {
    s.len() == 0 || is_segments(s, strict)
}

/// The greatest length, in bytes, of a text that is read as a version and of a
/// tag.
pub open spec fn max_text() -> nat {
    if usize::BITS == 32 {
        0x7fff_fff8
    } else {
        0xff_ffff_ffff_ffff
    }
}

/// Whether `text` is short enough to be read as a version.
pub open spec fn fits(text: Seq<char>) -> bool {
    encode_utf8(text).len() <= max_text()
}

impl VersionView {
    /// Whether the tags are well formed.
    pub open spec fn valid(self) -> bool {
        &&& is_tag(self.pre, true)
        &&& is_tag(self.build, false)
        &&& self.pre.len() <= max_text()
        &&& self.build.len() <= max_text()
    }
}

/// The digit for `d`, which is below ten.
pub open spec fn digit(d: nat) -> char {
    (d + '0' as nat) as char
}

/// `n` in decimal notation.
pub open spec fn decimal(n: nat) -> Seq<char>
    decreases n,
{
    if n < 10 {
        seq![digit(n)]
    } else {
        decimal(n / 10).push(digit(n % 10))
    }
}

/// The three numbers of `v` with dots between them.
pub open spec fn core_text(v: VersionView) -> Seq<char> {
    decimal(v.major as nat) + seq!['.'] + decimal(v.minor as nat) + seq!['.'] + decimal(
        v.patch as nat,
    )
}

/// A tag behind its `mark`; nothing for an empty tag.
pub open spec fn tag_text(mark: char, tag: Seq<char>) -> Seq<char> {
    if tag.len() > 0 {
        seq![mark] + tag
    } else {
        Seq::empty()
    }
}

/// `v` as it is written.
pub open spec fn version_text(v: VersionView) -> Seq<char> {
    core_text(v) + tag_text('-', v.pre) + tag_text('+', v.build)
}

/// The version without tags.
pub open spec fn release(major: u64, minor: u64, patch: u64) -> VersionView {
    VersionView { major, minor, patch, pre: Seq::empty(), build: Seq::empty() }
}

/// Whether `text` is the text of the well-formed version `v`.
pub open spec fn reads_as(text: Seq<char>, v: VersionView) -> bool {
    v.valid() && version_text(v) == text
}

/// What reading `text` as a version gives: the well-formed version whose text it
/// is; `None` where there is no such version, or the text is too long.
pub open spec fn parsed(text: Seq<char>) -> Option<VersionView> {
    if fits(text) && exists|v: VersionView| reads_as(text, v) {
        Some(choose|v: VersionView| reads_as(text, v))
    } else {
        None
    }
}

/// No two well-formed versions have the same text.
pub proof fn version_text_is_unique(a: VersionView, b: VersionView)
    requires
        a.valid(),
        b.valid(),
        version_text(a) == version_text(b),
    ensures
        a == b,
{
    let tags_a = tag_text('-', a.pre) + tag_text('+', a.build);
    let tags_b = tag_text('-', b.pre) + tag_text('+', b.build);
    let patch_a = decimal(a.patch as nat) + tags_a;
    let patch_b = decimal(b.patch as nat) + tags_b;
    let minor_a = decimal(a.minor as nat) + seq!['.'] + patch_a;
    let minor_b = decimal(b.minor as nat) + seq!['.'] + patch_b;
    assert(version_text(a) == decimal(a.major as nat) + seq!['.'] + minor_a);
    assert(version_text(b) == decimal(b.major as nat) + seq!['.'] + minor_b);
    lemma_decimal(a.major as nat);
    lemma_decimal(b.major as nat);
    lemma_decimal(a.minor as nat);
    lemma_decimal(b.minor as nat);
    lemma_decimal(a.patch as nat);
    lemma_decimal(b.patch as nat);
    lemma_split_at_mark(decimal(a.major as nat), minor_a, decimal(b.major as nat), minor_b, '.');
    lemma_split_at_mark(decimal(a.minor as nat), patch_a, decimal(b.minor as nat), patch_b, '.');
    lemma_split_after_digits(decimal(a.patch as nat), tags_a, decimal(b.patch as nat), tags_b);
    lemma_decimal_is_unique(a.major as nat, b.major as nat);
    lemma_decimal_is_unique(a.minor as nat, b.minor as nat);
    lemma_decimal_is_unique(a.patch as nat, b.patch as nat);
    lemma_tags_are_unique(a, b);
}

/// Reading the text of a version gives that version.
pub proof fn lemma_parsed(text: Seq<char>, v: VersionView)
    requires
        fits(text),
        reads_as(text, v),
    ensures
        parsed(text) == Some(v),
{
    let w = choose|w: VersionView| reads_as(text, w);
    version_text_is_unique(v, w);
}

proof fn lemma_decimal(n: nat)
    ensures
        decimal(n).len() > 0,
        forall|i: int| 0 <= i < decimal(n).len() ==> is_digit(#[trigger] decimal(n)[i]),
    decreases n,
{
    if n >= 10 {
        lemma_decimal(n / 10);
    }
}

/// The three numbers of a version with their dots: digits and dots only.
pub proof fn lemma_core_chars(v: VersionView)
    ensures
        core_text(v).len() > 0,
        is_digit(core_text(v)[0]),
        forall|i: int|
            0 <= i < core_text(v).len() ==> is_digit(#[trigger] core_text(v)[i]) || core_text(v)[i]
                == '.',
{
    let a = decimal(v.major as nat);
    let b = decimal(v.minor as nat);
    let c = decimal(v.patch as nat);
    let core = core_text(v);
    lemma_decimal(v.major as nat);
    lemma_decimal(v.minor as nat);
    lemma_decimal(v.patch as nat);
    assert(core[0] == a[0]);
    assert forall|i: int| 0 <= i < core.len() implies is_digit(#[trigger] core[i]) || core[i]
        == '.' by {
        if i < a.len() {
            assert(core[i] == a[i]);
        } else if a.len() < i < a.len() + 1 + b.len() {
            assert(core[i] == b[i - a.len() - 1]);
        } else if i > a.len() + 1 + b.len() {
            assert(core[i] == c[i - a.len() - b.len() - 2]);
        }
    }
}

proof fn lemma_decimal_is_unique(a: nat, b: nat)
    requires
        decimal(a) == decimal(b),
    ensures
        a == b,
    decreases a,
{
    lemma_decimal(a / 10);
    lemma_decimal(b / 10);
    assert(decimal(a).last() == digit(a % 10));
    assert(decimal(b).last() == digit(b % 10));
    assert(a % 10 == b % 10);
    if a >= 10 && b >= 10 {
        assert(decimal(a).drop_last() == decimal(a / 10));
        assert(decimal(b).drop_last() == decimal(b / 10));
        lemma_decimal_is_unique(a / 10, b / 10);
    } else if a >= 10 {
        assert(decimal(a).len() > 1);
    } else if b >= 10 {
        assert(decimal(b).len() > 1);
    }
}

proof fn lemma_split_at_mark(
    head_a: Seq<char>,
    tail_a: Seq<char>,
    head_b: Seq<char>,
    tail_b: Seq<char>,
    mark: char,
)
    requires
        head_a + seq![mark] + tail_a == head_b + seq![mark] + tail_b,
        forall|i: int| 0 <= i < head_a.len() ==> #[trigger] head_a[i] != mark,
        forall|i: int| 0 <= i < head_b.len() ==> #[trigger] head_b[i] != mark,
    ensures
        head_a == head_b,
        tail_a == tail_b,
{
    let a = head_a + seq![mark] + tail_a;
    let b = head_b + seq![mark] + tail_b;
    assert(a[head_a.len() as int] == mark);
    assert(b[head_b.len() as int] == mark);
    if head_a.len() < head_b.len() {
        assert(b[head_a.len() as int] == head_b[head_a.len() as int]);
    }
    if head_b.len() < head_a.len() {
        assert(a[head_b.len() as int] == head_a[head_b.len() as int]);
    }
    assert(head_a == a.take(head_a.len() as int));
    assert(head_b == b.take(head_b.len() as int));
    assert(tail_a == a.skip(head_a.len() as int + 1));
    assert(tail_b == b.skip(head_b.len() as int + 1));
}

proof fn lemma_split_after_digits(
    head_a: Seq<char>,
    tail_a: Seq<char>,
    head_b: Seq<char>,
    tail_b: Seq<char>,
)
    requires
        head_a + tail_a == head_b + tail_b,
        forall|i: int| 0 <= i < head_a.len() ==> is_digit(#[trigger] head_a[i]),
        forall|i: int| 0 <= i < head_b.len() ==> is_digit(#[trigger] head_b[i]),
        tail_a.len() > 0 ==> !is_digit(tail_a[0]),
        tail_b.len() > 0 ==> !is_digit(tail_b[0]),
    ensures
        head_a == head_b,
        tail_a == tail_b,
{
    let a = head_a + tail_a;
    let b = head_b + tail_b;
    if head_a.len() < head_b.len() {
        assert(b[head_a.len() as int] == head_b[head_a.len() as int]);
        assert(a[head_a.len() as int] == tail_a[0]);
    }
    if head_b.len() < head_a.len() {
        assert(a[head_b.len() as int] == head_a[head_b.len() as int]);
        assert(b[head_b.len() as int] == tail_b[0]);
    }
    assert(head_a == a.take(head_a.len() as int));
    assert(head_b == b.take(head_b.len() as int));
    assert(tail_a == a.skip(head_a.len() as int));
    assert(tail_b == b.skip(head_b.len() as int));
}

/// A tag holds tag characters and dots only.
pub proof fn lemma_tag_chars(s: Seq<char>, strict: bool)
    requires
        is_tag(s, strict),
    ensures
        forall|i: int| 0 <= i < s.len() ==> is_tag_char(#[trigger] s[i]) || s[i] == '.',
    decreases s.len(),
{
    if s.len() > 0 {
        let n = prefix_len(s, CharClass::Except('.'));
        lemma_prefix_len(s, CharClass::Except('.'));
        if n < s.len() {
            let rest = s.skip((n + 1) as int);
            lemma_tag_chars(rest, strict);
            assert forall|i: int| 0 <= i < s.len() implies is_tag_char(#[trigger] s[i]) || s[i]
                == '.' by {
                if i < n {
                    assert(s[i] == s.take(n as int)[i]);
                } else if i > n {
                    assert(s[i] == rest[i - n - 1]);
                }
            }
        }
    }
}

proof fn lemma_tags_are_unique(a: VersionView, b: VersionView)
    requires
        a.valid(),
        b.valid(),
        tag_text('-', a.pre) + tag_text('+', a.build) == tag_text('-', b.pre) + tag_text(
            '+',
            b.build,
        ),
    ensures
        a.pre == b.pre,
        a.build == b.build,
{
    let ta = tag_text('-', a.pre) + tag_text('+', a.build);
    let tb = tag_text('-', b.pre) + tag_text('+', b.build);
    lemma_tag_chars(a.pre, true);
    lemma_tag_chars(b.pre, true);
    if a.pre.len() > 0 {
        assert(ta[0] == '-');
        assert(b.pre.len() > 0) by {
            if b.pre.len() == 0 && b.build.len() > 0 {
                assert(tb[0] == '+');
            }
        }
        let la = a.pre.len() as int;
        let lb = b.pre.len() as int;
        if la < lb {
            if a.build.len() > 0 {
                assert(ta[la + 1] == '+');
            }
            assert(tb[la + 1] == b.pre[la]);
        }
        if lb < la {
            if b.build.len() > 0 {
                assert(tb[lb + 1] == '+');
            }
            assert(ta[lb + 1] == a.pre[lb]);
        }
        assert(a.pre == ta.subrange(1, la + 1));
        assert(b.pre == tb.subrange(1, lb + 1));
        assert(tag_text('+', a.build) == ta.skip(la + 1));
        assert(tag_text('+', b.build) == tb.skip(lb + 1));
    } else {
        if b.pre.len() > 0 {
            assert(tb[0] == '-');
            if a.build.len() > 0 {
                assert(ta[0] == '+');
            }
        }
        assert(tag_text('+', a.build) == ta);
        assert(tag_text('+', b.build) == tb);
    }
    assert(tag_text('+', a.build) == tag_text('+', b.build));
    if a.build.len() > 0 {
        assert(a.build == tag_text('+', a.build).skip(1));
        assert(b.build == tag_text('+', b.build).skip(1));
    }
    assert(a.build == b.build);
}

/// Whether `text` is short enough, as [`fits`] says.
fn text_fits(text: &str) -> (res: bool)
    ensures
        res == fits(text@),
{
    let len: u64 = text.as_bytes().len() as u64;
    let max: u64 = if usize::BITS == 32 {
        0x7fff_fff8
    } else {
        0xff_ffff_ffff_ffff
    };
    len <= max
}

impl Version {
    /// The version without tags.
    pub fn new(major: u64, minor: u64, patch: u64) -> (res: Version)
        ensures
            res@ == release(major, minor, patch),
            res@.valid(),
    {
        Version { major, minor, patch, pre: String::new(), build: String::new() }
    }

    /// Reads a version.
    pub fn parse(text: &str) -> (res: Result<Version, SolcError>)
        ensures
            res matches Ok(v) ==> parsed(text@) == Some(v@),
            res matches Ok(v) ==> v@.valid(),
            res is Err <==> parsed(text@) is None,
            res matches Err(e) ==> if fits(text@) {
                e.is_refusal(refusal(text@))
            } else {
                e.says("version text is too long"@)
            },
    {
        if !text_fits(text) {
            return Err(SolcError::msg("version text is too long"));
        }
        match parse_version(text) {
            Ok(v) => {
                proof {
                    lemma_parsed(text@, v@);
                }
                Ok(v)
            },
            Err(e) => Err(SolcError::SemverError(e)),
        }
    }

    /// The version as it is written.
    pub fn to_string(&self) -> (res: String)
        requires
            self@.valid(),
        ensures
            res@ == version_text(self@),
    {
        show_version(self)
    }
}

impl Ranked for Version {
    open spec fn in_domain(v: VersionView) -> bool {
        v.valid()
    }

    open spec fn le(a: VersionView, b: VersionView) -> bool {
        version_le(a, b)
    }

    fn at_most(&self, other: &Self) -> (res: bool) {
        proof {
            order_is_total(self@, other@);
            if !version_le(self@, other@) {
                assert forall|c: VersionView|
                    Self::in_domain(c) && #[trigger] Self::le(self@, c) implies Self::le(
                    other@,
                    c,
                ) by {
                    order_is_transitive(other@, self@, c);
                }
            }
        }
        version_at_most(self, other)
    }
}

} // verus!
