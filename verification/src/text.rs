//! Text as a sequence of characters: the splitting and trimming rules that the
//! readers of compiler output and of directory listings share.

use vstd::prelude::*;
use vstd::string::StringExecFns;

verus! {

/// A class of characters, used to measure leading runs.
#[derive(Clone, Copy)]
pub enum CharClass {
    /// Every character but the given one.
    Except(char),
    /// Characters with the Unicode `White_Space` property.
    Space,
    /// Characters without that property.
    Visible,
}

/// Whether `c` has the Unicode `White_Space` property.
pub open spec fn is_white_space(c: char) -> bool {
    let n = c as u32;
    ||| 0x9 <= n <= 0xd
    ||| n == 0x20
    ||| n == 0x85
    ||| n == 0xa0
    ||| n == 0x1680
    ||| 0x2000 <= n <= 0x200a
    ||| n == 0x2028
    ||| n == 0x2029
    ||| n == 0x202f
    ||| n == 0x205f
    ||| n == 0x3000
}

impl CharClass {
    pub open spec fn holds(self, c: char) -> bool {
        match self {
            CharClass::Except(x) => c != x,
            CharClass::Space => is_white_space(c),
            CharClass::Visible => !is_white_space(c),
        }
    }
}

/// The length of the longest prefix of `s` whose characters are all in `class`.
pub open spec fn prefix_len(s: Seq<char>, class: CharClass) -> nat
    decreases s.len(),
{
    if s.len() > 0 && class.holds(s[0]) {
        1 + prefix_len(s.drop_first(), class)
    } else {
        0
    }
}

/// The part of `s` before the first `c`; all of `s` when `c` does not occur.
pub open spec fn before(s: Seq<char>, c: char) -> Seq<char> {
    s.take(prefix_len(s, CharClass::Except(c)) as int)
}

/// Whether `s` holds white space only.
pub open spec fn is_blank(s: Seq<char>) -> bool {
    forall|i: int| 0 <= i < s.len() ==> is_white_space(#[trigger] s[i])
}

/// `s` without the white space at its end.
pub open spec fn trim_end(s: Seq<char>) -> Seq<char>
    decreases s.len(),
{
    if s.len() > 0 && is_white_space(s.last()) {
        trim_end(s.drop_last())
    } else {
        s
    }
}

/// `s` without the white space at its start and at its end.
pub open spec fn trim(s: Seq<char>) -> Seq<char> {
    trim_end(s.skip(prefix_len(s, CharClass::Space) as int))
}

/// `line` without one carriage return at its end.
pub open spec fn strip_return(line: Seq<char>) -> Seq<char> {
    if line.len() > 0 && line.last() == '\r' {
        line.drop_last()
    } else {
        line
    }
}

/// The lines of `s`. A line ends with a line feed, or with a carriage return
/// and a line feed; the last one may end without either, and a carriage return
/// at its end then stays.
pub open spec fn lines(s: Seq<char>) -> Seq<Seq<char>>
    decreases s.len(),
{
    let n = prefix_len(s, CharClass::Except('\n'));
    if s.len() == 0 {
        Seq::empty()
    } else if n >= s.len() {
        seq![s]
    } else {
        seq![strip_return(s.take(n as int))] + lines(s.skip((n + 1) as int))
    }
}

/// The items of `all` that are not blank, in order.
pub open spec fn non_blank(all: Seq<Seq<char>>) -> Seq<Seq<char>>
    decreases all.len(),
{
    if all.len() == 0 {
        Seq::empty()
    } else {
        let rest = non_blank(all.drop_last());
        if is_blank(all.last()) {
            rest
        } else {
            rest.push(all.last())
        }
    }
}

/// The maximal runs of characters of `s` that are not white space, in order.
pub open spec fn words(s: Seq<char>) -> Seq<Seq<char>>
    decreases s.len(),
{
    let start = prefix_len(s, CharClass::Space);
    let rest = s.skip(start as int);
    let n = prefix_len(rest, CharClass::Visible);
    if start >= s.len() || n == 0 || n > rest.len() {
        Seq::empty()
    } else {
        seq![rest.take(n as int)] + words(rest.skip(n as int))
    }
}

/// Whether `pat` occurs in `s` at position `i`.
pub open spec fn occurs_at(s: Seq<char>, pat: Seq<char>, i: int) -> bool {
    0 <= i <= s.len() - pat.len() && s.subrange(i, i + pat.len()) == pat
}

/// Whether `pat` occurs in `s`.
pub open spec fn contains(s: Seq<char>, pat: Seq<char>) -> bool {
    exists|i: int| occurs_at(s, pat, i)
}

/// `s` without its leading repetitions of `pat`.
pub open spec fn trim_start_matches(s: Seq<char>, pat: Seq<char>) -> Seq<char>
    decreases s.len(),
{
    if pat.len() > 0 && occurs_at(s, pat, 0) {
        trim_start_matches(s.skip(pat.len() as int), pat)
    } else {
        s
    }
}

/// `s` with each occurrence of `from` replaced by `to`, from the left and
/// without overlap. `from` is not empty.
pub open spec fn replace(s: Seq<char>, from: Seq<char>, to: Seq<char>) -> Seq<char>
    recommends
        from.len() > 0,
    decreases s.len(),
{
    if s.len() == 0 {
        Seq::empty()
    } else if from.len() > 0 && occurs_at(s, from, 0) {
        to + replace(s.skip(from.len() as int), from, to)
    } else {
        seq![s[0]] + replace(s.drop_first(), from, to)
    }
}

/// The characters that each of `all` holds.
pub open spec fn views(all: Seq<Vec<char>>) -> Seq<Seq<char>> {
    Seq::new(all.len(), |i: int| all[i]@)
}

pub proof fn lemma_prefix_len(s: Seq<char>, class: CharClass)
    ensures
        prefix_len(s, class) <= s.len(),
        forall|i: int| 0 <= i < prefix_len(s, class) ==> class.holds(#[trigger] s[i]),
        prefix_len(s, class) < s.len() ==> !class.holds(s[prefix_len(s, class) as int]),
    decreases s.len(),
{
    if s.len() > 0 && class.holds(s[0]) {
        let t = s.drop_first();
        lemma_prefix_len(t, class);
        assert forall|i: int| 0 <= i < prefix_len(s, class) implies class.holds(
            #[trigger] s[i],
        ) by {
            if i > 0 {
                assert(s[i] == t[i - 1]);
            }
        }
    }
}

pub proof fn lemma_prefix_len_is(s: Seq<char>, class: CharClass, n: int)
    requires
        0 <= n <= s.len(),
        forall|i: int| 0 <= i < n ==> class.holds(#[trigger] s[i]),
        n < s.len() ==> !class.holds(s[n]),
    ensures
        prefix_len(s, class) == n,
    decreases s.len(),
{
    if n > 0 {
        assert(class.holds(s[0]));
        let t = s.drop_first();
        assert forall|i: int| 0 <= i < n - 1 implies class.holds(#[trigger] t[i]) by {
            assert(t[i] == s[i + 1]);
        }
        lemma_prefix_len_is(t, class, n - 1);
    }
}

/// The characters of `s`.
pub fn chars(s: &str) -> (res: Vec<char>)
    ensures
        res@ == s@,
{
    let mut out: Vec<char> = Vec::new();
    for c in it: s.chars()
        invariant
            it.seq() == s@,
            out@ == s@.take(it.index()),
    {
        out.push(c);
    }
    out
}

/// The string that holds the characters of `s`.
pub fn string(s: &[char]) -> (res: String)
    ensures
        res@ == s@,
{
    let mut out = String::new();
    let mut i: usize = 0;
    while i < s.len()
        invariant
            i <= s@.len(),
            out@ == s@.take(i as int),
        decreases s@.len() - i,
    {
        out.push(s[i]);
        i += 1;
    }
    assert(s@.take(s@.len() as int) == s@);
    out
}

impl CharClass {
    /// Whether `c` is in the class.
    pub fn has(self, c: char) -> (res: bool)
        ensures
            res == self.holds(c),
    {
        match self {
            CharClass::Except(x) => c != x,
            CharClass::Space => white_space(c),
            CharClass::Visible => !white_space(c),
        }
    }
}

/// Whether `c` is white space.
pub fn white_space(c: char) -> (res: bool)
    ensures
        res == is_white_space(c),
{
    let n: u32 = c as u32;
    (0x9 <= n && n <= 0xd) || n == 0x20 || n == 0x85 || n == 0xa0 || n == 0x1680 || (0x2000 <= n
        && n <= 0x200a) || n == 0x2028 || n == 0x2029 || n == 0x202f || n == 0x205f || n == 0x3000
}

/// The length of the run of characters of `class` in `s` that starts at `from`.
pub fn run_length(s: &[char], from: usize, class: CharClass) -> (res: usize)
    requires
        from <= s@.len(),
    ensures
        res == prefix_len(s@.skip(from as int), class),
        from + res <= s@.len(),
{
    let len = s.len();
    let mut n: usize = 0;
    while n < len - from && class.has(s[from + n])
        invariant
            len == s@.len(),
            from + n <= len,
            forall|i: int| 0 <= i < n ==> class.holds(#[trigger] s@.skip(from as int)[i]),
        decreases s@.len() - from - n,
    {
        n += 1;
    }
    proof {
        lemma_prefix_len_is(s@.skip(from as int), class, n as int);
    }
    n
}

/// A copy of `s[from..to]`.
pub fn copy_range(s: &[char], from: usize, to: usize) -> (res: Vec<char>)
    requires
        from <= to <= s@.len(),
    ensures
        res@ == s@.subrange(from as int, to as int),
{
    let mut out: Vec<char> = Vec::new();
    let mut i: usize = from;
    while i < to
        invariant
            from <= i <= to <= s@.len(),
            out@ == s@.subrange(from as int, i as int),
        decreases to - i,
    {
        out.push(s[i]);
        i += 1;
    }
    out
}

/// Whether two texts are the same.
pub fn equal(a: &[char], b: &[char]) -> (res: bool)
    ensures
        res == (a@ == b@),
{
    if a.len() != b.len() {
        return false;
    }
    let mut i: usize = 0;
    while i < a.len()
        invariant
            i <= a@.len(),
            a@.len() == b@.len(),
            forall|j: int| 0 <= j < i ==> a@[j] == b@[j],
        decreases a@.len() - i,
    {
        if a[i] != b[i] {
            return false;
        }
        i += 1;
    }
    assert(a@ == b@);
    true
}

/// Whether `pat` stands in `s` at position `at`.
pub fn stands_at(s: &[char], pat: &[char], at: usize) -> (res: bool)
    requires
        at <= s@.len(),
    ensures
        res == occurs_at(s@, pat@, at as int),
        res == occurs_at(s@.skip(at as int), pat@, 0),
{
    let len = s.len();
    if pat.len() > len - at {
        return false;
    }
    let ghost sub = s@.subrange(at as int, at + pat@.len());
    assert(s@.skip(at as int).subrange(0, pat@.len() as int) == sub);
    let mut i: usize = 0;
    while i < pat.len()
        invariant
            i <= pat@.len(),
            len == s@.len(),
            at + pat@.len() <= len,
            sub == s@.subrange(at as int, at + pat@.len()),
            forall|j: int| 0 <= j < i ==> sub[j] == pat@[j],
        decreases pat@.len() - i,
    {
        if s[at + i] != pat[i] {
            assert(sub[i as int] != pat@[i as int]);
            return false;
        }
        i += 1;
    }
    assert(sub == pat@);
    true
}

/// The part of `s` before the first `c`, as [`before`] says.
pub fn take_before(s: &[char], c: char) -> (res: Vec<char>)
    ensures
        res@ == before(s@, c),
{
    let n = run_length(s, 0, CharClass::Except(c));
    assert(s@.skip(0) == s@);
    copy_range(s, 0, n)
}

/// Whether `s` is blank, as [`is_blank`] says.
pub fn blank(s: &[char]) -> (res: bool)
    ensures
        res == is_blank(s@),
{
    let n = run_length(s, 0, CharClass::Space);
    assert(s@.skip(0) == s@);
    proof {
        lemma_prefix_len(s@, CharClass::Space);
    }
    n == s.len()
}

/// `s` without leading and trailing white space, as [`trim`] says.
pub fn trimmed(s: &[char]) -> (res: Vec<char>)
    ensures
        res@ == trim(s@),
{
    let from = run_length(s, 0, CharClass::Space);
    assert(s@.skip(0) == s@);
    let ghost kept = s@.skip(from as int);
    let mut to: usize = s.len();
    assert(kept == s@.subrange(from as int, to as int));
    while to > from && white_space(s[to - 1])
        invariant
            from <= to <= s@.len(),
            trim_end(kept) == trim_end(s@.subrange(from as int, to as int)),
        decreases to,
    {
        assert(s@.subrange(from as int, to as int).drop_last() == s@.subrange(
            from as int,
            to - 1,
        ));
        to -= 1;
    }
    copy_range(s, from, to)
}

/// The lines of `s`, as [`lines`] says.
pub fn split_lines(s: &[char]) -> (res: Vec<Vec<char>>)
    ensures
        views(res@) == lines(s@),
{
    let mut out: Vec<Vec<char>> = Vec::new();
    let mut at: usize = 0;
    assert(s@.skip(0) == s@);
    while at < s.len()
        invariant
            at <= s@.len(),
            lines(s@) == views(out@) + lines(s@.skip(at as int)),
        decreases s@.len() - at,
    {
        let ghost rest = s@.skip(at as int);
        let n = run_length(s, at, CharClass::Except('\n'));
        let ghost before_push = views(out@);
        if at + n == s.len() {
            out.push(copy_range(s, at, at + n));
            assert(rest == s@.subrange(at as int, at + n));
            assert(views(out@) == before_push + seq![rest]);
            at = s.len();
        } else {
            let ghost line = rest.take(n as int);
            assert(line == s@.subrange(at as int, at + n));
            if n > 0 && s[at + n - 1] == '\r' {
                out.push(copy_range(s, at, at + n - 1));
                assert(line.drop_last() == s@.subrange(at as int, at + n - 1));
            } else {
                out.push(copy_range(s, at, at + n));
            }
            assert(views(out@) == before_push + seq![strip_return(line)]);
            assert(rest.skip(n + 1) == s@.skip(at + n + 1));
            at = at + n + 1;
        }
    }
    assert(lines(s@.skip(at as int)) == Seq::<Seq<char>>::empty());
    out
}

/// The items of `all` that are not blank, as [`non_blank`] says.
pub fn drop_blank(all: Vec<Vec<char>>) -> (res: Vec<Vec<char>>)
    ensures
        views(res@) == non_blank(views(all@)),
{
    let mut out: Vec<Vec<char>> = Vec::new();
    let mut i: usize = 0;
    while i < all.len()
        invariant
            i <= all@.len(),
            views(out@) == non_blank(views(all@).take(i as int)),
        decreases all@.len() - i,
    {
        let ghost part = views(all@).take(i + 1);
        assert(part.drop_last() == views(all@).take(i as int));
        let ghost before_push = views(out@);
        if !blank(all[i].as_slice()) {
            out.push(copy_range(all[i].as_slice(), 0, all[i].len()));
            assert(all@[i as int]@.subrange(0, all@[i as int]@.len() as int) == all@[i as int]@);
            assert(views(out@) == before_push.push(part.last()));
        }
        i += 1;
    }
    assert(views(all@).take(all@.len() as int) == views(all@));
    out
}

/// The words of `s`, as [`words`] says.
pub fn split_words(s: &[char]) -> (res: Vec<Vec<char>>)
    ensures
        views(res@) == words(s@),
{
    let mut out: Vec<Vec<char>> = Vec::new();
    let len = s.len();
    let mut at: usize = 0;
    assert(s@.skip(0) == s@);
    loop
        invariant
            len == s@.len(),
            at <= len,
            words(s@) == views(out@) + words(s@.skip(at as int)),
        decreases s@.len() - at,
    {
        let ghost here = s@.skip(at as int);
        let gap = run_length(s, at, CharClass::Space);
        let from: usize = at + gap;
        if from == len {
            assert(words(here) == Seq::<Seq<char>>::empty());
            return out;
        }
        let n = run_length(s, from, CharClass::Visible);
        let ghost rest = here.skip(gap as int);
        assert(rest == s@.skip(from as int));
        proof {
            lemma_prefix_len(here, CharClass::Space);
            lemma_prefix_len(rest, CharClass::Visible);
            assert(!is_white_space(here[gap as int]));
            assert(rest[0] == here[gap as int]);
        }
        let ghost before_push = views(out@);
        out.push(copy_range(s, from, from + n));
        assert(rest.take(n as int) == s@.subrange(from as int, from + n));
        assert(views(out@) == before_push + seq![rest.take(n as int)]);
        assert(rest.skip(n as int) == s@.skip(from + n));
        at = from + n;
    }
}

/// Whether `pat` occurs in `s`, as [`contains`] says.
pub fn has_text(s: &[char], pat: &[char]) -> (res: bool)
    ensures
        res == contains(s@, pat@),
{
    let mut i: usize = 0;
    loop
        invariant
            i <= s@.len(),
            forall|j: int| 0 <= j < i ==> !occurs_at(s@, pat@, j),
        decreases s@.len() - i,
    {
        if stands_at(s, pat, i) {
            return true;
        }
        if i == s.len() {
            return false;
        }
        i += 1;
    }
}

/// `s` without its leading repetitions of `pat`, as [`trim_start_matches`] says.
pub fn drop_leading(s: &[char], pat: &[char]) -> (res: Vec<char>)
    ensures
        res@ == trim_start_matches(s@, pat@),
{
    let len = s.len();
    let mut at: usize = 0;
    assert(s@.skip(0) == s@);
    while pat.len() > 0 && stands_at(s, pat, at)
        invariant
            len == s@.len(),
            at <= len,
            trim_start_matches(s@, pat@) == trim_start_matches(s@.skip(at as int), pat@),
        decreases s@.len() - at,
    {
        assert(s@.skip(at as int).skip(pat@.len() as int) == s@.skip(at + pat@.len()));
        at += pat.len();
    }
    assert(s@.skip(at as int) == s@.subrange(at as int, s@.len() as int));
    copy_range(s, at, len)
}

/// `s` with `from` replaced by `to`, as [`replace`] says.
pub fn replaced(s: &[char], from: &[char], to: &[char]) -> (res: Vec<char>)
    requires
        from@.len() > 0,
    ensures
        res@ == replace(s@, from@, to@),
{
    let mut out: Vec<char> = Vec::new();
    let mut at: usize = 0;
    assert(s@.skip(0) == s@);
    while at < s.len()
        invariant
            at <= s@.len(),
            from@.len() > 0,
            replace(s@, from@, to@) == out@ + replace(s@.skip(at as int), from@, to@),
        decreases s@.len() - at,
    {
        let ghost rest = s@.skip(at as int);
        let ghost before_push = out@;
        if stands_at(s, from, at) {
            append(&mut out, to);
            assert(rest.skip(from@.len() as int) == s@.skip(at + from@.len()));
            at += from.len();
        } else {
            out.push(s[at]);
            assert(rest.drop_first() == s@.skip(at + 1));
            assert(out@ == before_push + seq![rest[0]]);
            at += 1;
        }
    }
    assert(replace(s@.skip(at as int), from@, to@) == Seq::<char>::empty());
    out
}

/// Whether two strings are the same.
pub fn same(a: &str, b: &str) -> (res: bool)
    ensures
        res == (a@ == b@),
{
    equal(chars(a).as_slice(), chars(b).as_slice())
}

/// `a`, then `b`.
pub fn joined(a: &str, b: &str) -> (res: String)
    ensures
        res@ == a@ + b@,
{
    let mut out = a.to_owned();
    out.append(b);
    out
}

/// Appends `more` to `out`.
pub fn append(out: &mut Vec<char>, more: &[char])
    ensures
        final(out)@ == old(out)@ + more@,
{
    let mut i: usize = 0;
    while i < more.len()
        invariant
            i <= more@.len(),
            out@ == old(out)@ + more@.take(i as int),
        decreases more@.len() - i,
    {
        out.push(more[i]);
        i += 1;
    }
    assert(more@.take(more@.len() as int) == more@);
}

} // verus!
