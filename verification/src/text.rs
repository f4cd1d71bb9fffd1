//! Text as the panel reads it: trimming, lines and separated fields.

use vstd::prelude::*;

verus! {

/// The characters of Unicode's `White_Space` property.
pub open spec fn white_space(c: char) -> bool {
    ||| '\u{9}' <= c <= '\u{d}'
    ||| c == '\u{20}'
    ||| c == '\u{85}'
    ||| c == '\u{a0}'
    ||| c == '\u{1680}'
    ||| '\u{2000}' <= c <= '\u{200a}'
    ||| c == '\u{2028}'
    ||| c == '\u{2029}'
    ||| c == '\u{202f}'
    ||| c == '\u{205f}'
    ||| c == '\u{3000}'
}

/// `char::is_whitespace` tells exactly the characters of the `White_Space`
/// property apart from all others.
pub assume_specification[ char::is_whitespace ](c: char) -> (r: bool)
    ensures
        r == white_space(c),
;

/// `String::push` appends one character to the end of the string.
pub assume_specification[ String::push ](s: &mut String, c: char)
    ensures
        final(s)@ == old(s)@.push(c),
;

/// What each string of a list holds.
pub open spec fn texts(list: Seq<String>) -> Seq<Seq<char>> {
    list.map_values(|s: String| s@)
}

/// What an optional string holds.
pub open spec fn option_view(s: Option<String>) -> Option<Seq<char>> {
    match s {
        Some(s) => Some(s@),
        None => None,
    }
}

/// `s` without the white space it starts with.
pub open spec fn trimmed_start(s: Seq<char>) -> Seq<char>
    decreases s.len(),
{
    if s.len() > 0 && white_space(s.first()) {
        trimmed_start(s.drop_first())
    } else {
        s
    }
}

/// `s` without the white space it ends with.
pub open spec fn trimmed_end(s: Seq<char>) -> Seq<char>
    decreases s.len(),
{
    if s.len() > 0 && white_space(s.last()) {
        trimmed_end(s.drop_last())
    } else {
        s
    }
}

/// `s` without the white space at either end.
pub open spec fn trimmed(s: Seq<char>) -> Seq<char> {
    trimmed_end(trimmed_start(s))
}

/// Where `c` first occurs in `s`, or the length of `s` where it does not.
pub open spec fn first_at(s: Seq<char>, c: char) -> int
    decreases s.len(),
{
    if s.len() == 0 || s.first() == c {
        0
    } else {
        1 + first_at(s.drop_first(), c)
    }
}

/// A line without the carriage return that ended it before its line feed.
pub open spec fn chomped(line: Seq<char>) -> Seq<char> {
    if line.len() > 0 && line.last() == '\r' {
        line.drop_last()
    } else {
        line
    }
}

/// The lines of `s`: each ends at a line feed, or at a carriage return and a line
/// feed, which belong to no line. The last line may end with `s` instead.
pub open spec fn lines_of(s: Seq<char>) -> Seq<Seq<char>>
    decreases s.len(),
{
    let k = first_at(s, '\n');
    if s.len() == 0 {
        seq![]
    } else if !(0 <= k < s.len()) {
        seq![s]
    } else {
        seq![chomped(s.take(k))] + lines_of(s.skip(k + 1))
    }
}

/// At most `n` pieces of `s`, cut at the first occurrences of `sep`: the last one
/// holds whatever is left, separators and all.
pub open spec fn pieces_of(s: Seq<char>, n: nat, sep: char) -> Seq<Seq<char>>
    decreases n,
{
    let k = first_at(s, sep);
    if n == 0 {
        seq![]
    } else if n == 1 || !(0 <= k < s.len()) {
        seq![s]
    } else {
        seq![s.take(k)] + pieces_of(s.skip(k + 1), (n - 1) as nat, sep)
    }
}

/// All the pieces of `s` between occurrences of `sep`.
pub open spec fn split_of(s: Seq<char>, sep: char) -> Seq<Seq<char>>
    decreases s.len(),
{
    let k = first_at(s, sep);
    if !(0 <= k < s.len()) {
        seq![s]
    } else {
        seq![s.take(k)] + split_of(s.skip(k + 1), sep)
    }
}

/// `first_at` is what its name says.
proof fn lemma_first_at(s: Seq<char>, c: char)
    ensures
        0 <= first_at(s, c) <= s.len(),
        forall|i: int| 0 <= i < first_at(s, c) ==> s[i] != c,
        first_at(s, c) < s.len() ==> s[first_at(s, c)] == c,
    decreases s.len(),
{
    if s.len() > 0 && s.first() != c {
        lemma_first_at(s.drop_first(), c);
        assert forall|i: int| 0 <= i < first_at(s, c) implies s[i] != c by {
            if i > 0 {
                assert(s[i] == s.drop_first()[i - 1]);
            }
        }
    }
}

/// The index at which `c` first occurs is `first_at`.
proof fn lemma_first_at_is(s: Seq<char>, c: char, k: int)
    requires
        0 <= k <= s.len(),
        forall|i: int| 0 <= i < k ==> s[i] != c,
        k < s.len() ==> s[k] == c,
    ensures
        first_at(s, c) == k,
{
    lemma_first_at(s, c);
}

/// A piece without the separator is cut off in front of the first one behind it.
pub(crate) proof fn lemma_cut(head: Seq<char>, tail: Seq<char>, n: nat, sep: char)
    requires
        n >= 2,
        !head.contains(sep),
    ensures
        pieces_of(head + seq![sep] + tail, n, sep) == seq![head] + pieces_of(
            tail,
            (n - 1) as nat,
            sep,
        ),
{
    let s = head + seq![sep] + tail;
    assert forall|i: int| 0 <= i < head.len() implies s[i] != sep by {
        assert(head.contains(head[i]));
    }
    lemma_first_at_is(s, sep, head.len() as int);
    assert(s.take(head.len() as int) == head);
    assert(s.skip(head.len() as int + 1) == tail);
}

/// No piece between separators holds one.
pub(crate) proof fn lemma_split_pieces(s: Seq<char>, sep: char)
    ensures
        forall|i: int| 0 <= i < split_of(s, sep).len() ==> !(#[trigger] split_of(s, sep)[i]).contains(
            sep,
        ),
    decreases s.len(),
{
    let k = first_at(s, sep);
    lemma_first_at(s, sep);
    if k < s.len() {
        lemma_split_pieces(s.skip(k + 1), sep);
        let rest = split_of(s.skip(k + 1), sep);
        assert forall|i: int| 0 <= i < split_of(s, sep).len() implies !(#[trigger] split_of(
            s,
            sep,
        )[i]).contains(sep) by {
            if i > 0 {
                assert(split_of(s, sep)[i] == rest[i - 1]);
            }
        }
    }
}

/// A piece without the separator is split off in front of the first one behind it, and
/// is all there is where there is none.
pub(crate) proof fn lemma_split_off(head: Seq<char>, tail: Seq<char>, sep: char)
    requires
        !head.contains(sep),
    ensures
        split_of(head, sep) == seq![head],
        split_of(head + seq![sep] + tail, sep) == seq![head] + split_of(tail, sep),
{
    let s = head + seq![sep] + tail;
    assert forall|i: int| 0 <= i < head.len() implies head[i] != sep && s[i] != sep by {
        assert(head.contains(head[i]));
    }
    lemma_first_at_is(head, sep, head.len() as int);
    lemma_first_at_is(s, sep, head.len() as int);
    assert(s.take(head.len() as int) == head);
    assert(s.skip(head.len() as int + 1) == tail);
}

/// Trimming leaves a text that neither starts nor ends with white space.
pub proof fn law_trimmed_has_no_space_around(s: Seq<char>)
    ensures
        trimmed(s).len() > 0 ==> !white_space(trimmed(s).first()) && !white_space(
            trimmed(s).last(),
        ),
{
    lemma_trimmed_start_shape(s);
    lemma_trimmed_end_shape(trimmed_start(s));
}

/// Trimming twice does no more than trimming once.
pub proof fn law_trimming_settles(s: Seq<char>)
    ensures
        trimmed(trimmed(s)) == trimmed(s),
{
    law_trimmed_has_no_space_around(s);
}

proof fn lemma_trimmed_start_shape(s: Seq<char>)
    ensures
        trimmed_start(s).len() > 0 ==> !white_space(trimmed_start(s).first()),
    decreases s.len(),
{
    if s.len() > 0 && white_space(s.first()) {
        lemma_trimmed_start_shape(s.drop_first());
    }
}

proof fn lemma_trimmed_end_shape(s: Seq<char>)
    ensures
        trimmed_end(s).len() > 0 ==> trimmed_end(s).first() == s.first() && !white_space(
            trimmed_end(s).last(),
        ),
    decreases s.len(),
{
    if s.len() > 0 && white_space(s.last()) {
        lemma_trimmed_end_shape(s.drop_last());
    }
}

/// The characters of a string, one by one.
pub fn chars_of(s: &str) -> (r: Vec<char>)
    ensures
        r@ == s@,
{
    let mut r: Vec<char> = Vec::new();
    for c in it: s.chars()
        invariant
            r@ == s@.take(it.index()),
            it.seq() == s@,
    {
        r.push(c);
    }
    r
}

/// The characters from `from` up to `to`, as a string.
pub fn text_of(cs: &Vec<char>, from: usize, to: usize) -> (r: String)
    requires
        from <= to <= cs@.len(),
    ensures
        r@ == cs@.subrange(from as int, to as int),
{
    let mut r = String::new();
    let mut i: usize = from;
    while i < to
        invariant
            from <= i <= to <= cs@.len(),
            r@ == cs@.subrange(from as int, i as int),
        decreases to - i,
    {
        r.push(cs[i]);
        i += 1;
        assert(cs@.subrange(from as int, i as int) == cs@.subrange(from as int, i - 1).push(
            cs@[i - 1],
        ));
    }
    r
}

/// Where `c` first occurs at or behind `from`, or the end.
fn find(cs: &Vec<char>, from: usize, c: char) -> (k: usize)
    requires
        from <= cs@.len(),
    ensures
        from <= k <= cs@.len(),
        k == from + first_at(cs@.skip(from as int), c),
{
    let mut k: usize = from;
    while k < cs.len() && cs[k] != c
        invariant
            from <= k <= cs@.len(),
            forall|i: int| from <= i < k ==> cs@[i] != c,
        decreases cs@.len() - k,
    {
        k += 1;
    }
    proof {
        lemma_first_at_is(cs@.skip(from as int), c, k - from);
    }
    k
}

proof fn lemma_trimmed_start(s: Seq<char>, k: int)
    requires
        0 <= k <= s.len(),
        forall|i: int| 0 <= i < k ==> white_space(s[i]),
        k < s.len() ==> !white_space(s[k]),
    ensures
        trimmed_start(s) == s.skip(k),
    decreases k,
{
    if k > 0 {
        lemma_trimmed_start(s.drop_first(), k - 1);
        assert(s.drop_first().skip(k - 1) == s.skip(k));
    } else {
        assert(s.skip(0) == s);
    }
}

proof fn lemma_trimmed_end(s: Seq<char>, k: int)
    requires
        0 <= k <= s.len(),
        forall|i: int| k <= i < s.len() ==> white_space(s[i]),
        k > 0 ==> !white_space(s[k - 1]),
    ensures
        trimmed_end(s) == s.take(k),
    decreases s.len(),
{
    if k < s.len() {
        lemma_trimmed_end(s.drop_last(), k);
        assert(s.drop_last().take(k) == s.take(k));
    } else {
        assert(s.take(k) == s);
    }
}

/// The text without the white space at either end.
pub fn trim(s: &str) -> (r: String)
    ensures
        r@ == trimmed(s@),
{
    let cs = chars_of(s);
    let mut from: usize = 0;
    while from < cs.len() && cs[from].is_whitespace()
        invariant
            cs@ == s@,
            from <= cs@.len(),
            forall|i: int| 0 <= i < from ==> white_space(cs@[i]),
        decreases cs@.len() - from,
    {
        from += 1;
    }
    let mut to: usize = cs.len();
    while to > from && cs[to - 1].is_whitespace()
        invariant
            cs@ == s@,
            from <= to <= cs@.len(),
            forall|i: int| to <= i < cs@.len() ==> white_space(cs@[i]),
        decreases to,
    {
        to -= 1;
    }
    proof {
        let rest = s@.skip(from as int);
        lemma_trimmed_start(s@, from as int);
        lemma_trimmed_end(rest, to - from);
        assert(rest.take(to - from) == s@.subrange(from as int, to as int));
    }
    text_of(&cs, from, to)
}

/// The lines of the text.
pub fn lines(s: &str) -> (r: Vec<String>)
    ensures
        texts(r@) == lines_of(s@),
{
    let cs = chars_of(s);
    let mut r: Vec<String> = Vec::new();
    let mut from: usize = 0;
    assert(s@.skip(0) == s@);
    while from < cs.len()
        invariant
            cs@ == s@,
            from <= cs@.len(),
            lines_of(s@) == texts(r@) + lines_of(s@.skip(from as int)),
        decreases cs@.len() - from,
    {
        let ghost rest = s@.skip(from as int);
        let k = find(&cs, from, '\n');
        if k < cs.len() {
            let to = if k > from && cs[k - 1] == '\r' {
                k - 1
            } else {
                k
            };
            let line = text_of(&cs, from, to);
            let ghost before = texts(r@);
            r.push(line);
            proof {
                assert(chomped(rest.take(k - from)) == line@);
                assert(texts(r@) == before.push(line@));
                assert(rest.skip(k - from + 1) == s@.skip(k + 1));
                assert(texts(r@) + lines_of(s@.skip(k + 1)) == before + (seq![line@] + lines_of(
                    s@.skip(k + 1),
                )));
            }
            from = k + 1;
        } else {
            let line = text_of(&cs, from, k);
            let ghost before = texts(r@);
            r.push(line);
            proof {
                assert(rest == line@);
                assert(texts(r@) == before.push(line@));
                assert(s@.skip(k as int) == Seq::<char>::empty());
                assert(texts(r@) + lines_of(s@.skip(k as int)) == before + seq![line@]);
            }
            from = k;
        }
    }
    proof {
        assert(s@.skip(from as int) == Seq::<char>::empty());
        assert(texts(r@) + lines_of(s@.skip(from as int)) == texts(r@));
    }
    r
}

/// At most `n` pieces of the text, cut at the first occurrences of `sep`.
pub fn split_at_most(s: &str, n: usize, sep: char) -> (r: Vec<String>)
    ensures
        texts(r@) == pieces_of(s@, n as nat, sep),
{
    let cs = chars_of(s);
    let mut r: Vec<String> = Vec::new();
    let mut from: usize = 0;
    let mut left: usize = n;
    assert(s@.skip(0) == s@);
    while left > 0
        invariant
            cs@ == s@,
            from <= cs@.len(),
            pieces_of(s@, n as nat, sep) == texts(r@) + pieces_of(
                s@.skip(from as int),
                left as nat,
                sep,
            ),
        decreases left,
    {
        let ghost rest = s@.skip(from as int);
        let k = if left == 1 {
            cs.len()
        } else {
            find(&cs, from, sep)
        };
        let piece = text_of(&cs, from, k);
        let ghost before = texts(r@);
        r.push(piece);
        assert(texts(r@) == before.push(piece@));
        if k < cs.len() {
            proof {
                assert(rest.take(k - from) == piece@);
                assert(rest.skip(k - from + 1) == s@.skip(k + 1));
                assert(texts(r@) + pieces_of(s@.skip(k + 1), (left - 1) as nat, sep) == before + (
                seq![piece@] + pieces_of(s@.skip(k + 1), (left - 1) as nat, sep)));
            }
            from = k + 1;
            left -= 1;
        } else {
            proof {
                assert(rest == piece@);
                assert(texts(r@) == before + seq![piece@]);
                assert(texts(r@) + pieces_of(rest, 0, sep) == texts(r@));
            }
            left = 0;
        }
    }
    assert(texts(r@) + pieces_of(s@.skip(from as int), 0, sep) == texts(r@));
    r
}

/// All the pieces of the text between occurrences of `sep`.
pub fn split(s: &str, sep: char) -> (r: Vec<String>)
    ensures
        texts(r@) == split_of(s@, sep),
{
    let cs = chars_of(s);
    let mut r: Vec<String> = Vec::new();
    let mut from: usize = 0;
    assert(s@.skip(0) == s@);
    assert(texts(r@) + split_of(s@, sep) == split_of(s@, sep));
    loop
        invariant
            cs@ == s@,
            from <= cs@.len(),
            split_of(s@, sep) == texts(r@) + split_of(s@.skip(from as int), sep),
        decreases cs@.len() - from,
    {
        let ghost rest = s@.skip(from as int);
        let k = find(&cs, from, sep);
        let piece = text_of(&cs, from, k);
        let ghost before = texts(r@);
        r.push(piece);
        proof {
            assert(texts(r@) == before.push(piece@));
            assert(rest.take(k - from) == piece@);
        }
        if k == cs.len() {
            assert(rest == piece@);
            assert(texts(r@) == before + seq![piece@]);
            return r;
        }
        proof {
            assert(rest.skip(k - from + 1) == s@.skip(k + 1));
            assert(texts(r@) + split_of(s@.skip(k + 1), sep) == before + (seq![piece@] + split_of(
                s@.skip(k + 1),
                sep,
            )));
        }
        from = k + 1;
    }
}

/// Whether two texts are the same.
pub fn same(a: &str, b: &str) -> (r: bool)
    ensures
        r == (a@ == b@),
{
    a.to_owned() == b.to_owned()
}

/// Whether the text starts with `prefix`.
pub fn starts_with(s: &str, prefix: &str) -> (r: bool)
    ensures
        r == prefix@.is_prefix_of(s@),
{
    let cs = chars_of(s);
    let ps = chars_of(prefix);
    if ps.len() > cs.len() {
        return false;
    }
    let mut i: usize = 0;
    while i < ps.len()
        invariant
            cs@ == s@,
            ps@ == prefix@,
            i <= ps@.len() <= cs@.len(),
            ps@.take(i as int) == cs@.take(i as int),
        decreases ps@.len() - i,
    {
        if ps[i] != cs[i] {
            assert(prefix@[i as int] != s@.take(prefix@.len() as int)[i as int]);
            return false;
        }
        i += 1;
        assert(ps@.take(i as int) == ps@.take(i - 1).push(ps@[i - 1]));
        assert(cs@.take(i as int) == cs@.take(i - 1).push(cs@[i - 1]));
    }
    assert(ps@.take(i as int) == prefix@);
    true
}

/// One owned string for each of the given texts.
pub fn owned(list: Vec<&str>) -> (r: Vec<String>)
    ensures
        texts(r@) == list@.map_values(|s: &str| s@),
{
    let mut r: Vec<String> = Vec::new();
    let mut i: usize = 0;
    while i < list.len()
        invariant
            i <= list@.len(),
            texts(r@) == list@.take(i as int).map_values(|s: &str| s@),
        decreases list@.len() - i,
    {
        let s = list[i].to_owned();
        let ghost before = texts(r@);
        r.push(s);
        i += 1;
        assert(texts(r@) == before.push(s@));
        assert(list@.take(i as int) == list@.take(i - 1).push(list@[i - 1]));
    }
    assert(list@.take(i as int) == list@);
    r
}

/// What `String::from_utf8_lossy` makes of these bytes.
pub uninterp spec fn utf8_lossy(bytes: Seq<u8>) -> Seq<char>;

/// `String::from_utf8_lossy`: the text that the bytes encode. Bytes that are valid
/// UTF-8 come out as the characters they encode; what stands for the others is
/// left to `utf8_lossy`, a function of the bytes alone.
#[verifier::external_body]
pub(crate) fn from_utf8_lossy(bytes: &[u8]) -> (r: String)
    ensures
        r@ == utf8_lossy(bytes@),
        vstd::utf8::valid_utf8(bytes@) ==> r@ == vstd::utf8::decode_utf8(bytes@),
{
    String::from_utf8_lossy(bytes).into_owned()
}

/// Trimming takes off just the white space at the ends: what stands between it stays as
/// it is, with all the white space inside.
pub proof fn law_trimming_keeps_what_is_between(
    before: Seq<char>,
    middle: Seq<char>,
    after: Seq<char>,
)
    requires
        forall|i: int| 0 <= i < before.len() ==> white_space(#[trigger] before[i]),
        forall|i: int| 0 <= i < after.len() ==> white_space(#[trigger] after[i]),
        middle.len() > 0 ==> !white_space(middle.first()) && !white_space(middle.last()),
    ensures
        trimmed(before + middle + after) == middle,
{
    let s = before + middle + after;
    if middle.len() == 0 {
        assert forall|i: int| 0 <= i < s.len() implies white_space(s[i]) by {
            if i < before.len() {
                assert(s[i] == before[i]);
            } else {
                assert(s[i] == after[i - before.len()]);
            }
        }
        lemma_trimmed_start(s, s.len() as int);
        assert(s.skip(s.len() as int) == middle);
    } else {
        let k = before.len() as int;
        assert(s[k] == middle[0]);
        assert forall|i: int| 0 <= i < k implies white_space(s[i]) by {
            assert(s[i] == before[i]);
        }
        lemma_trimmed_start(s, k);
        let t = s.skip(k);
        assert(t == middle + after);
        assert forall|i: int| middle.len() <= i < t.len() implies white_space(t[i]) by {
            assert(t[i] == after[i - middle.len()]);
        }
        assert(t[middle.len() - 1] == middle.last());
        lemma_trimmed_end(t, middle.len() as int);
        assert(t.take(middle.len() as int) == middle);
    }
}

/// The same of the text that is handed out.
pub proof fn law_trim_keeps_what_is_between(
    s: &str,
    r: String,
    before: Seq<char>,
    middle: Seq<char>,
    after: Seq<char>,
)
    requires
        call_ensures(trim, (s,), r),
        s@ == before + middle + after,
        forall|i: int| 0 <= i < before.len() ==> white_space(#[trigger] before[i]),
        forall|i: int| 0 <= i < after.len() ==> white_space(#[trigger] after[i]),
        middle.len() > 0 ==> !white_space(middle.first()) && !white_space(middle.last()),
    ensures
        r@ == middle,
{
    law_trimming_keeps_what_is_between(before, middle, after);
}

/// A line ends at a line feed, or at a carriage return and a line feed, neither of which
/// belongs to it, and the lines behind are those of the rest. What has no line feed is one
/// line, and nothing is none.
pub proof fn law_lines_end_at_line_feeds(line: Seq<char>, rest: Seq<char>)
    requires
        !line.contains('\n'),
    ensures
        lines_of(Seq::empty()) == Seq::<Seq<char>>::empty(),
        line.len() > 0 ==> lines_of(line) == seq![line],
        line.len() == 0 || line.last() != '\r' ==> lines_of(line + seq!['\n'] + rest) == seq![line]
            + lines_of(rest),
        lines_of(line + seq!['\r', '\n'] + rest) == seq![line] + lines_of(rest),
{
    let n = line.len() as int;
    assert forall|i: int| 0 <= i < n implies line[i] != '\n' by {
        assert(line.contains(line[i]));
    }
    lemma_first_at_is(line, '\n', n);
    let lf = line + seq!['\n'] + rest;
    lemma_first_at_is(lf, '\n', n);
    assert(lf.take(n) == line);
    assert(lf.skip(n + 1) == rest);
    let crlf = line + seq!['\r', '\n'] + rest;
    assert(crlf[n] == '\r');
    assert forall|i: int| 0 <= i < n + 1 implies crlf[i] != '\n' by {
        if i < n {
            assert(crlf[i] == line[i]);
        }
    }
    lemma_first_at_is(crlf, '\n', n + 1);
    assert(crlf.take(n + 1).last() == '\r');
    assert(crlf.take(n + 1).drop_last() == line);
    assert(crlf.skip(n + 2) == rest);
}

/// A text is cut at the first separators, into no more pieces than are asked for: the last
/// piece keeps the rest as it is.
pub proof fn law_pieces_are_cut_at_first_separators(
    head: Seq<char>,
    tail: Seq<char>,
    n: nat,
    sep: char,
)
    requires
        !head.contains(sep),
    ensures
        n >= 1 ==> pieces_of(head, n, sep) == seq![head],
        pieces_of(tail, 1, sep) == seq![tail],
        pieces_of(tail, 0, sep) == Seq::<Seq<char>>::empty(),
        n >= 2 ==> pieces_of(head + seq![sep] + tail, n, sep) == seq![head] + pieces_of(
            tail,
            (n - 1) as nat,
            sep,
        ),
{
    assert forall|i: int| 0 <= i < head.len() implies head[i] != sep by {
        assert(head.contains(head[i]));
    }
    lemma_first_at_is(head, sep, head.len() as int);
    if n >= 2 {
        lemma_cut(head, tail, n, sep);
    }
}

/// A text is split at every separator.
pub proof fn law_text_is_split_at_separators(head: Seq<char>, tail: Seq<char>, sep: char)
    requires
        !head.contains(sep),
    ensures
        split_of(head, sep) == seq![head],
        split_of(head + seq![sep] + tail, sep) == seq![head] + split_of(tail, sep),
{
    lemma_split_off(head, tail, sep);
}

} // verus!
