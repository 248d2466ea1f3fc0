//! Text helpers shared by the web bridge and the fleet code: comparison,
//! trimming, splitting and decimal formatting, stated over `Seq<char>`.

use vstd::prelude::*;

verus! {

/// `String::push`: the given character is appended to the end of the string.
pub assume_specification[ String::push ](string: &mut String, ch: char)
    ensures
        final(string)@ == old(string)@.push(ch),
;

/// `text` begins with `prefix`.
pub open spec fn starts_with(text: Seq<char>, prefix: Seq<char>) -> bool {
    prefix.len() <= text.len() && text.take(prefix.len() as int) == prefix
}

/// `text` ends with `suffix`.
pub open spec fn ends_with(text: Seq<char>, suffix: Seq<char>) -> bool {
    suffix.len() <= text.len() && text.skip(text.len() - suffix.len()) == suffix
}

/// What follows the first occurrence of `pattern` in `text`, if it occurs.
pub open spec fn after_first(text: Seq<char>, pattern: Seq<char>) -> Option<Seq<char>>
    decreases text.len(),
{
    if starts_with(text, pattern) {
        Some(text.skip(pattern.len() as int))
    } else if text.len() == 0 {
        None
    } else {
        after_first(text.skip(1), pattern)
    }
}

/// What precedes the first `stop` in `text`; all of `text` where there is none.
pub open spec fn before_first(text: Seq<char>, stop: char) -> Seq<char>
    decreases text.len(),
{
    if text.len() == 0 || text[0] == stop {
        Seq::empty()
    } else {
        seq![text[0]] + before_first(text.skip(1), stop)
    }
}

/// `text` without the run of `c` that it starts with.
pub open spec fn trim_leading(text: Seq<char>, c: char) -> Seq<char>
    decreases text.len(),
{
    if text.len() > 0 && text[0] == c {
        trim_leading(text.skip(1), c)
    } else {
        text
    }
}

/// The Unicode `White_Space` property.
pub open spec fn white_space(c: char) -> bool {
    ||| '\u{9}' <= c <= '\u{d}'
    ||| c == '\u{20}'
    ||| c == '\u{85}'
    ||| c == '\u{a0}'
    ||| c == '\u{1680}'
    ||| '\u{2000}' <= c <= '\u{200a}'
    ||| c == '\u{2028}'
    ||| c == '\u{2029}'
    ||| c == '\u{202f}'
    ||| c == '\u{205f}'
    ||| c == '\u{3000}'
}

/// `text` without the white space that it starts with.
pub open spec fn trim_start(text: Seq<char>) -> Seq<char>
    decreases text.len(),
{
    if text.len() > 0 && white_space(text[0]) {
        trim_start(text.skip(1))
    } else {
        text
    }
}

/// `text` without the white space that it ends with.
pub open spec fn trim_end(text: Seq<char>) -> Seq<char>
    decreases text.len(),
{
    if text.len() > 0 && white_space(text.last()) {
        trim_end(text.drop_last())
    } else {
        text
    }
}

/// `text` without the white space at either end.
pub open spec fn trimmed(text: Seq<char>) -> Seq<char> {
    trim_end(trim_start(text))
}

/// The pieces of `text` between its separators, empty ones included: one more
/// than there are separators.
pub open spec fn pieces(text: Seq<char>, separator: char) -> Seq<Seq<char>>
    decreases text.len(),
{
    if text.len() == 0 {
        seq![Seq::<char>::empty()]
    } else {
        let before = pieces(text.drop_last(), separator);
        if text.last() == separator {
            before.push(Seq::empty())
        } else {
            before.drop_last().push(before.last().push(text.last()))
        }
    }
}

/// The decimal digit of `d`.
pub open spec fn digit(d: nat) -> char {
    (48 + d) as char
}

/// `n` in decimal, without leading zeros.
pub open spec fn decimal(n: nat) -> Seq<char>
    decreases n,
{
    if n < 10 {
        seq![digit(n)]
    } else {
        decimal(n / 10).push(digit(n % 10))
    }
}

/// Whether two texts hold the same characters.
pub fn same_text(a: &str, b: &str) -> (same: bool)
    ensures
        same == (a@ == b@),
{
    a.to_string() == b.to_string()
}

/// The characters of a text.
pub fn chars_of(text: &str) -> (chars: Vec<char>)
    ensures
        chars@ == text@,
{
    let mut chars: Vec<char> = Vec::new();
    for c in it: text.chars()
        invariant
            chars@ == text@.take(it.index()),
            it.seq() == text@,
    {
        chars.push(c);
    }
    chars
}

/// Whether `text` begins with `prefix`.
pub fn has_prefix(text: &str, prefix: &str) -> (yes: bool)
    ensures
        yes == starts_with(text@, prefix@),
{
    let n = text.unicode_len();
    let k = prefix.unicode_len();
    k <= n && same_text(text.substring_char(0, k), prefix)
}

/// Whether `text` ends with `suffix`.
pub fn has_suffix(text: &str, suffix: &str) -> (yes: bool)
    ensures
        yes == ends_with(text@, suffix@),
{
    let n = text.unicode_len();
    let k = suffix.unicode_len();
    k <= n && same_text(text.substring_char(n - k, n), suffix)
}

/// What follows the first occurrence of `pattern` in `text`.
pub fn rest_after(text: &str, pattern: &str) -> (rest: Option<String>)
    ensures
        rest.deep_view() == after_first(text@, pattern@),
{
    let n = text.unicode_len();
    let k = pattern.unicode_len();
    let mut i: usize = 0;
    assert(text@.skip(0) == text@);
    loop
        invariant
            i <= n,
            n == text@.len(),
            k == pattern@.len(),
            after_first(text@, pattern@) == after_first(text@.skip(i as int), pattern@),
        decreases n - i,
    {
        let tail = text.substring_char(i, n);
        assert(tail@ == text@.skip(i as int));
        if has_prefix(tail, pattern) {
            let rest = tail.substring_char(k, n - i);
            assert(rest@ == tail@.skip(k as int));
            return Some(rest.to_string());
        }
        if i == n {
            return None;
        }
        assert(text@.skip(i as int).skip(1) == text@.skip(i + 1));
        i = i + 1;
    }
}

/// What precedes the first `stop` in `text`.
pub fn head_before(text: &str, stop: char) -> (head: String)
    ensures
        head@ == before_first(text@, stop),
{
    let chars = chars_of(text);
    let mut i: usize = 0;
    assert(text@.skip(0) == text@);
    while i < chars.len() && chars[i] != stop
        invariant
            i <= chars@.len(),
            chars@ == text@,
            before_first(text@, stop) == text@.take(i as int) + before_first(
                text@.skip(i as int),
                stop,
            ),
        decreases chars@.len() - i,
    {
        assert(text@.skip(i as int).skip(1) == text@.skip(i + 1));
        assert(text@.take(i + 1) == text@.take(i as int) + seq![text@[i as int]]);
        i = i + 1;
    }
    text.substring_char(0, i).to_string()
}

/// `text` without the run of `c` that it starts with.
pub fn without_leading(text: &str, c: char) -> (rest: String)
    ensures
        rest@ == trim_leading(text@, c),
{
    let chars = chars_of(text);
    let mut i: usize = 0;
    assert(text@.skip(0) == text@);
    while i < chars.len() && chars[i] == c
        invariant
            i <= chars@.len(),
            chars@ == text@,
            trim_leading(text@, c) == trim_leading(text@.skip(i as int), c),
        decreases chars@.len() - i,
    {
        assert(text@.skip(i as int).skip(1) == text@.skip(i + 1));
        i = i + 1;
    }
    text.substring_char(i, chars.len()).to_string()
}

/// Whether `c` is white space.
fn is_white_space(c: char) -> (yes: bool)
    ensures
        yes == white_space(c),
{
    ('\u{9}' <= c && c <= '\u{d}') || c == '\u{20}' || c == '\u{85}' || c == '\u{a0}' || c
        == '\u{1680}' || ('\u{2000}' <= c && c <= '\u{200a}') || c == '\u{2028}' || c == '\u{2029}'
        || c == '\u{202f}' || c == '\u{205f}' || c == '\u{3000}'
}

/// `text` without the white space at either end.
pub fn trim(text: &str) -> (inner: String)
    ensures
        inner@ == trimmed(text@),
{
    let chars = chars_of(text);
    let mut lo: usize = 0;
    assert(text@.skip(0) == text@);
    while lo < chars.len() && is_white_space(chars[lo])
        invariant
            lo <= chars@.len(),
            chars@ == text@,
            trim_start(text@) == trim_start(text@.skip(lo as int)),
        decreases chars@.len() - lo,
    {
        assert(text@.skip(lo as int).skip(1) == text@.skip(lo + 1));
        lo = lo + 1;
    }
    let mut hi: usize = chars.len();
    assert(text@.skip(lo as int) == text@.subrange(lo as int, hi as int));
    while lo < hi && is_white_space(chars[hi - 1])
        invariant
            lo <= hi <= chars@.len(),
            chars@ == text@,
            trimmed(text@) == trim_end(text@.subrange(lo as int, hi as int)),
        decreases hi - lo,
    {
        assert(text@.subrange(lo as int, hi as int).drop_last() == text@.subrange(
            lo as int,
            hi - 1,
        ));
        hi = hi - 1;
    }
    text.substring_char(lo, hi).to_string()
}

/// The pieces of `text` between its separators, empty ones included.
pub fn split(text: &str, separator: char) -> (parts: Vec<String>)
    ensures
        parts.deep_view() == pieces(text@, separator),
{
    let mut parts: Vec<String> = Vec::new();
    let mut current = String::new();
    assert(parts.deep_view().push(current@) == pieces(text@.take(0), separator));
    for c in it: text.chars()
        invariant
            it.seq() == text@,
            parts.deep_view().push(current@) == pieces(text@.take(it.index()), separator),
    {
        let ghost done = text@.take(it.index());
        let ghost before = parts.deep_view();
        assert(text@.take(it.index() + 1).drop_last() == done);
        assert(before.push(current@).drop_last() == before);
        if c == separator {
            parts.push(current);
            current = String::new();
            assert(parts.deep_view() == before.push(parts@.last()@));
        } else {
            current.push(c);
        }
    }
    assert(text@.take(text@.len() as int) == text@);
    let ghost before = parts.deep_view();
    parts.push(current);
    assert(parts.deep_view() == before.push(current@));
    parts
}

/// A copy of a list of texts.
pub fn copy_all(texts: &[String]) -> (copies: Vec<String>)
    ensures
        copies.deep_view() == texts.deep_view(),
{
    let mut copies: Vec<String> = Vec::new();
    for i in 0..texts.len()
        invariant
            copies.deep_view() == texts.deep_view().take(i as int),
    {
        let ghost before = copies.deep_view();
        copies.push(texts[i].clone());
        assert(copies.deep_view() == before.push(texts.deep_view()[i as int]));
    }
    copies
}

/// `n` in decimal.
pub fn decimal_text(n: u16) -> (text: String)
    ensures
        text@ == decimal(n as nat),
    decreases n,
{
    let mut text = String::new();
    if n >= 10 {
        text = decimal_text(n / 10);
    }
    text.push((48u8 + (n % 10) as u8) as char);
    text
}

/// `pieces`, put together again with the separator between them.
pub open spec fn joined(parts: Seq<Seq<char>>, separator: char) -> Seq<char>
    decreases parts.len(),
{
    if parts.len() == 0 {
        Seq::empty()
    } else if parts.len() == 1 {
        parts[0]
    } else {
        joined(parts.drop_last(), separator).push(separator) + parts.last()
    }
}

/// Splitting loses nothing and splits everywhere: no piece holds the separator,
/// and the pieces with the separator between them are the text.
pub proof fn lemma_pieces(text: Seq<char>, separator: char)
    ensures
        pieces(text, separator).len() > 0,
        forall|i: int|
            0 <= i < pieces(text, separator).len() ==> !(#[trigger] pieces(
                text,
                separator,
            )[i]).contains(separator),
        joined(pieces(text, separator), separator) == text,
    decreases text.len(),
{
    let all = pieces(text, separator);
    if text.len() > 0 {
        let init = text.drop_last();
        let before = pieces(init, separator);
        lemma_pieces(init, separator);
        if text.last() == separator {
            assert(all.drop_last() == before);
            assert(joined(all, separator) == text);
        } else {
            assert(all.drop_last() == before.drop_last());
            let last = before.last().push(text.last());
            assert(!before.last().contains(separator));
            assert forall|k: int| 0 <= k < last.len() implies last[k] != separator by {
                if k < before.last().len() {
                    assert(before.last()[k] == last[k]);
                }
            }
            assert forall|i: int| 0 <= i < all.len() implies !(#[trigger] all[i]).contains(
                separator,
            ) by {
                if i < all.len() - 1 {
                    assert(all[i] == before[i]);
                }
            }
            assert(joined(all, separator) == joined(before, separator).push(text.last())) by {
                if before.len() > 1 {
                    let head = joined(before.drop_last(), separator).push(separator);
                    assert(joined(all, separator) == head + last);
                    assert(joined(before, separator) == head + before.last());
                }
            }
            assert(joined(all, separator) == text);
        }
    } else {
        assert(joined(all, separator) == text);
    }
}

/// Trimming keeps a run of the text, drops white space only, and leaves none at
/// either end.
pub proof fn lemma_trimmed(text: Seq<char>) -> (bounds: (int, int))
    ensures
        0 <= bounds.0 <= bounds.1 <= text.len(),
        trimmed(text) == text.subrange(bounds.0, bounds.1),
        forall|i: int| 0 <= i < bounds.0 ==> white_space(#[trigger] text[i]),
        forall|i: int| bounds.1 <= i < text.len() ==> white_space(#[trigger] text[i]),
        trimmed(text).len() > 0 ==> !white_space(trimmed(text)[0]) && !white_space(
            trimmed(text).last(),
        ),
{
    let lo = lemma_trim_start(text);
    let inner = trim_start(text);
    let kept = lemma_trim_end(inner);
    assert(trimmed(text) == text.subrange(lo, lo + kept));
    assert forall|i: int| lo + kept <= i < text.len() implies white_space(#[trigger] text[i]) by {
        assert(inner[i - lo] == text[i]);
    }
    (lo, lo + kept)
}

proof fn lemma_trim_start(text: Seq<char>) -> (lo: int)
    ensures
        0 <= lo <= text.len(),
        trim_start(text) == text.skip(lo),
        forall|i: int| 0 <= i < lo ==> white_space(#[trigger] text[i]),
        lo < text.len() ==> !white_space(text[lo]),
    decreases text.len(),
{
    if text.len() > 0 && white_space(text[0]) {
        let rest = text.skip(1);
        let lo = lemma_trim_start(rest);
        assert(rest.skip(lo) == text.skip(lo + 1));
        assert forall|i: int| 0 <= i < lo + 1 implies white_space(#[trigger] text[i]) by {
            if i > 0 {
                assert(rest[i - 1] == text[i]);
            }
        }
        lo + 1
    } else {
        assert(text.skip(0) == text);
        0
    }
}

proof fn lemma_trim_end(text: Seq<char>) -> (hi: int)
    ensures
        0 <= hi <= text.len(),
        trim_end(text) == text.take(hi),
        forall|i: int| hi <= i < text.len() ==> white_space(#[trigger] text[i]),
        hi > 0 ==> !white_space(text[hi - 1]),
    decreases text.len(),
{
    if text.len() > 0 && white_space(text.last()) {
        let init = text.drop_last();
        let hi = lemma_trim_end(init);
        assert(init.take(hi) == text.take(hi));
        assert forall|i: int| hi <= i < text.len() implies white_space(#[trigger] text[i]) by {
            if i < text.len() - 1 {
                assert(init[i] == text[i]);
            }
        }
        hi
    } else {
        assert(text.take(text.len() as int) == text);
        text.len() as int
    }
}

/// A text begins with another exactly where it is that text with something after it.
pub proof fn lemma_starts_with(text: Seq<char>, prefix: Seq<char>)
    ensures
        starts_with(text, prefix) <==> exists|rest: Seq<char>| text == #[trigger] (prefix + rest),
{
    if starts_with(text, prefix) {
        assert(text == prefix + text.skip(prefix.len() as int));
    }
    if exists|rest: Seq<char>| text == #[trigger] (prefix + rest) {
        let rest = choose|rest: Seq<char>| text == #[trigger] (prefix + rest);
        assert((prefix + rest).take(prefix.len() as int) == prefix);
    }
}

/// A text ends with another exactly where it is that text with something before it.
pub proof fn lemma_ends_with(text: Seq<char>, suffix: Seq<char>)
    ensures
        ends_with(text, suffix) <==> exists|head: Seq<char>| text == #[trigger] (head + suffix),
{
    if ends_with(text, suffix) {
        assert(text == text.take(text.len() - suffix.len()) + suffix);
    }
    if exists|head: Seq<char>| text == #[trigger] (head + suffix) {
        let head = choose|head: Seq<char>| text == #[trigger] (head + suffix);
        assert((head + suffix).skip(head.len() as int) == suffix);
    }
}

/// `pattern` stands in `text` from index `i` on.
pub open spec fn occurs_at(text: Seq<char>, pattern: Seq<char>, i: int) -> bool {
    0 <= i <= text.len() - pattern.len() && text.subrange(i, i + pattern.len()) == pattern
}

/// What follows the first occurrence of a pattern is the end of the text; the pattern
/// stands right before it, and nowhere earlier. There is none exactly where the
/// pattern does not occur.
pub proof fn lemma_after_first(text: Seq<char>, pattern: Seq<char>) -> (head: Seq<char>)
    ensures
        match after_first(text, pattern) {
            Some(rest) => {
                &&& text == head + pattern + rest
                &&& forall|i: int| 0 <= i < head.len() ==> !#[trigger] occurs_at(text, pattern, i)
            },
            None => forall|i: int| !#[trigger] occurs_at(text, pattern, i),
        },
    decreases text.len(),
{
    if starts_with(text, pattern) {
        assert(text == Seq::<char>::empty() + pattern + text.skip(pattern.len() as int));
        Seq::empty()
    } else if text.len() == 0 {
        assert forall|i: int| !#[trigger] occurs_at(text, pattern, i) by {
            if occurs_at(text, pattern, i) {
                assert(text.take(0) == text.subrange(i, i + pattern.len()));
            }
        }
        Seq::empty()
    } else {
        let rest = text.skip(1);
        let later = lemma_after_first(rest, pattern);
        let head = seq![text[0]] + later;
        assert forall|i: int| #[trigger] occurs_at(text, pattern, i) implies i > 0 && occurs_at(
            rest,
            pattern,
            i - 1,
        ) by {
            if i == 0 {
                assert(text.take(pattern.len() as int) == text.subrange(0, pattern.len() as int));
            } else {
                assert(rest.subrange(i - 1, i - 1 + pattern.len()) == text.subrange(
                    i,
                    i + pattern.len(),
                ));
            }
        }
        if let Some(end) = after_first(text, pattern) {
            assert(text == seq![text[0]] + rest);
            assert(text == head + pattern + end);
        }
        head
    }
}

/// A text without the stop is the head of itself, and of itself with the stop and
/// anything else after it.
pub proof fn lemma_before_first(head: Seq<char>, rest: Seq<char>, stop: char)
    requires
        !head.contains(stop),
        rest.len() == 0 || rest[0] == stop,
    ensures
        before_first(head + rest, stop) == head,
    decreases head.len(),
{
    let text = head + rest;
    if head.len() > 0 {
        let tail = head.skip(1);
        assert(head.contains(head[0]));
        assert forall|c: char| tail.contains(c) implies head.contains(c) by {
            let i = choose|i: int| 0 <= i < tail.len() && tail[i] == c;
            assert(head[i + 1] == c);
        }
        lemma_before_first(tail, rest, stop);
        assert(text.skip(1) == tail + rest);
        assert(seq![head[0]] + tail == head);
    }
}

/// A leading run of a character is taken off, all of it and nothing else.
pub proof fn lemma_trim_leading(run: Seq<char>, rest: Seq<char>, c: char)
    requires
        forall|i: int| 0 <= i < run.len() ==> #[trigger] run[i] == c,
        rest.len() == 0 || rest[0] != c,
    ensures
        trim_leading(run + rest, c) == rest,
    decreases run.len(),
{
    let text = run + rest;
    if run.len() > 0 {
        assert(text[0] == run[0]);
        assert(text.skip(1) == run.skip(1) + rest);
        lemma_trim_leading(run.skip(1), rest, c);
    } else {
        assert(text == rest);
    }
}

/// White space, by its code points: the ASCII controls from tab to carriage return and
/// the space, next line and the no-break space, and the space and line separators
/// beyond Latin-1.
pub proof fn lemma_white_space(c: char)
    ensures
        white_space(c) <==> {
            let code = c as int;
            ||| code == 32 || code == 9 || code == 10 || code == 11 || code == 12 || code == 13
            ||| code == 133 || code == 160 || code == 5760
            ||| 8192 <= code <= 8202
            ||| code == 8232 || code == 8233 || code == 8239 || code == 8287 || code == 12288
        },
{
}

/// Trimming takes off the white space around a text that neither starts nor ends with
/// any, and nothing else.
pub proof fn lemma_trim(left: Seq<char>, inner: Seq<char>, right: Seq<char>)
    requires
        forall|i: int| 0 <= i < left.len() ==> white_space(#[trigger] left[i]),
        forall|i: int| 0 <= i < right.len() ==> white_space(#[trigger] right[i]),
        inner.len() > 0 ==> !white_space(inner[0]) && !white_space(inner.last()),
    ensures
        trimmed(left + inner + right) == inner,
{
    let text = left + inner + right;
    let (lo, hi) = lemma_trimmed(text);
    let p = left.len() as int;
    let q = p + inner.len();
    assert forall|i: int| 0 <= i < text.len() && (i < p || q <= i) implies white_space(
        #[trigger] text[i],
    ) by {
        if i < p {
            assert(text[i] == left[i]);
        } else {
            assert(text[i] == right[i - q]);
        }
    }
    if lo < hi {
        assert(trimmed(text)[0] == text[lo]);
        assert(trimmed(text).last() == text[hi - 1]);
    }
    if inner.len() > 0 {
        assert(text[p] == inner[0]);
        assert(text[q - 1] == inner.last());
        assert(lo <= p && q <= hi);
        assert(lo == p && hi == q);
        assert(text.subrange(p, q) == inner);
    } else {
        assert(lo == hi);
        assert(trimmed(text) == inner);
    }
}

/// A text without the separator is its only piece.
pub proof fn lemma_one_piece(text: Seq<char>, separator: char)
    requires
        !text.contains(separator),
    ensures
        pieces(text, separator) == seq![text],
    decreases text.len(),
{
    if text.len() > 0 {
        let init = text.drop_last();
        assert(text.contains(text.last()));
        assert forall|c: char| init.contains(c) implies text.contains(c) by {
            let i = choose|i: int| 0 <= i < init.len() && init[i] == c;
            assert(text[i] == c);
        }
        lemma_one_piece(init, separator);
        assert(init.push(text.last()) == text);
        assert(pieces(text, separator) == seq![text]);
    } else {
        assert(text == Seq::<char>::empty());
    }
}

/// A separator splits: the pieces before it, then the pieces after it.
pub proof fn lemma_pieces_add(before: Seq<char>, after: Seq<char>, separator: char)
    ensures
        pieces(before + seq![separator] + after, separator) == pieces(before, separator) + pieces(
            after,
            separator,
        ),
    decreases after.len(),
{
    let text = before + seq![separator] + after;
    let first = pieces(before, separator);
    if after.len() == 0 {
        assert(text.drop_last() == before);
        assert(pieces(text, separator) == first + seq![Seq::<char>::empty()]);
    } else {
        let init = after.drop_last();
        assert(text.drop_last() == before + seq![separator] + init);
        assert(text.last() == after.last());
        lemma_pieces_add(before, init, separator);
        lemma_pieces(init, separator);
        let second = pieces(init, separator);
        assert((first + second).last() == second.last());
        assert((first + second).drop_last() == first + second.drop_last());
        assert(pieces(text, separator) == first + pieces(after, separator));
    }
}

/// The number that a text of decimal digits stands for.
pub open spec fn number(digits: Seq<char>) -> int
    decreases digits.len(),
{
    if digits.len() == 0 {
        0
    } else {
        10 * number(digits.drop_last()) + (digits.last() as int - 48)
    }
}

/// A number in decimal stands for that number, is made of digits alone, and has no
/// leading zero.
pub proof fn lemma_decimal(n: nat)
    ensures
        number(decimal(n)) == n,
        decimal(n).len() > 0,
        forall|i: int| 0 <= i < decimal(n).len() ==> '0' <= #[trigger] decimal(n)[i] <= '9',
        decimal(n)[0] == '0' ==> decimal(n).len() == 1,
    decreases n,
{
    if n < 10 {
        assert(decimal(n).drop_last() == Seq::<char>::empty());
        assert(number(decimal(n).drop_last()) == 0);
    } else {
        let higher = decimal(n / 10);
        lemma_decimal(n / 10);
        assert(decimal(n).drop_last() == higher);
        assert forall|i: int| 0 <= i < decimal(n).len() implies '0' <= #[trigger] decimal(n)[i]
            <= '9' by {
            if i < higher.len() {
                assert(decimal(n)[i] == higher[i]);
            }
        }
        assert(decimal(n)[0] == higher[0]);
        if higher[0] == '0' {
            assert(higher.drop_last() == Seq::<char>::empty());
            assert(number(higher.drop_last()) == 0);
            assert(number(higher) == 0);
        }
    }
}

} // verus!
