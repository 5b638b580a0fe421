//! Character-level text utilities with exact specifications: Unicode
//! whitespace, word splitting, trimming, byte offsets of UTF-8 text, and
//! string comparison and concatenation.
use vstd::prelude::*;

verus! {

/// Unicode `White_Space` characters (the set that `char::is_whitespace`,
/// `str::split_whitespace` and `str::trim_start` use).
pub open spec fn is_ws(c: char) -> bool {
    ||| ('\t' <= c && c <= '\r')
    ||| c == ' '
    ||| c == '\u{85}'
    ||| c == '\u{a0}'
    ||| c == '\u{1680}'
    ||| ('\u{2000}' <= c && c <= '\u{200a}')
    ||| c == '\u{2028}'
    ||| c == '\u{2029}'
    ||| c == '\u{202f}'
    ||| c == '\u{205f}'
    ||| c == '\u{3000}'
}

/// Index of the first non-whitespace character of `s` at or after `i`
/// (`s.len()` when there is none).
pub open spec fn skip_ws(s: Seq<char>, i: int) -> int
    decreases s.len() - i,
{
    if i >= s.len() {
        s.len() as int
    } else if is_ws(s[i]) {
        skip_ws(s, i + 1)
    } else {
        i
    }
}

/// Index of the first whitespace character of `s` at or after `i`
/// (`s.len()` when there is none).
pub open spec fn word_end(s: Seq<char>, i: int) -> int
    decreases s.len() - i,
{
    if i >= s.len() {
        s.len() as int
    } else if is_ws(s[i]) {
        i
    } else {
        word_end(s, i + 1)
    }
}

/// `s` without its leading whitespace.
pub open spec fn trim_start(s: Seq<char>) -> Seq<char> {
    s.subrange(skip_ws(s, 0), s.len() as int)
}

/// The first maximal run of non-whitespace characters of `s`, or the empty
/// sequence when `s` holds only whitespace.
pub open spec fn first_word(s: Seq<char>) -> Seq<char> {
    s.subrange(skip_ws(s, 0), word_end(s, skip_ws(s, 0)))
}

/// The whitespace-separated words of `s` from index `i` on, in order.
pub open spec fn words_from(s: Seq<char>, i: int) -> Seq<Seq<char>>
    decreases s.len() - i,
{
    if i < 0 || skip_ws(s, i) >= s.len() {
        Seq::empty()
    } else {
        let a = skip_ws(s, i);
        let e = word_end(s, a);
        proof {
            lemma_skip_ws_bounds(s, i);
            lemma_word_end_bounds(s, a);
        }
        seq![s.subrange(a, e)] + words_from(s, e)
    }
}

/// The whitespace-separated words of `s` (what `split_whitespace` yields).
pub open spec fn words(s: Seq<char>) -> Seq<Seq<char>> {
    words_from(s, 0)
}

/// The words joined with single spaces.
pub open spec fn join_spaced(ws: Seq<Seq<char>>) -> Seq<char>
    decreases ws.len(),
{
    if ws.len() == 0 {
        Seq::empty()
    } else if ws.len() == 1 {
        ws[0]
    } else {
        join_spaced(ws.drop_last()) + seq![' '] + ws.last()
    }
}

/// `s` preceded by one space, or nothing when `s` is empty.
pub open spec fn spaced(s: Seq<char>) -> Seq<char> {
    if s.len() == 0 {
        Seq::empty()
    } else {
        seq![' '] + s
    }
}

/// Number of bytes of the UTF-8 encoding of `c`.
pub open spec fn utf8_width(c: char) -> int {
    if (c as u32) < 0x80 {
        1
    } else if (c as u32) < 0x800 {
        2
    } else if (c as u32) < 0x10000 {
        3
    } else {
        4
    }
}

/// Number of bytes of the UTF-8 encoding of `s`.
pub open spec fn byte_len(s: Seq<char>) -> int
    decreases s.len(),
{
    if s.len() == 0 {
        0
    } else {
        utf8_width(s[0]) + byte_len(s.drop_first())
    }
}

/// The text of `s` from byte offset `b` on: `Some` exactly when `b` is a
/// character boundary of the UTF-8 encoding of `s` (what `str::get(b..)` gives).
pub open spec fn byte_suffix(s: Seq<char>, b: int) -> Option<Seq<char>>
    decreases s.len(),
{
    if b == 0 {
        Some(s)
    } else if b < 0 || s.len() == 0 || utf8_width(s[0]) > b {
        None
    } else {
        byte_suffix(s.drop_first(), b - utf8_width(s[0]))
    }
}

/// The text after the first word, as `s.get(first_word.len()..)` followed by
/// `trim_start` computes it (empty when that offset is no character boundary).
pub open spec fn after_first_word(s: Seq<char>) -> Seq<char> {
    match byte_suffix(s, byte_len(first_word(s))) {
        Some(t) => trim_start(t),
        None => Seq::empty(),
    }
}

/// `p` is a prefix of `s`.
pub open spec fn has_prefix(s: Seq<char>, p: Seq<char>) -> bool {
    p.len() <= s.len() && s.subrange(0, p.len() as int) == p
}

/// `a` is a suffix of `r`.
pub open spec fn has_suffix(r: Seq<char>, a: Seq<char>) -> bool {
    a.len() <= r.len() && r.subrange(r.len() - a.len(), r.len() as int) == a
}

/// `p` occurs in `s` as a contiguous piece.
pub open spec fn has_infix(s: Seq<char>, p: Seq<char>) -> bool {
    exists|i: int| 0 <= i && i + p.len() <= s.len() && #[trigger] s.subrange(i, i + p.len()) == p
}

/// Every character of `s` is an ASCII digit.
pub open spec fn all_ascii_digits(s: Seq<char>) -> bool {
    forall|i: int| 0 <= i < s.len() ==> '0' <= #[trigger] s[i] && s[i] <= '9'
}

/// A word: non-empty and free of whitespace.
pub open spec fn is_word(w: Seq<char>) -> bool {
    w.len() > 0 && forall|k: int| 0 <= k < w.len() ==> !is_ws(#[trigger] w[k])
}

/// Whitespace occurs in `r` only as single spaces between non-whitespace
/// characters: no leading, trailing or doubled spaces, and no other
/// whitespace.
pub open spec fn single_spaced(r: Seq<char>) -> bool {
    forall|i: int|
        0 <= i < r.len() && is_ws(#[trigger] r[i]) ==> {
            &&& r[i] == ' '
            &&& 0 < i < r.len() - 1
            &&& !is_ws(r[i - 1])
            &&& !is_ws(r[i + 1])
        }
}

pub proof fn lemma_skip_ws_bounds(s: Seq<char>, i: int)
    requires
        0 <= i <= s.len(),
    ensures
        i <= skip_ws(s, i) <= s.len(),
        skip_ws(s, i) < s.len() ==> !is_ws(s[skip_ws(s, i)]),
        forall|k: int| i <= k < skip_ws(s, i) ==> is_ws(#[trigger] s[k]),
    decreases s.len() - i,
{
    if i < s.len() && is_ws(s[i]) {
        lemma_skip_ws_bounds(s, i + 1);
    }
}

pub proof fn lemma_word_end_bounds(s: Seq<char>, i: int)
    requires
        0 <= i <= s.len(),
    ensures
        i <= word_end(s, i) <= s.len(),
        i < s.len() && !is_ws(s[i]) ==> i < word_end(s, i),
        word_end(s, i) < s.len() ==> is_ws(s[word_end(s, i)]),
        forall|k: int| i <= k < word_end(s, i) ==> !is_ws(#[trigger] s[k]),
    decreases s.len() - i,
{
    if i < s.len() && !is_ws(s[i]) {
        lemma_word_end_bounds(s, i + 1);
    }
}

/// The byte length used for offsets is the length of the UTF-8 encoding
/// that vstd gives to the characters of a `str`.
pub proof fn lemma_byte_len_is_encoding_len(s: Seq<char>)
    ensures
        byte_len(s) == vstd::utf8::encode_utf8(s).len(),
    decreases s.len(),
{
    if s.len() > 0 {
        vstd::utf8::char_is_scalar(s[0]);
        lemma_byte_len_is_encoding_len(s.drop_first());
    }
}

proof fn lemma_skip_ws_at(s: Seq<char>, k: int, m: int)
    requires
        0 <= k <= m <= s.len(),
        forall|j: int| k <= j < m ==> is_ws(#[trigger] s[j]),
        m == s.len() || !is_ws(s[m]),
    ensures
        skip_ws(s, k) == m,
    decreases m - k,
{
    if k < m {
        lemma_skip_ws_at(s, k + 1, m);
    }
}

proof fn lemma_word_end_at(s: Seq<char>, k: int, m: int)
    requires
        0 <= k <= m <= s.len(),
        forall|j: int| k <= j < m ==> !is_ws(#[trigger] s[j]),
        m == s.len() || is_ws(s[m]),
    ensures
        word_end(s, k) == m,
    decreases m - k,
{
    if k < m {
        lemma_word_end_at(s, k + 1, m);
    }
}

proof fn lemma_skip_ws_shift(s: Seq<char>, d: int, x: int)
    requires
        0 <= d <= s.len(),
        0 <= x <= s.len() - d,
    ensures
        skip_ws(s.skip(d), x) == skip_ws(s, x + d) - d,
    decreases s.len() - d - x,
{
    if x < s.len() - d {
        lemma_skip_ws_shift(s, d, x + 1);
    }
}

proof fn lemma_word_end_shift(s: Seq<char>, d: int, x: int)
    requires
        0 <= d <= s.len(),
        0 <= x <= s.len() - d,
    ensures
        word_end(s.skip(d), x) == word_end(s, x + d) - d,
    decreases s.len() - d - x,
{
    if x < s.len() - d {
        lemma_word_end_shift(s, d, x + 1);
    }
}

/// The words of `s` from index `i` on depend only on the text from `d <= i` on.
proof fn lemma_words_from_skip(s: Seq<char>, d: int, i: int)
    requires
        0 <= d <= i <= s.len(),
    ensures
        words_from(s, i) == words_from(s.skip(d), i - d),
    decreases s.len() - i,
{
    let t = s.skip(d);
    lemma_skip_ws_bounds(s, i);
    lemma_skip_ws_shift(s, d, i - d);
    let a = skip_ws(s, i);
    if a < s.len() {
        lemma_word_end_bounds(s, a);
        lemma_word_end_shift(s, d, a - d);
        let e = word_end(s, a);
        assert(t.subrange(a - d, e - d) =~= s.subrange(a, e));
        lemma_words_from_skip(s, d, e);
    }
}

/// Every word of `s` from index `i` on is a word.
pub proof fn lemma_words_are_words(s: Seq<char>, i: int)
    requires
        0 <= i <= s.len(),
    ensures
        forall|k: int|
            0 <= k < words_from(s, i).len() ==> is_word(#[trigger] words_from(s, i)[k]),
    decreases s.len() - i,
{
    lemma_skip_ws_bounds(s, i);
    let a = skip_ws(s, i);
    if a < s.len() {
        lemma_word_end_bounds(s, a);
        let e = word_end(s, a);
        lemma_words_are_words(s, e);
        let w = s.subrange(a, e);
        assert forall|k: int| 0 <= k < w.len() implies !is_ws(#[trigger] w[k]) by {
            assert(w[k] == s[a + k]);
        }
        let ws = words_from(s, i);
        assert forall|k: int| 0 <= k < ws.len() implies is_word(#[trigger] ws[k]) by {
            if k > 0 {
                assert(ws[k] == words_from(s, e)[k - 1]);
            }
        }
    }
}

/// Joining with a word in front puts that word and one space in front.
pub proof fn lemma_join_prepend(w: Seq<char>, ws: Seq<Seq<char>>)
    requires
        ws.len() > 0,
    ensures
        join_spaced(seq![w] + ws) == w + seq![' '] + join_spaced(ws),
    decreases ws.len(),
{
    let full = seq![w] + ws;
    if ws.len() == 1 {
        assert(full.drop_last() =~= seq![w]);
        assert(join_spaced(seq![w]) == w);
        assert(full.last() == ws[0]);
        assert(join_spaced(full) =~= w + seq![' '] + join_spaced(ws));
    } else {
        assert(full.drop_last() =~= seq![w] + ws.drop_last());
        lemma_join_prepend(w, ws.drop_last());
        assert(join_spaced(full) =~= w + seq![' '] + join_spaced(ws));
    }
}

/// The words of a word followed by a space and more text.
pub proof fn lemma_words_prepend(w: Seq<char>, rest: Seq<char>)
    requires
        is_word(w),
    ensures
        words(w + seq![' '] + rest) == seq![w] + words(rest),
{
    let s = w + seq![' '] + rest;
    let n = w.len() as int;
    assert forall|j: int| 0 <= j < n implies !is_ws(#[trigger] s[j]) by {
        assert(s[j] == w[j]);
    }
    assert(s[n] == ' ');
    lemma_skip_ws_at(s, 0, 0);
    lemma_word_end_at(s, 0, n);
    assert(s.subrange(0, n) =~= w);
    lemma_skip_ws_bounds(s, n + 1);
    assert(skip_ws(s, n) == skip_ws(s, n + 1));
    assert(words_from(s, n) == words_from(s, n + 1));
    lemma_words_from_skip(s, n + 1, n + 1);
    assert(s.skip(n + 1) =~= rest);
    assert(words(s) =~= seq![w] + words(rest));
}

/// The words of a single word.
proof fn lemma_words_single(w: Seq<char>)
    requires
        is_word(w),
    ensures
        words(w) == seq![w],
{
    lemma_skip_ws_at(w, 0, 0);
    lemma_word_end_at(w, 0, w.len() as int);
    assert(w.subrange(0, w.len() as int) =~= w);
    assert(words_from(w, w.len() as int) =~= Seq::<Seq<char>>::empty());
    assert(words(w) =~= seq![w]);
}

/// The first word of a text is the first of its words (empty when it has none).
pub proof fn lemma_first_word_is_first_of_words(s: Seq<char>)
    ensures
        words(s).len() > 0 ==> first_word(s) == words(s)[0],
        words(s).len() == 0 ==> first_word(s).len() == 0,
{
    lemma_skip_ws_bounds(s, 0);
    let a = skip_ws(s, 0);
    if a < s.len() {
        lemma_word_end_bounds(s, a);
    } else {
        assert(word_end(s, a) == a);
    }
}

/// The first word of words joined with spaces is the first of those words.
pub proof fn lemma_first_word_of_join(ws: Seq<Seq<char>>)
    requires
        ws.len() > 0,
        forall|k: int| 0 <= k < ws.len() ==> is_word(#[trigger] ws[k]),
    ensures
        first_word(join_spaced(ws)) == ws[0],
{
    lemma_words_of_join(ws);
    lemma_first_word_is_first_of_words(join_spaced(ws));
}

/// Appending to the front keeps a suffix, and every text is its own suffix.
pub proof fn lemma_suffix_facts()
    ensures
        forall|x: Seq<char>, y: Seq<char>, a: Seq<char>|
            has_suffix(y, a) ==> #[trigger] has_suffix(x + y, a),
        forall|a: Seq<char>| #[trigger] has_suffix(a, a),
        forall|a: Seq<char>| #[trigger] has_suffix(a, Seq::<char>::empty()),
{
    assert forall|x: Seq<char>, y: Seq<char>, a: Seq<char>| has_suffix(y, a) implies #[trigger] has_suffix(
        x + y,
        a,
    ) by {
        assert((x + y).subrange((x + y).len() - a.len(), (x + y).len() as int) =~= y.subrange(
            y.len() - a.len(),
            y.len() as int,
        ));
    }
    assert forall|a: Seq<char>| #[trigger] has_suffix(a, a) by {
        assert(a.subrange(0, a.len() as int) =~= a);
    }
    assert forall|a: Seq<char>| #[trigger] has_suffix(a, Seq::<char>::empty()) by {
        assert(a.subrange(a.len() as int, a.len() as int) =~= Seq::<char>::empty());
    }
}

proof fn lemma_byte_suffix_is_suffix(s: Seq<char>, b: int)
    ensures
        byte_suffix(s, b) matches Some(t) ==> has_suffix(s, t),
    decreases s.len(),
{
    lemma_suffix_facts();
    if b != 0 && !(b < 0 || s.len() == 0 || utf8_width(s[0]) > b) {
        lemma_byte_suffix_is_suffix(s.drop_first(), b - utf8_width(s[0]));
        assert(s =~= seq![s[0]] + s.drop_first());
    }
}

/// The text after the first word is a suffix of the text.
pub proof fn lemma_after_first_word_is_suffix(s: Seq<char>)
    ensures
        has_suffix(s, after_first_word(s)),
{
    lemma_suffix_facts();
    lemma_byte_suffix_is_suffix(s, byte_len(first_word(s)));
    if let Some(t) = byte_suffix(s, byte_len(first_word(s))) {
        lemma_skip_ws_bounds(t, 0);
        let a = skip_ws(t, 0);
        let u = trim_start(t);
        assert(s.subrange(s.len() - t.len(), s.len() as int) == t);
        assert(s.subrange(s.len() - u.len(), s.len() as int) =~= t.subrange(a, t.len() as int));
    }
}

/// Each Unicode `White_Space` character ends a word: the first word of a
/// word followed by such a character and any text is that word.
pub proof fn law_whitespace_ends_word(w: Seq<char>, c: char, x: Seq<char>)
    requires
        is_word(w),
        ('\t' <= c && c <= '\r') || c == ' ' || c == '\u{85}' || c == '\u{a0}' || c == '\u{1680}'
            || ('\u{2000}' <= c && c <= '\u{200a}') || c == '\u{2028}' || c == '\u{2029}' || c
            == '\u{202f}' || c == '\u{205f}' || c == '\u{3000}',
    ensures
        first_word(w + seq![c] + x) == w,
{
    let s = w + seq![c] + x;
    let n = w.len() as int;
    assert forall|j: int| 0 <= j < n implies !is_ws(#[trigger] s[j]) by {
        assert(s[j] == w[j]);
    }
    assert(s[n] == c);
    lemma_skip_ws_at(s, 0, 0);
    lemma_word_end_at(s, 0, n);
    assert(s.subrange(0, n) =~= w);
}

/// Splitting words joined with spaces gives the words back.
pub proof fn lemma_words_of_join(ws: Seq<Seq<char>>)
    requires
        forall|k: int| 0 <= k < ws.len() ==> is_word(#[trigger] ws[k]),
    ensures
        words(join_spaced(ws)) == ws,
    decreases ws.len(),
{
    if ws.len() == 0 {
        assert(words(join_spaced(ws)) =~= ws);
    } else if ws.len() == 1 {
        assert(is_word(ws[0]));
        lemma_words_single(ws[0]);
        assert(seq![ws[0]] =~= ws);
    } else {
        let w = ws[0];
        let tail = ws.drop_first();
        assert(is_word(w));
        assert(ws =~= seq![w] + tail);
        assert forall|k: int| 0 <= k < tail.len() implies is_word(#[trigger] tail[k]) by {
            assert(tail[k] == ws[k + 1]);
        }
        lemma_join_prepend(w, tail);
        lemma_words_prepend(w, join_spaced(tail));
        lemma_words_of_join(tail);
    }
}

/// Words joined with spaces are single-spaced, and begin and end with a
/// non-whitespace character when there is a word.
pub proof fn lemma_join_single_spaced(ws: Seq<Seq<char>>)
    requires
        forall|k: int| 0 <= k < ws.len() ==> is_word(#[trigger] ws[k]),
    ensures
        single_spaced(join_spaced(ws)),
        ws.len() > 0 ==> {
            &&& join_spaced(ws).len() > 0
            &&& !is_ws(join_spaced(ws)[0])
            &&& !is_ws(join_spaced(ws).last())
        },
    decreases ws.len(),
{
    if ws.len() == 1 {
        assert(is_word(ws[0]));
    } else if ws.len() >= 2 {
        let init = ws.drop_last();
        assert forall|k: int| 0 <= k < init.len() implies is_word(#[trigger] init[k]) by {
            assert(init[k] == ws[k]);
        }
        lemma_join_single_spaced(init);
        let j = join_spaced(init);
        let l = ws.last();
        assert(is_word(ws[ws.len() - 1]));
        let r = join_spaced(ws);
        assert(r == j + seq![' '] + l);
        assert forall|i: int| 0 <= i < r.len() && is_ws(#[trigger] r[i]) implies {
            &&& r[i] == ' '
            &&& 0 < i < r.len() - 1
            &&& !is_ws(r[i - 1])
            &&& !is_ws(r[i + 1])
        } by {
            if i < j.len() {
                assert(r[i] == j[i]);
                assert(r[i - 1] == j[i - 1]);
                assert(r[i + 1] == j[i + 1]);
            } else if i == j.len() {
                assert(r[i - 1] == j.last());
                assert(r[i + 1] == l[0]);
            } else {
                assert(r[i] == l[i - j.len() - 1]);
            }
        }
        assert(r[0] == j[0]);
        assert(r.last() == l[l.len() - 1]);
    }
}

/// Whether `c` is Unicode whitespace.
pub fn is_whitespace(c: char) -> (r: bool)
    ensures
        r == is_ws(c),
{
    ('\t' <= c && c <= '\r') || c == ' ' || c == '\u{85}' || c == '\u{a0}' || c == '\u{1680}'
        || ('\u{2000}' <= c && c <= '\u{200a}') || c == '\u{2028}' || c == '\u{2029}'
        || c == '\u{202f}' || c == '\u{205f}' || c == '\u{3000}'
}

/// Index of the first non-whitespace character of `s` at or after `i`.
pub fn skip_whitespace(s: &str, n: usize, i: usize) -> (r: usize)
    requires
        n == s@.len(),
        i <= n,
    ensures
        r == skip_ws(s@, i as int),
        i <= r <= n,
{
    let mut k = i;
    while k < n && is_whitespace(s.get_char(k))
        invariant
            i <= k <= n,
            n == s@.len(),
            skip_ws(s@, k as int) == skip_ws(s@, i as int),
        decreases n - k,
    {
        k = k + 1;
    }
    k
}

/// Index of the first whitespace character of `s` at or after `i`.
pub fn find_word_end(s: &str, n: usize, i: usize) -> (r: usize)
    requires
        n == s@.len(),
        i <= n,
    ensures
        r == word_end(s@, i as int),
        i <= r <= n,
{
    let mut k = i;
    while k < n && !is_whitespace(s.get_char(k))
        invariant
            i <= k <= n,
            n == s@.len(),
            word_end(s@, k as int) == word_end(s@, i as int),
        decreases n - k,
    {
        k = k + 1;
    }
    k
}

/// The first whitespace-separated word of `s` (empty when there is none).
pub fn first_word_of(s: &str) -> (r: &str)
    ensures
        r@ == first_word(s@),
{
    let n = s.unicode_len();
    let a = skip_whitespace(s, n, 0);
    let e = find_word_end(s, n, a);
    s.substring_char(a, e)
}

/// `s` without its leading whitespace.
pub fn trim_start_ws(s: &str) -> (r: &str)
    ensures
        r@ == trim_start(s@),
{
    let n = s.unicode_len();
    let a = skip_whitespace(s, n, 0);
    s.substring_char(a, n)
}

/// The view of an optional string.
pub open spec fn view_opt(o: Option<String>) -> Option<Seq<char>> {
    match o {
        Some(s) => Some(s@),
        None => None,
    }
}

/// Number of UTF-8 bytes of `c`.
pub fn char_width(c: char) -> (r: u128)
    ensures
        r == utf8_width(c),
{
    let v = c as u32;
    if v < 0x80 {
        1
    } else if v < 0x800 {
        2
    } else if v < 0x10000 {
        3
    } else {
        4
    }
}

/// Number of bytes of the UTF-8 encoding of `s` (what `str::len` returns).
pub fn utf8_len(s: &str) -> (r: u128)
    ensures
        r == byte_len(s@),
        r == vstd::utf8::encode_utf8(s@).len(),
{
    proof {
        lemma_byte_len_is_encoding_len(s@);
    }
    let n = s.unicode_len();
    let mut k: usize = 0;
    let mut total: u128 = 0;
    proof {
        assert(s@.skip(0) =~= s@);
    }
    while k < n
        invariant
            k <= n,
            n == s@.len(),
            n <= usize::MAX,
            total <= 4 * k,
            total + byte_len(s@.skip(k as int)) == byte_len(s@),
        decreases n - k,
    {
        let w = char_width(s.get_char(k));
        proof {
            assert(s@.skip(k as int).drop_first() =~= s@.skip(k + 1));
        }
        total = total + w;
        k = k + 1;
    }
    proof {
        assert(s@.skip(n as int) =~= Seq::<char>::empty());
    }
    total
}

/// The text of `s` from byte offset `b` on, or `None` when `b` is no
/// character boundary of `s` or lies beyond its end.
pub fn suffix_from_byte(s: &str, b: u128) -> (r: Option<&str>)
    ensures
        match r {
            Some(t) => byte_suffix(s@, b as int) == Some(t@),
            None => byte_suffix(s@, b as int) is None,
        },
{
    let n = s.unicode_len();
    let mut k: usize = 0;
    let mut rem: u128 = b;
    proof {
        assert(s@.skip(0) =~= s@);
    }
    while rem > 0 && k < n
        invariant
            k <= n,
            n == s@.len(),
            byte_suffix(s@.skip(k as int), rem as int) == byte_suffix(s@, b as int),
        decreases n - k,
    {
        let w = char_width(s.get_char(k));
        if w > rem {
            return None;
        }
        proof {
            assert(s@.skip(k as int).drop_first() =~= s@.skip(k + 1));
        }
        rem = rem - w;
        k = k + 1;
    }
    if rem == 0 {
        Some(s.substring_char(k, n))
    } else {
        proof {
            assert(s@.skip(k as int).len() == 0);
        }
        None
    }
}

/// The text after the first word of `s`, with leading whitespace removed.
pub fn rest_after_first_word(s: &str) -> (r: &str)
    ensures
        r@ == after_first_word(s@),
{
    let word = first_word_of(s);
    let b = utf8_len(word);
    match suffix_from_byte(s, b) {
        Some(t) => trim_start_ws(t),
        None => {
            proof {
                reveal_strlit("");
            }
            ""
        },
    }
}

/// The views of a list of string slices.
pub open spec fn views(ws: Seq<&str>) -> Seq<Seq<char>> {
    ws.map_values(|w: &str| w@)
}

/// The whitespace-separated words of `s`, in order.
pub fn split_words<'a>(s: &'a str) -> (ws: Vec<&'a str>)
    ensures
        views(ws@) == words(s@),
{
    let n = s.unicode_len();
    let mut ws: Vec<&'a str> = Vec::new();
    let mut i: usize = 0;
    while i < n
        invariant
            i <= n,
            n == s@.len(),
            views(ws@) + words_from(s@, i as int) == words(s@),
        decreases n - i,
    {
        let a = skip_whitespace(s, n, i);
        if a >= n {
            proof {
                assert(words_from(s@, i as int) =~= Seq::<Seq<char>>::empty());
                assert(views(ws@) + Seq::<Seq<char>>::empty() =~= views(ws@));
            }
            i = n;
        } else {
            let e = find_word_end(s, n, a);
            proof {
                lemma_skip_ws_bounds(s@, i as int);
                lemma_word_end_bounds(s@, a as int);
            }
            let w = s.substring_char(a, e);
            let ghost old_ws = ws@;
            ws.push(w);
            proof {
                assert(views(ws@) =~= views(old_ws) + seq![w@]);
                assert(words_from(s@, i as int) == seq![w@] + words_from(s@, e as int));
                assert(views(ws@) + words_from(s@, e as int) =~= views(old_ws) + words_from(
                    s@,
                    i as int,
                ));
            }
            i = e;
        }
    }
    proof {
        assert(words_from(s@, n as int) =~= Seq::<Seq<char>>::empty());
        assert(views(ws@) + Seq::<Seq<char>>::empty() =~= views(ws@));
    }
    ws
}

/// The strings of `ws` from index `start` on, joined with single spaces.
pub fn join_with_spaces_from(ws: &Vec<&str>, start: usize) -> (r: String)
    requires
        start <= ws.len(),
    ensures
        r@ == join_spaced(views(ws@).skip(start as int)),
{
    let ghost vs = views(ws@).skip(start as int);
    let mut r = String::new();
    let mut i: usize = start;
    while i < ws.len()
        invariant
            start <= i <= ws.len(),
            vs == views(ws@).skip(start as int),
            r@ == join_spaced(vs.take(i - start)),
        decreases ws.len() - i,
    {
        proof {
            reveal_strlit(" ");
            assert(vs.take(i - start + 1).drop_last() =~= vs.take(i - start));
            assert(vs[i - start] == ws@[i as int]@);
        }
        if i > start {
            r.append(" ");
        }
        r.append(ws[i]);
        proof {
            if i == start {
                assert(r@ =~= vs.take(1)[0]);
            }
        }
        i = i + 1;
    }
    proof {
        assert(vs.take(ws.len() - start) =~= vs);
    }
    r
}

/// The strings of `ws` joined with single spaces.
pub fn join_with_spaces(ws: &Vec<&str>) -> (r: String)
    ensures
        r@ == join_spaced(views(ws@)),
{
    proof {
        assert(views(ws@).skip(0) =~= views(ws@));
    }
    join_with_spaces_from(ws, 0)
}

/// Whether `a` and `b` hold the same characters.
pub fn str_eq(a: &str, b: &str) -> (r: bool)
    ensures
        r == (a@ == b@),
{
    let n = a.unicode_len();
    let m = b.unicode_len();
    if n != m {
        return false;
    }
    let mut i: usize = 0;
    while i < n
        invariant
            i <= n,
            n == a@.len(),
            n == b@.len(),
            forall|k: int| 0 <= k < i ==> a@[k] == b@[k],
        decreases n - i,
    {
        if a.get_char(i) != b.get_char(i) {
            return false;
        }
        i = i + 1;
    }
    proof {
        assert(a@ =~= b@);
    }
    true
}

/// Whether `p` is a prefix of `s`.
pub fn starts_with(s: &str, p: &str) -> (r: bool)
    ensures
        r == has_prefix(s@, p@),
{
    let n = s.unicode_len();
    let m = p.unicode_len();
    if m > n {
        return false;
    }
    let mut i: usize = 0;
    while i < m
        invariant
            i <= m <= n,
            n == s@.len(),
            m == p@.len(),
            forall|k: int| 0 <= k < i ==> s@[k] == p@[k],
        decreases m - i,
    {
        if s.get_char(i) != p.get_char(i) {
            proof {
                assert(s@.subrange(0, m as int)[i as int] != p@[i as int]);
            }
            return false;
        }
        i = i + 1;
    }
    proof {
        assert(s@.subrange(0, m as int) =~= p@);
    }
    true
}

/// Whether `s` begins with the character `c`.
pub fn starts_with_char(s: &str, c: char) -> (r: bool)
    ensures
        r == (s@.len() > 0 && s@[0] == c),
{
    s.unicode_len() > 0 && s.get_char(0) == c
}

/// Whether `p` occurs in `s`.
pub fn contains_str(s: &str, p: &str) -> (r: bool)
    ensures
        r == has_infix(s@, p@),
{
    let n = s.unicode_len();
    let m = p.unicode_len();
    if m > n {
        return false;
    }
    let mut i: usize = 0;
    while i <= n - m
        invariant
            m <= n,
            n == s@.len(),
            m == p@.len(),
            i <= n - m + 1,
            forall|j: int| 0 <= j < i ==> #[trigger] s@.subrange(j, j + m) != p@,
        decreases n - m + 1 - i,
    {
        let mut k: usize = 0;
        let mut same = true;
        while k < m
            invariant
                k <= m,
                i + m <= n,
                n == s@.len(),
                m == p@.len(),
                same == (forall|t: int| 0 <= t < k ==> s@[i + t] == p@[t]),
            decreases m - k,
        {
            if s.get_char(i + k) != p.get_char(k) {
                same = false;
            }
            k = k + 1;
        }
        if same {
            proof {
                assert(s@.subrange(i as int, i + m) =~= p@);
            }
            return true;
        }
        proof {
            assert(!(forall|t: int| 0 <= t < m ==> s@[i + t] == p@[t]));
            let t = choose|t: int| 0 <= t < m && s@[i + t] != p@[t];
            assert(s@.subrange(i as int, i + m)[t] != p@[t]);
        }
        i = i + 1;
    }
    proof {
        assert forall|j: int| 0 <= j && j + p@.len() <= s@.len() implies #[trigger] s@.subrange(
            j,
            j + p@.len(),
        ) != p@ by {
            assert(j < i);
        }
    }
    false
}

/// Whether the character `c` occurs in `s`.
pub fn contains_char(s: &str, c: char) -> (r: bool)
    ensures
        r == s@.contains(c),
{
    let n = s.unicode_len();
    let mut i: usize = 0;
    while i < n
        invariant
            i <= n,
            n == s@.len(),
            forall|k: int| 0 <= k < i ==> s@[k] != c,
        decreases n - i,
    {
        if s.get_char(i) == c {
            return true;
        }
        i = i + 1;
    }
    false
}

/// Whether every character of `s` is an ASCII digit.
pub fn is_all_ascii_digits(s: &str) -> (r: bool)
    ensures
        r == all_ascii_digits(s@),
{
    let n = s.unicode_len();
    let mut i: usize = 0;
    while i < n
        invariant
            i <= n,
            n == s@.len(),
            forall|k: int| 0 <= k < i ==> '0' <= #[trigger] s@[k] && s@[k] <= '9',
        decreases n - i,
    {
        let c = s.get_char(i);
        if !('0' <= c && c <= '9') {
            return false;
        }
        i = i + 1;
    }
    true
}

/// `a` followed by `b`.
pub fn concat2(a: &str, b: &str) -> (r: String)
    ensures
        r@ == a@ + b@,
{
    let mut r = String::from_str(a);
    r.append(b);
    r
}

/// `a`, then `b`, then `c`.
pub fn concat3(a: &str, b: &str, c: &str) -> (r: String)
    ensures
        r@ == a@ + b@ + c@,
{
    let mut r = String::from_str(a);
    r.append(b);
    r.append(c);
    r
}

/// `head` followed by `tail` preceded by one space, or `head` alone when
/// `tail` is empty.
pub fn with_spaced_tail(head: &str, tail: &str) -> (r: String)
    ensures
        r@ == head@ + spaced(tail@),
{
    if tail.is_empty() {
        proof {
            assert(head@ + spaced(tail@) =~= head@);
        }
        String::from_str(head)
    } else {
        proof {
            reveal_strlit(" ");
            assert(head@ + " "@ + tail@ =~= head@ + spaced(tail@));
        }
        concat3(head, " ", tail)
    }
}

/// The part of `s` after its first `k` characters.
pub fn skip_chars(s: &str, k: usize) -> (r: &str)
    requires
        k <= s@.len(),
    ensures
        r@ == s@.skip(k as int),
{
    let n = s.unicode_len();
    s.substring_char(k, n)
}

} // verus!
