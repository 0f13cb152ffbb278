//! What lines, words, pieces and trimming promise of texts that are put
//! together from parts.
use crate::text;
use crate::text_parts;
use vstd::prelude::*;

verus! {

// ---------------------------------------------------------------------------
// Characters
// ---------------------------------------------------------------------------
/// White space is the blank, the tabulator, the line endings and the spaces of
/// Unicode; no visible ASCII character is, nor is any letter.
pub proof fn law_white(c: char)
    ensures
        c == ' ' || c == '\t' || c == '\n' || c == '\r' || c == '\u{b}' || c == '\u{c}'
            ==> text::is_white(c),
        c == '\u{85}' || c == '\u{a0}' || c == '\u{1680}' || c == '\u{2028}' || c == '\u{2029}'
            || c == '\u{202f}' || c == '\u{205f}' || c == '\u{3000}' ==> text::is_white(c),
        '\u{2000}' <= c <= '\u{200a}' ==> text::is_white(c),
        c < '\t' || '\u{e}' <= c <= '\u{1f}' || '!' <= c <= '\u{84}' || '\u{86}' <= c <= '\u{9f}'
            || '\u{a1}' <= c <= '\u{167f}' || '\u{1681}' <= c <= '\u{1fff}' || '\u{200b}' <= c
            <= '\u{2027}' || '\u{202a}' <= c <= '\u{202e}' || '\u{2030}' <= c <= '\u{205e}'
            || '\u{2060}' <= c <= '\u{2fff}' || c > '\u{3000}' ==> !text::is_white(c),
        text::is_control(c) ==> c < ' ' || '\u{7f}' <= c <= '\u{9f}',
        c < ' ' || '\u{7f}' <= c <= '\u{9f}' ==> text::is_control(c),
{
}

/// Whether a text holds no white space.
pub open spec fn solid(s: Seq<char>) -> bool {
    forall|i: int| 0 <= i < s.len() ==> !text::is_white(#[trigger] s[i])
}

/// Whether a text begins and ends with something other than white space.
pub open spec fn tight(s: Seq<char>) -> bool {
    s.len() > 0 && !text::is_white(s[0]) && !text::is_white(s[s.len() - 1])
}

// ---------------------------------------------------------------------------
// Searching
// ---------------------------------------------------------------------------
pub proof fn lemma_found(s: Seq<char>, c: char, i: int, k: int)
    requires
        0 <= i <= k <= s.len(),
        k < s.len() ==> s[k] == c,
        forall|j: int| i <= j < k ==> s[j] != c,
    ensures
        text::find_from(s, c, i) == k,
    decreases k - i,
{
    if i < k {
        lemma_found(s, c, i + 1, k);
    }
}

pub proof fn lemma_white_end(s: Seq<char>, i: int, k: int)
    requires
        0 <= i <= k <= s.len(),
        k < s.len() ==> !text::is_white(s[k]),
        forall|j: int| i <= j < k ==> text::is_white(s[j]),
    ensures
        text::skip_white(s, i) == k,
    decreases k - i,
{
    if i < k {
        lemma_white_end(s, i + 1, k);
    }
}

pub proof fn lemma_word_end(s: Seq<char>, i: int, k: int)
    requires
        0 <= i <= k <= s.len(),
        k < s.len() ==> text::is_white(s[k]),
        forall|j: int| i <= j < k ==> !text::is_white(s[j]),
    ensures
        text::skip_word(s, i) == k,
    decreases k - i,
{
    if i < k {
        lemma_word_end(s, i + 1, k);
    }
}

// ---------------------------------------------------------------------------
// Trimming
// ---------------------------------------------------------------------------
proof fn lemma_white_start(s: Seq<char>, lo: int, j: int, k: int)
    requires
        0 <= lo <= k <= j <= s.len(),
        k > lo ==> !text::is_white(s[k - 1]),
        forall|i: int| k <= i < j ==> text::is_white(s[i]),
    ensures
        text::cut_white(s, lo, j) == k,
    decreases j - k,
{
    if k < j {
        lemma_white_start(s, lo, j - 1, k);
    }
}

/// Trimming takes away exactly the white space around a text.
pub proof fn law_trim(front: Seq<char>, t: Seq<char>, back: Seq<char>)
    requires
        text::is_blank(front),
        text::is_blank(back),
        tight(t),
    ensures
        text::trimmed(front + t + back) == t,
        text_parts::cleaned(front + t + back) == Some(t),
{
    let s = front + t + back;
    let n = front.len() as int;
    assert(s[n] == t[0]);
    lemma_white_end(s, 0, n);
    assert(s[n + t.len() - 1] == t[t.len() - 1]);
    assert forall|i: int| n + t.len() <= i < s.len() implies text::is_white(s[i]) by {
        assert(s[i] == back[i - n - t.len()]);
    }
    lemma_white_start(s, n, s.len() as int, n + t.len());
    assert(s.subrange(n, n + t.len()) =~= t);
}

/// A text without white space around it is left as it is.
pub proof fn law_trim_tight(t: Seq<char>)
    requires
        tight(t),
    ensures
        text::trimmed(t) == t,
        text_parts::cleaned(t) == Some(t),
{
    let e = Seq::<char>::empty();
    law_trim(e, t, e);
    assert(e + t + e =~= t);
}

/// Of a blank text nothing is left.
pub proof fn law_trim_blank(s: Seq<char>)
    requires
        text::is_blank(s),
    ensures
        text::trimmed(s).len() == 0,
        text_parts::cleaned(s) is None,
{
    text::lemma_trimmed_empty(s);
}

/// Every text is blank, or a trimmed text with white space around it.
pub proof fn lemma_trim_parts(s: Seq<char>) -> (r: (Seq<char>, Seq<char>))
    requires
        !text::is_blank(s),
    ensures
        s == r.0 + text::trimmed(s) + r.1,
        text::is_blank(r.0),
        text::is_blank(r.1),
        tight(text::trimmed(s)),
{
    let a = text::skip_white(s, 0);
    text::lemma_skip_white(s, 0);
    text::lemma_trimmed_empty(s);
    if a == s.len() {
        assert(text::is_blank(s));
    }
    text::lemma_cut_white(s, a, s.len() as int);
    let b = text::cut_white(s, a, s.len() as int);
    let front = s.take(a);
    let back = s.skip(b);
    assert(s =~= front + text::trimmed(s) + back);
    (front, back)
}

// ---------------------------------------------------------------------------
// Words
// ---------------------------------------------------------------------------
/// A text without white space is one word.
pub proof fn law_one_word(w: Seq<char>)
    requires
        w.len() > 0,
        solid(w),
    ensures
        text::words(w) == seq![w],
{
    lemma_white_end(w, 0, 0);
    lemma_word_end(w, 0, w.len() as int);
    assert(w.subrange(0, w.len() as int) =~= w);
    assert(text::words_from(w, w.len() as int) =~= Seq::empty());
}

/// A blank text has no words.
pub proof fn law_no_words(s: Seq<char>)
    requires
        text::is_blank(s),
    ensures
        text::words(s) == Seq::<Seq<char>>::empty(),
{
    lemma_white_end(s, 0, s.len() as int);
}

proof fn lemma_words_tail(s: Seq<char>, b: Seq<char>, n: int, i: int)
    requires
        0 <= n <= s.len(),
        s.skip(n) == b,
        0 <= i <= b.len(),
    ensures
        text::words_from(s, n + i) == text::words_from(b, i),
    decreases b.len() - i,
{
    let a = text::skip_white(b, i);
    text::lemma_skip_white(b, i);
    assert forall|j: int| n + i <= j < n + a implies text::is_white(s[j]) by {
        assert(b[j - n] == s[j]);
    }
    if a < b.len() {
        assert(b[a] == s[n + a]);
        lemma_white_end(s, n + i, n + a);
        let e = text::skip_word(b, a);
        text::lemma_skip_word(b, a);
        assert forall|j: int| n + a <= j < n + e implies !text::is_white(s[j]) by {
            assert(b[j - n] == s[j]);
        }
        if e < b.len() {
            assert(b[e] == s[n + e]);
        }
        lemma_word_end(s, n + a, n + e);
        lemma_words_tail(s, b, n, e);
        assert(s.subrange(n + a, n + e) =~= b.subrange(a, e));
    } else {
        lemma_white_end(s, n + i, n + a);
    }
}

proof fn lemma_words_head(a: Seq<char>, c: char, b: Seq<char>, i: int)
    requires
        text::is_white(c),
        0 <= i <= a.len(),
    ensures
        text::words_from(a + seq![c] + b, i) == text::words_from(a, i) + text::words(b),
    decreases a.len() - i,
{
    let s = a + seq![c] + b;
    let n = a.len() as int;
    let p = text::skip_white(a, i);
    text::lemma_skip_white(a, i);
    if p < n {
        assert(s[p] == a[p]);
        assert forall|j: int| i <= j < p implies text::is_white(s[j]) by {
            assert(s[j] == a[j]);
        }
        lemma_white_end(s, i, p);
        let e = text::skip_word(a, p);
        text::lemma_skip_word(a, p);
        assert forall|j: int| p <= j < e implies !text::is_white(s[j]) by {
            assert(s[j] == a[j]);
        }
        if e < n {
            assert(s[e] == a[e]);
        } else {
            assert(s[e] == c);
        }
        lemma_word_end(s, p, e);
        lemma_words_head(a, c, b, e);
        assert(s.subrange(p, e) =~= a.subrange(p, e));
        assert(text::words_from(s, i) =~= text::words_from(a, i) + text::words(b));
    } else {
        assert forall|j: int| i <= j < n implies text::is_white(s[j]) by {
            assert(s[j] == a[j]);
        }
        assert(s[n] == c);
        let q = text::skip_white(s, n + 1);
        text::lemma_skip_white(s, n + 1);
        lemma_white_end(s, i, q);
        lemma_white_end(s, n + 1, q);
        assert(text::words_from(s, i) == text::words_from(s, n + 1));
        assert(s.skip(n + 1) =~= b);
        lemma_words_tail(s, b, n + 1, 0);
        assert(text::words_from(a, i) =~= Seq::empty());
        assert(text::words_from(s, i) =~= text::words_from(a, i) + text::words(b));
    }
}

/// White space parts words: the words on both sides of it are all there are.
pub proof fn law_words_parted(a: Seq<char>, c: char, b: Seq<char>)
    requires
        text::is_white(c),
    ensures
        text::words(a + seq![c] + b) == text::words(a) + text::words(b),
{
    lemma_words_head(a, c, b, 0);
}

/// Words hold no white space, and none is empty.
pub proof fn law_words_are_solid(s: Seq<char>)
    ensures
        forall|k: int|
            0 <= k < text::words(s).len() ==> (#[trigger] text::words(s)[k]).len() > 0 && solid(
                text::words(s)[k],
            ),
{
    lemma_words_solid(s, 0);
}

proof fn lemma_words_solid(s: Seq<char>, i: int)
    requires
        0 <= i <= s.len(),
    ensures
        forall|k: int|
            0 <= k < text::words_from(s, i).len() ==> (#[trigger] text::words_from(s, i)[k]).len()
                > 0 && solid(text::words_from(s, i)[k]),
    decreases s.len() - i,
{
    let a = text::skip_white(s, i);
    text::lemma_skip_white(s, i);
    if a < s.len() {
        let e = text::skip_word(s, a);
        text::lemma_skip_word(s, a);
        lemma_words_solid(s, e);
        let rest = text::words_from(s, e);
        let all = text::words_from(s, i);
        assert forall|k: int| 0 <= k < all.len() implies (#[trigger] all[k]).len() > 0 && solid(
            all[k],
        ) by {
            if k > 0 {
                assert(all[k] == rest[k - 1]);
            }
        }
    }
}

/// The first word of a line is what stands up to the first white space behind
/// it.
pub proof fn law_first_word(front: Seq<char>, w: Seq<char>, rest: Seq<char>)
    requires
        text::is_blank(front),
        w.len() > 0,
        solid(w),
        rest.len() == 0 || text::is_white(rest[0]),
    ensures
        text::words(front + w + rest).len() > 0,
        text::words(front + w + rest)[0] == w,
{
    let wr = w + rest;
    law_one_word(w);
    if rest.len() > 0 {
        let b = rest.skip(1);
        law_words_parted(w, rest[0], b);
        assert(w + seq![rest[0]] + b =~= wr);
    } else {
        assert(wr =~= w);
    }
    assert(text::words(wr)[0] == w);
    if front.len() > 0 {
        let n = front.len() - 1;
        let a = front.take(n);
        assert(text::is_blank(a)) by {
            assert forall|i: int| 0 <= i < a.len() implies text::is_white(#[trigger] a[i]) by {
                assert(a[i] == front[i]);
            }
        }
        assert(text::is_white(front[n]));
        law_words_parted(a, front[n], wr);
        law_no_words(a);
        assert(a + seq![front[n]] + wr =~= front + w + rest);
        assert(text::words(a) + text::words(wr) =~= text::words(wr));
    } else {
        assert(front + w + rest =~= wr);
    }
}

// ---------------------------------------------------------------------------
// Lines
// ---------------------------------------------------------------------------
/// A line as it is read: without a carriage return at its end.
pub open spec fn unreturned(l: Seq<char>) -> Seq<char> {
    if l.len() > 0 && l[l.len() - 1] == '\r' {
        l.take(l.len() - 1)
    } else {
        l
    }
}

proof fn lemma_lines_tail(s: Seq<char>, b: Seq<char>, n: int, i: int)
    requires
        0 <= n <= s.len(),
        s.skip(n) == b,
        0 <= i <= b.len(),
    ensures
        text::lines_from(s, n + i) == text::lines_from(b, i),
    decreases b.len() - i,
{
    if i < b.len() {
        let j = text::find_from(b, '\n', i);
        text::lemma_find_from(b, '\n', i);
        assert forall|k: int| n + i <= k < n + j implies s[k] != '\n' by {
            assert(b[k - n] == s[k]);
        }
        if j < b.len() {
            assert(b[j] == s[n + j]);
        }
        lemma_found(s, '\n', n + i, n + j);
        assert(s.subrange(n + i, n + j) =~= b.subrange(i, j));
        if i < j {
            assert(b[j - 1] == s[n + j - 1]);
            assert(s.subrange(n + i, n + j - 1) =~= b.subrange(i, j - 1));
        }
        if j < b.len() {
            lemma_lines_tail(s, b, n, j + 1);
        }
    }
}

/// A line ends at its line feed, and what follows makes the further lines.
pub proof fn law_line_ends(l: Seq<char>, rest: Seq<char>)
    requires
        !l.contains('\n'),
    ensures
        text::lines(l + seq!['\n'] + rest) == seq![unreturned(l)] + text::lines(rest),
{
    let s = l + seq!['\n'] + rest;
    let n = l.len() as int;
    assert forall|k: int| 0 <= k < n implies s[k] != '\n' by {
        assert(l[k] == s[k]);
    }
    assert(s[n] == '\n');
    lemma_found(s, '\n', 0, n);
    assert(s.skip(n + 1) =~= rest);
    lemma_lines_tail(s, rest, n + 1, 0);
    assert(s.subrange(0, n) =~= l);
    if n > 0 {
        assert(s[n - 1] == l[n - 1]);
        assert(s.subrange(0, n - 1) =~= l.take(n - 1));
    }
}

/// The last line needs no line feed, and a text of nothing has no lines.
pub proof fn law_last_line(l: Seq<char>)
    requires
        !l.contains('\n'),
    ensures
        text::lines(l) == (if l.len() == 0 {
            Seq::<Seq<char>>::empty()
        } else {
            seq![l]
        }),
{
    if l.len() > 0 {
        assert forall|k: int| 0 <= k < l.len() implies l[k] != '\n' by {
            assert(l.contains(l[k]));
        }
        lemma_found(l, '\n', 0, l.len() as int);
        assert(l.subrange(0, l.len() as int) =~= l);
    }
}

// ---------------------------------------------------------------------------
// Pieces
// ---------------------------------------------------------------------------
proof fn lemma_split_tail(s: Seq<char>, c: char, b: Seq<char>, n: int, i: int)
    requires
        0 <= n <= s.len(),
        s.skip(n) == b,
        0 <= i <= b.len(),
    ensures
        text::split_from(s, c, n + i) == text::split_from(b, c, i),
    decreases b.len() - i,
{
    let j = text::find_from(b, c, i);
    text::lemma_find_from(b, c, i);
    assert forall|k: int| n + i <= k < n + j implies s[k] != c by {
        assert(b[k - n] == s[k]);
    }
    if j < b.len() {
        assert(b[j] == s[n + j]);
    }
    lemma_found(s, c, n + i, n + j);
    assert(s.subrange(n + i, n + j) =~= b.subrange(i, j));
    if j < b.len() {
        lemma_split_tail(s, c, b, n, j + 1);
    }
}

/// Splitting gives what stands before the first separator, and then the pieces
/// of what follows it. Without a separator the text is its one piece.
pub proof fn law_split(a: Seq<char>, c: char, b: Seq<char>)
    requires
        !a.contains(c),
    ensures
        text::split(a, c) == seq![a],
        text::split(a + seq![c] + b, c) == seq![a] + text::split(b, c),
        text::split_first(a, c) is None,
        text::split_first(a + seq![c] + b, c) == Some((a, b)),
{
    let s = a + seq![c] + b;
    let n = a.len() as int;
    assert forall|k: int| 0 <= k < n implies a[k] != c && s[k] != c by {
        assert(a.contains(a[k]));
    }
    lemma_found(a, c, 0, n);
    assert(a.subrange(0, n) =~= a);
    assert(s[n] == c);
    lemma_found(s, c, 0, n);
    assert(s.subrange(0, n) =~= a);
    assert(s.skip(n + 1) =~= b);
    assert(s.subrange(n + 1, s.len() as int) =~= b);
    lemma_split_tail(s, c, b, n + 1, 0);
}

/// A separator parts the pieces before it from those behind it, wherever it
/// stands.
pub proof fn law_split_parted(a: Seq<char>, c: char, b: Seq<char>)
    ensures
        text::split(a + seq![c] + b, c) == text::split(a, c) + text::split(b, c),
        text::split(a, c).len() > 0,
    decreases a.len(),
{
    if a.contains(c) {
        text::lemma_find_from(a, c, 0);
        let k = text::find_from(a, c, 0);
        if k >= a.len() {
            let i = choose|i: int| 0 <= i < a.len() && a[i] == c;
            assert(a[i] != c);
        }
        let x = a.take(k);
        let y = a.skip(k + 1);
        assert(!x.contains(c)) by {
            if x.contains(c) {
                let i = choose|i: int| 0 <= i < x.len() && x[i] == c;
                assert(a[i] == c);
            }
        }
        assert(a =~= x + seq![c] + y);
        assert(a + seq![c] + b =~= x + seq![c] + (y + seq![c] + b));
        law_split(x, c, y);
        law_split(x, c, y + seq![c] + b);
        law_split_parted(y, c, b);
        assert(seq![x] + (text::split(y, c) + text::split(b, c)) =~= seq![x] + text::split(y, c)
            + text::split(b, c));
    } else {
        law_split(a, c, b);
    }
}

// ---------------------------------------------------------------------------
// Order
// ---------------------------------------------------------------------------
proof fn lemma_lex_from(p: Seq<char>, a: Seq<char>, b: Seq<char>, i: int)
    requires
        0 <= i <= p.len(),
    ensures
        text::lex_lt_from(p + a, p + b, i) == text::lex_lt_from(p + a, p + b, p.len() as int),
    decreases p.len() - i,
{
    if i < p.len() {
        lemma_lex_from(p, a, b, i + 1);
        assert((p + a)[i] == (p + b)[i]);
    }
}

/// Texts are ordered by the first character in which they differ, and a text
/// comes before every continuation of it.
pub proof fn law_order(p: Seq<char>, x: char, a: Seq<char>, y: char, b: Seq<char>)
    ensures
        x < y ==> text::lex_lt(p + seq![x] + a, p + seq![y] + b),
        x > y ==> !text::lex_lt(p + seq![x] + a, p + seq![y] + b),
        text::lex_lt(p, p + seq![y] + b),
        !text::lex_lt(p + seq![y] + b, p),
{
    let s = seq![x] + a;
    let t = seq![y] + b;
    assert(p + seq![x] + a =~= p + s);
    assert(p + seq![y] + b =~= p + t);
    let e = Seq::<char>::empty();
    assert(p + e =~= p);
    lemma_lex_from(p, s, t, 0);
    lemma_lex_from(p, e, t, 0);
    lemma_lex_from(p, t, e, 0);
    let n = p.len() as int;
    assert((p + s)[n] == x);
    assert((p + t)[n] == y);
}

} // verus!
