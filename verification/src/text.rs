//! Text handling over `Seq<char>`: the string operations that the rest of the
//! library is stated and proved with.
use vstd::prelude::*;

verus! {

/// `String::push` appends one character to the end of the string.
pub assume_specification[ String::push ](s: &mut String, c: char)
    ensures
        final(s)@ == old(s)@.push(c),
;

// ---------------------------------------------------------------------------
// Character classes
// ---------------------------------------------------------------------------
/// Unicode `White_Space`, the class that `char::is_whitespace` documents.
pub open spec fn is_white(c: char) -> bool {
    ||| '\u{9}' <= c <= '\u{d}'
    ||| c == ' '
    ||| c == '\u{85}'
    ||| c == '\u{a0}'
    ||| c == '\u{1680}'
    ||| '\u{2000}' <= c <= '\u{200a}'
    ||| c == '\u{2028}'
    ||| c == '\u{2029}'
    ||| c == '\u{202f}'
    ||| c == '\u{205f}'
    ||| c == '\u{3000}'
}

/// Unicode category `Cc`: C0, DEL and C1.
pub open spec fn is_control(c: char) -> bool {
    c <= '\u{1f}' || '\u{7f}' <= c <= '\u{9f}'
}

/// `'0'..='9'`.
pub open spec fn is_digit(c: char) -> bool {
    '0' <= c <= '9'
}

/// The character with ASCII upper-case letters mapped to lower case.
pub open spec fn lower(c: char) -> char {
    if 'A' <= c <= 'Z' {
        ((c as u32) + 32) as char
    } else {
        c
    }
}

pub fn char_is_white(c: char) -> (r: bool)
    ensures
        r == is_white(c),
{
    ('\u{9}' <= c && c <= '\u{d}') || c == ' ' || c == '\u{85}' || c == '\u{a0}' || c == '\u{1680}'
        || ('\u{2000}' <= c && c <= '\u{200a}') || c == '\u{2028}' || c == '\u{2029}' || c
        == '\u{202f}' || c == '\u{205f}' || c == '\u{3000}'
}

pub fn char_is_control(c: char) -> (r: bool)
    ensures
        r == is_control(c),
{
    c <= '\u{1f}' || ('\u{7f}' <= c && c <= '\u{9f}')
}

pub fn char_is_digit(c: char) -> (r: bool)
    ensures
        r == is_digit(c),
{
    '0' <= c && c <= '9'
}

// ---------------------------------------------------------------------------
// Strings and their characters
// ---------------------------------------------------------------------------
/// The views of a sequence of strings.
pub open spec fn views(v: Seq<String>) -> Seq<Seq<char>> {
    v.map_values(|s: String| s@)
}

/// The view of an optional string.
pub open spec fn opt_view(o: Option<String>) -> Option<Seq<char>> {
    match o {
        Some(s) => Some(s@),
        None => None,
    }
}

/// A copy of an optional string.
pub fn clone_opt(o: &Option<String>) -> (r: Option<String>)
    ensures
        opt_view(r) == opt_view(*o),
{
    match o {
        Some(s) => Some(s.clone()),
        None => None,
    }
}

/// A copy of a list of strings.
pub fn clone_all(v: &Vec<String>) -> (r: Vec<String>)
    ensures
        views(r@) == views(v@),
{
    let mut out: Vec<String> = Vec::new();
    let mut i: usize = 0;
    while i < v.len()
        invariant
            i <= v.len(),
            out.len() == i,
            forall|j: int| 0 <= j < i ==> out@[j]@ == v@[j]@,
        decreases v.len() - i,
    {
        out.push(v[i].clone());
        i += 1;
    }
    assert(views(out@) == views(v@));
    out
}

/// The characters of a string.
pub fn chars_of(s: &str) -> (r: Vec<char>)
    ensures
        r@ == s@,
{
    let mut out: Vec<char> = Vec::new();
    for c in it: s.chars()
        invariant
            it.seq() == s@,
            out@ == s@.take(it.index()),
    {
        out.push(c);
    }
    assert(s@.take(s@.len() as int) == s@);
    out
}

/// The string made of `chars[from..to]`.
pub fn string_of(chars: &Vec<char>, from: usize, to: usize) -> (r: String)
    requires
        from <= to <= chars.len(),
    ensures
        r@ == chars@.subrange(from as int, to as int),
{
    let mut out = String::new();
    let mut i: usize = from;
    while i < to
        invariant
            from <= i <= to <= chars.len(),
            out@ == chars@.subrange(from as int, i as int),
        decreases to - i,
    {
        out.push(chars[i]);
        i += 1;
        assert(out@ == chars@.subrange(from as int, i as int));
    }
    out
}

/// Whether two strings are the same.
pub fn same(a: &str, b: &str) -> (r: bool)
    ensures
        r == (a@ == b@),
{
    let x = chars_of(a);
    let y = chars_of(b);
    if x.len() != y.len() {
        return false;
    }
    let mut i: usize = 0;
    while i < x.len()
        invariant
            x.len() == y.len(),
            x@ == a@,
            y@ == b@,
            i <= x.len(),
            forall|j: int| 0 <= j < i ==> x@[j] == y@[j],
        decreases x.len() - i,
    {
        if x[i] != y[i] {
            return false;
        }
        i += 1;
    }
    assert(x@ == y@);
    true
}

// ---------------------------------------------------------------------------
// Searching
// ---------------------------------------------------------------------------
/// The first index from `i` on that holds `c`, or the length when none does.
pub open spec fn find_from(s: Seq<char>, c: char, i: int) -> int
    decreases s.len() - i,
{
    if 0 <= i < s.len() && s[i] != c {
        find_from(s, c, i + 1)
    } else {
        i
    }
}

/// The first index from `i` on that holds no white space, or the length.
pub open spec fn skip_white(s: Seq<char>, i: int) -> int
    decreases s.len() - i,
{
    if 0 <= i < s.len() && is_white(s[i]) {
        skip_white(s, i + 1)
    } else {
        i
    }
}

/// The first index from `i` on that holds white space, or the length.
pub open spec fn skip_word(s: Seq<char>, i: int) -> int
    decreases s.len() - i,
{
    if 0 <= i < s.len() && !is_white(s[i]) {
        skip_word(s, i + 1)
    } else {
        i
    }
}

/// The end of `s[lo..j]` once its trailing white space is cut off.
pub open spec fn cut_white(s: Seq<char>, lo: int, j: int) -> int
    decreases j - lo,
{
    if 0 <= lo < j <= s.len() && is_white(s[j - 1]) {
        cut_white(s, lo, j - 1)
    } else {
        j
    }
}

pub proof fn lemma_find_from(s: Seq<char>, c: char, i: int)
    requires
        0 <= i <= s.len(),
    ensures
        i <= find_from(s, c, i) <= s.len(),
        find_from(s, c, i) < s.len() ==> s[find_from(s, c, i)] == c,
        forall|j: int| i <= j < find_from(s, c, i) ==> s[j] != c,
    decreases s.len() - i,
{
    if i < s.len() && s[i] != c {
        lemma_find_from(s, c, i + 1);
    }
}

pub proof fn lemma_skip_white(s: Seq<char>, i: int)
    requires
        0 <= i <= s.len(),
    ensures
        i <= skip_white(s, i) <= s.len(),
        skip_white(s, i) < s.len() ==> !is_white(s[skip_white(s, i)]),
        forall|j: int| i <= j < skip_white(s, i) ==> is_white(s[j]),
    decreases s.len() - i,
{
    if i < s.len() && is_white(s[i]) {
        lemma_skip_white(s, i + 1);
    }
}

pub proof fn lemma_skip_word(s: Seq<char>, i: int)
    requires
        0 <= i <= s.len(),
    ensures
        i <= skip_word(s, i) <= s.len(),
        skip_word(s, i) < s.len() ==> is_white(s[skip_word(s, i)]),
        forall|j: int| i <= j < skip_word(s, i) ==> !is_white(s[j]),
    decreases s.len() - i,
{
    if i < s.len() && !is_white(s[i]) {
        lemma_skip_word(s, i + 1);
    }
}

pub proof fn lemma_cut_white(s: Seq<char>, lo: int, j: int)
    requires
        0 <= lo <= j <= s.len(),
    ensures
        lo <= cut_white(s, lo, j) <= j,
        cut_white(s, lo, j) > lo ==> !is_white(s[cut_white(s, lo, j) - 1]),
        forall|k: int| cut_white(s, lo, j) <= k < j ==> is_white(s[k]),
    decreases j - lo,
{
    if lo < j && is_white(s[j - 1]) {
        lemma_cut_white(s, lo, j - 1);
    }
}

/// Whether the text holds the character.
pub fn contains_char(s: &str, c: char) -> (r: bool)
    ensures
        r == s@.contains(c),
{
    let x = chars_of(s);
    let i = find_char(&x, c, 0);
    proof {
        lemma_find_from(s@, c, 0);
        if s@.contains(c) {
            let k = choose|k: int| 0 <= k < s@.len() && s@[k] == c;
            assert(s@[k] == c);
        }
    }
    i < x.len()
}

/// The first index from `from` on that holds `c`, or the length.
pub fn find_char(x: &Vec<char>, c: char, from: usize) -> (r: usize)
    requires
        from <= x.len(),
    ensures
        r == find_from(x@, c, from as int),
        from <= r <= x.len(),
        r < x.len() ==> x@[r as int] == c,
{
    let mut i: usize = from;
    while i < x.len() && x[i] != c
        invariant
            from <= i <= x.len(),
            find_from(x@, c, from as int) == find_from(x@, c, i as int),
        decreases x.len() - i,
    {
        i += 1;
    }
    i
}

pub fn white_end(x: &Vec<char>, from: usize) -> (r: usize)
    requires
        from <= x.len(),
    ensures
        r == skip_white(x@, from as int),
        from <= r <= x.len(),
{
    let mut i: usize = from;
    while i < x.len() && char_is_white(x[i])
        invariant
            from <= i <= x.len(),
            skip_white(x@, from as int) == skip_white(x@, i as int),
        decreases x.len() - i,
    {
        i += 1;
    }
    i
}

pub fn word_end(x: &Vec<char>, from: usize) -> (r: usize)
    requires
        from <= x.len(),
    ensures
        r == skip_word(x@, from as int),
        from <= r <= x.len(),
{
    let mut i: usize = from;
    while i < x.len() && !char_is_white(x[i])
        invariant
            from <= i <= x.len(),
            skip_word(x@, from as int) == skip_word(x@, i as int),
        decreases x.len() - i,
    {
        i += 1;
    }
    i
}

// ---------------------------------------------------------------------------
// Trimming
// ---------------------------------------------------------------------------
/// The text without leading and trailing white space.
pub open spec fn trimmed(s: Seq<char>) -> Seq<char> {
    let a = skip_white(s, 0);
    s.subrange(a, cut_white(s, a, s.len() as int))
}

/// Whether nothing but white space is there.
pub open spec fn is_blank(s: Seq<char>) -> bool {
    forall|i: int| 0 <= i < s.len() ==> is_white(#[trigger] s[i])
}

/// A text trims to nothing exactly when it is blank.
pub proof fn lemma_trimmed_empty(s: Seq<char>)
    ensures
        (trimmed(s).len() == 0) == is_blank(s),
{
    let a = skip_white(s, 0);
    lemma_skip_white(s, 0);
    lemma_cut_white(s, a, s.len() as int);
    if is_blank(s) {
        if a < s.len() {
            assert(is_white(s[a]));
        }
    } else if trimmed(s).len() == 0 {
        if a < s.len() {
            assert(is_white(s[a]));
        }
        assert(a == s.len());
        assert forall|i: int| 0 <= i < s.len() implies is_white(#[trigger] s[i]) by {}
    }
}

/// Trimming twice is trimming once.
pub proof fn lemma_trimmed_idempotent(s: Seq<char>)
    ensures
        trimmed(trimmed(s)) == trimmed(s),
{
    let a = skip_white(s, 0);
    lemma_skip_white(s, 0);
    lemma_cut_white(s, a, s.len() as int);
    let t = trimmed(s);
    if t.len() > 0 {
        assert(!is_white(t[0]));
        assert(!is_white(t[t.len() - 1]));
    }
    assert(t.subrange(0, t.len() as int) == t);
}

/// `s` without leading and trailing white space.
pub fn trim(s: &str) -> (r: String)
    ensures
        r@ == trimmed(s@),
{
    let x = chars_of(s);
    let a = white_end(&x, 0);
    let n: usize = x.len();
    let mut b: usize = n;
    proof {
        lemma_skip_white(s@, 0);
    }
    while a < b && char_is_white(x[b - 1])
        invariant
            a <= b <= n,
            n == x.len(),
            cut_white(x@, a as int, n as int) == cut_white(x@, a as int, b as int),
        decreases b,
    {
        b -= 1;
    }
    string_of(&x, a, b)
}

/// Whether `s` is empty or all white space.
pub fn blank(s: &str) -> (r: bool)
    ensures
        r == is_blank(s@),
        r == (trimmed(s@).len() == 0),
{
    let x = chars_of(s);
    let a = white_end(&x, 0);
    proof {
        lemma_skip_white(s@, 0);
        lemma_trimmed_empty(s@);
    }
    a == x.len()
}

// ---------------------------------------------------------------------------
// Lines, fields and words
// ---------------------------------------------------------------------------
/// One line's text: the carriage return of a `\r\n` ending is not part of it.
pub open spec fn line_text(s: Seq<char>, i: int, j: int) -> Seq<char> {
    if i < j < s.len() && s[j - 1] == '\r' {
        s.subrange(i, j - 1)
    } else {
        s.subrange(i, j)
    }
}

pub open spec fn lines_from(s: Seq<char>, i: int) -> Seq<Seq<char>>
    decreases s.len() - i,
    when 0 <= i <= s.len()
    via lines_from_ends
{
    if i < s.len() {
        let j = find_from(s, '\n', i);
        if j < s.len() {
            seq![line_text(s, i, j)] + lines_from(s, j + 1)
        } else {
            seq![line_text(s, i, j)]
        }
    } else {
        Seq::empty()
    }
}

#[via_fn]
proof fn lines_from_ends(s: Seq<char>, i: int) {
    lemma_find_from(s, '\n', i);
}

/// The lines of a text, without their `\n` or `\r\n` endings. A final ending
/// opens no further line.
pub open spec fn lines(s: Seq<char>) -> Seq<Seq<char>> {
    lines_from(s, 0)
}

/// The lines of `s`.
pub fn lines_of(s: &str) -> (r: Vec<String>)
    ensures
        views(r@) == lines(s@),
{
    let x = chars_of(s);
    let mut out: Vec<String> = Vec::new();
    let mut i: usize = 0;
    assert(views(out@) + lines_from(s@, 0) == lines(s@));
    while i < x.len()
        invariant
            x@ == s@,
            i <= x.len(),
            views(out@) + lines_from(s@, i as int) == lines(s@),
        decreases x.len() - i,
    {
        let j = find_char(&x, '\n', i);
        let ghost before = out@;
        let line = if i < j && j < x.len() && x[j - 1] == '\r' {
            string_of(&x, i, j - 1)
        } else {
            string_of(&x, i, j)
        };
        out.push(line);
        let next: usize = if j < x.len() {
            j + 1
        } else {
            j
        };
        proof {
            lemma_find_from(s@, '\n', i as int);
            assert(views(out@) == views(before).push(line@));
            assert(views(out@) + lines_from(s@, next as int) == views(before) + lines_from(
                s@,
                i as int,
            ));
        }
        i = next;
    }
    assert(views(out@) + lines_from(s@, i as int) == views(out@));
    out
}

pub open spec fn split_from(s: Seq<char>, c: char, i: int) -> Seq<Seq<char>>
    decreases s.len() - i,
    when 0 <= i <= s.len()
    via split_from_ends
{
    let j = find_from(s, c, i);
    if j < s.len() {
        seq![s.subrange(i, j)] + split_from(s, c, j + 1)
    } else {
        seq![s.subrange(i, s.len() as int)]
    }
}

#[via_fn]
proof fn split_from_ends(s: Seq<char>, c: char, i: int) {
    lemma_find_from(s, c, i);
}

/// The pieces of `s` between the occurrences of `c`, empty ones included.
pub open spec fn split(s: Seq<char>, c: char) -> Seq<Seq<char>> {
    split_from(s, c, 0)
}

/// The pieces of `s` between the occurrences of `c`.
pub fn split_on(s: &str, c: char) -> (r: Vec<String>)
    ensures
        views(r@) == split(s@, c),
        r.len() >= 1,
{
    let x = chars_of(s);
    let mut out: Vec<String> = Vec::new();
    let mut i: usize = 0;
    let mut j: usize = find_char(&x, c, 0);
    assert(views(out@) + split_from(s@, c, 0) == split(s@, c));
    while j < x.len()
        invariant
            x@ == s@,
            i <= j <= x.len(),
            j == find_from(s@, c, i as int),
            views(out@) + split_from(s@, c, i as int) == split(s@, c),
        decreases x.len() - j,
    {
        let ghost before = out@;
        let piece = string_of(&x, i, j);
        out.push(piece);
        proof {
            assert(views(out@) == views(before).push(piece@));
            assert(views(out@) + split_from(s@, c, j + 1) == views(before) + split_from(
                s@,
                c,
                i as int,
            ));
        }
        i = j + 1;
        j = find_char(&x, c, i);
    }
    let ghost before = out@;
    let piece = string_of(&x, i, x.len());
    out.push(piece);
    proof {
        assert(views(out@) == views(before).push(piece@));
        assert(views(out@) == views(before) + split_from(s@, c, i as int));
    }
    out
}

pub open spec fn words_from(s: Seq<char>, i: int) -> Seq<Seq<char>>
    decreases s.len() - i,
    when 0 <= i <= s.len()
    via words_from_ends
{
    let a = skip_white(s, i);
    if a < s.len() {
        let b = skip_word(s, a);
        seq![s.subrange(a, b)] + words_from(s, b)
    } else {
        Seq::empty()
    }
}

#[via_fn]
proof fn words_from_ends(s: Seq<char>, i: int) {
    lemma_skip_white(s, i);
    let a = skip_white(s, i);
    if a < s.len() {
        lemma_skip_word(s, a);
    }
}

/// The maximal runs without white space.
pub open spec fn words(s: Seq<char>) -> Seq<Seq<char>> {
    words_from(s, 0)
}

/// The white-space separated words of `s`.
pub fn words_of(s: &str) -> (r: Vec<String>)
    ensures
        views(r@) == words(s@),
{
    let x = chars_of(s);
    let mut out: Vec<String> = Vec::new();
    let mut a: usize = white_end(&x, 0);
    let ghost mut i: int = 0;
    assert(views(out@) + words_from(s@, 0) == words(s@));
    while a < x.len()
        invariant
            x@ == s@,
            0 <= i <= a <= x.len(),
            a == skip_white(s@, i),
            views(out@) + words_from(s@, i) == words(s@),
        decreases x.len() - a,
    {
        let b = word_end(&x, a);
        let ghost before = out@;
        let w = string_of(&x, a, b);
        out.push(w);
        proof {
            lemma_skip_white(s@, i);
            lemma_skip_word(s@, a as int);
            assert(a < b);
            assert(views(out@) == views(before).push(w@));
            assert(views(out@) + words_from(s@, b as int) == views(before) + words_from(s@, i));
            i = b as int;
        }
        a = white_end(&x, b);
    }
    assert(views(out@) + words_from(s@, i) == views(out@));
    out
}

/// What stands before and after the first `c`.
pub open spec fn split_first(s: Seq<char>, c: char) -> Option<(Seq<char>, Seq<char>)> {
    let j = find_from(s, c, 0);
    if j < s.len() {
        Some((s.subrange(0, j), s.subrange(j + 1, s.len() as int)))
    } else {
        None
    }
}

/// What stands before and after the first `c` in `s`, when it holds one.
pub fn split_once(s: &str, c: char) -> (r: Option<(String, String)>)
    ensures
        match r {
            Some(p) => split_first(s@, c) == Some((p.0@, p.1@)),
            None => split_first(s@, c) is None,
        },
        r is Some == s@.contains(c),
{
    let x = chars_of(s);
    let j = find_char(&x, c, 0);
    proof {
        lemma_find_from(s@, c, 0);
    }
    if j < x.len() {
        assert(s@[j as int] == c);
        Some((string_of(&x, 0, j), string_of(&x, j + 1, x.len())))
    } else {
        None
    }
}

/// Whether `s` begins with `p`.
pub fn starts_with(s: &str, p: &str) -> (r: bool)
    ensures
        r == p@.is_prefix_of(s@),
{
    let x = chars_of(s);
    let y = chars_of(p);
    if y.len() > x.len() {
        return false;
    }
    let mut i: usize = 0;
    while i < y.len()
        invariant
            x@ == s@,
            y@ == p@,
            i <= y.len() <= x.len(),
            forall|j: int| 0 <= j < i ==> y@[j] == x@[j],
        decreases y.len() - i,
    {
        if x[i] != y[i] {
            assert(x@.subrange(0, y@.len() as int)[i as int] != y@[i as int]);
            return false;
        }
        i += 1;
    }
    assert(y@ =~= x@.subrange(0, y@.len() as int));
    true
}

/// Whether `s` ends with `p`.
pub fn ends_with(s: &str, p: &str) -> (r: bool)
    ensures
        r == p@.is_suffix_of(s@),
{
    let x = chars_of(s);
    let y = chars_of(p);
    if y.len() > x.len() {
        return false;
    }
    let d: usize = x.len() - y.len();
    let mut i: usize = 0;
    while i < y.len()
        invariant
            x@ == s@,
            y@ == p@,
            i <= y.len() <= x.len(),
            d == x.len() - y.len(),
            forall|j: int| 0 <= j < i ==> y@[j] == x@[d + j],
        decreases y.len() - i,
    {
        if x[d + i] != y[i] {
            assert(x@.subrange(d as int, x@.len() as int)[i as int] != y@[i as int]);
            return false;
        }
        i += 1;
    }
    assert(y@ =~= x@.subrange(d as int, x@.len() as int));
    true
}

// ---------------------------------------------------------------------------
// Order
// ---------------------------------------------------------------------------
/// Whether `a[i..]` comes before `b[i..]`, by code points.
pub open spec fn lex_lt_from(a: Seq<char>, b: Seq<char>, i: int) -> bool
    decreases b.len() - i,
{
    if i < 0 || i >= b.len() {
        false
    } else if i >= a.len() {
        true
    } else if a[i] == b[i] {
        lex_lt_from(a, b, i + 1)
    } else {
        a[i] < b[i]
    }
}

/// Lexicographic order by code points, which is also the order of the UTF-8
/// bytes.
pub open spec fn lex_lt(a: Seq<char>, b: Seq<char>) -> bool {
    lex_lt_from(a, b, 0)
}

proof fn lemma_lex_irreflexive_from(a: Seq<char>, i: int)
    requires
        0 <= i,
    ensures
        !lex_lt_from(a, a, i),
    decreases a.len() - i,
{
    if i < a.len() {
        lemma_lex_irreflexive_from(a, i + 1);
    }
}

pub proof fn lemma_lex_irreflexive(a: Seq<char>)
    ensures
        !lex_lt(a, a),
{
    lemma_lex_irreflexive_from(a, 0);
}

proof fn lemma_lex_trans_from(a: Seq<char>, b: Seq<char>, c: Seq<char>, i: int)
    requires
        0 <= i,
        lex_lt_from(a, b, i),
        lex_lt_from(b, c, i),
    ensures
        lex_lt_from(a, c, i),
    decreases c.len() - i,
{
    if i < a.len() && i < b.len() && i < c.len() && a[i] == b[i] && b[i] == c[i] {
        lemma_lex_trans_from(a, b, c, i + 1);
    }
}

pub proof fn lemma_lex_trans(a: Seq<char>, b: Seq<char>, c: Seq<char>)
    requires
        lex_lt(a, b),
        lex_lt(b, c),
    ensures
        lex_lt(a, c),
{
    lemma_lex_trans_from(a, b, c, 0);
}

proof fn lemma_lex_total_from(a: Seq<char>, b: Seq<char>, i: int)
    requires
        0 <= i <= a.len(),
        i <= b.len(),
        a.take(i) == b.take(i),
    ensures
        lex_lt_from(a, b, i) || lex_lt_from(b, a, i) || a == b,
    decreases b.len() - i,
{
    if i < a.len() && i < b.len() {
        if a[i] == b[i] {
            assert(a.take(i + 1) =~= a.take(i).push(a[i]));
            assert(b.take(i + 1) =~= b.take(i).push(b[i]));
            lemma_lex_total_from(a, b, i + 1);
        }
    } else if i == a.len() && i == b.len() {
        assert(a.take(i) =~= a);
        assert(b.take(i) =~= b);
    }
}

/// Two different texts are ordered one way or the other.
pub proof fn lemma_lex_total(a: Seq<char>, b: Seq<char>)
    ensures
        lex_lt(a, b) || lex_lt(b, a) || a == b,
{
    assert(a.take(0) =~= b.take(0));
    lemma_lex_total_from(a, b, 0);
}

/// Whether `a` comes before `b`.
pub fn less(a: &str, b: &str) -> (r: bool)
    ensures
        r == lex_lt(a@, b@),
{
    let x = chars_of(a);
    let y = chars_of(b);
    let mut i: usize = 0;
    while i < x.len() && i < y.len() && x[i] == y[i]
        invariant
            x@ == a@,
            y@ == b@,
            i <= x.len(),
            i <= y.len(),
            lex_lt(a@, b@) == lex_lt_from(a@, b@, i as int),
        decreases x.len() - i,
    {
        i += 1;
    }
    if i >= y.len() {
        false
    } else if i >= x.len() {
        true
    } else {
        x[i] < y[i]
    }
}

// ---------------------------------------------------------------------------
// Numbers
// ---------------------------------------------------------------------------
/// One decimal digit.
pub open spec fn digit(d: nat) -> char {
    ((48 + d) as u32) as char
}

/// A number in decimal.
pub open spec fn decimal(n: nat) -> Seq<char>
    decreases n,
{
    if n < 10 {
        seq![digit(n)]
    } else {
        decimal(n / 10).push(digit(n % 10))
    }
}

fn digit_char(d: u64) -> (r: char)
    requires
        d < 10,
    ensures
        r == digit(d as nat),
{
    (48 + d as u8) as char
}

/// `n` in decimal.
pub fn decimal_of(n: u64) -> (r: String)
    ensures
        r@ == decimal(n as nat),
    decreases n,
{
    if n < 10 {
        let mut out = String::new();
        out.push(digit_char(n));
        assert(out@ =~= decimal(n as nat));
        out
    } else {
        let mut out = decimal_of(n / 10);
        out.push(digit_char(n % 10));
        out
    }
}

// ---------------------------------------------------------------------------
// Shortening
// ---------------------------------------------------------------------------
/// The longest description that is shown in full, in characters.
pub const MAX_DESCRIPTION_CHARS: usize = 120;

/// The text, or where it is too long its beginning and an ellipsis.
pub open spec fn shortened(s: Seq<char>) -> Seq<char> {
    if s.len() <= MAX_DESCRIPTION_CHARS {
        s
    } else {
        s.take(MAX_DESCRIPTION_CHARS - 1).push('\u{2026}')
    }
}

/// A shortened text is never longer than allowed, and shortening it again
/// changes nothing.
pub proof fn law_shortened(s: Seq<char>)
    ensures
        shortened(s).len() <= MAX_DESCRIPTION_CHARS,
        shortened(shortened(s)) == shortened(s),
{
}

/// The text, shortened where it is too long.
pub fn truncate_chars(s: &str) -> (r: String)
    ensures
        r@ == shortened(s@),
{
    let x = chars_of(s);
    if x.len() <= MAX_DESCRIPTION_CHARS {
        return s.to_owned();
    }
    let mut out = string_of(&x, 0, MAX_DESCRIPTION_CHARS - 1);
    out.push('\u{2026}');
    assert(out@ =~= shortened(s@));
    out
}

/// Whether a list holds a text.
pub fn lists(v: &Vec<String>, s: &str) -> (r: bool)
    ensures
        r == views(v@).contains(s@),
{
    let ghost all = views(v@);
    let mut i: usize = 0;
    while i < v.len()
        invariant
            i <= v.len(),
            all == views(v@),
            forall|j: int| 0 <= j < i ==> #[trigger] all[j] != s@,
        decreases v.len() - i,
    {
        assert(all[i as int] == v@[i as int]@);
        if same(&v[i], s) {
            assert(all.contains(s@));
            return true;
        }
        i += 1;
    }
    false
}

} // verus!
