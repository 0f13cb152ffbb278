//! Text and bytes: lossy decoding, sizes in UTF-8, and quoting for messages.
use crate::text;
use crate::text_parts;
use vstd::prelude::*;
use vstd::string::*;

verus! {

/// The text that a lossy decoding makes of bytes.
pub uninterp spec fn lossy_text(bytes: Seq<u8>) -> Seq<char>;

/// `String::from_utf8_lossy`: the text of bytes that are UTF-8, and of other
/// bytes a text with replacement characters, which is given a name only.
#[verifier::external_body]
pub(crate) fn decode_lossy(bytes: &[u8]) -> (r: String)
    ensures
        r@ == lossy_text(bytes@),
        vstd::utf8::valid_utf8(bytes@) ==> r@ == vstd::utf8::decode_utf8(bytes@),
{
    String::from_utf8_lossy(bytes).into_owned()
}

/// `String::from_utf8`: the text of bytes that are UTF-8, and nothing for
/// others.
#[verifier::external_body]
pub(crate) fn decode_strict(bytes: Vec<u8>) -> (r: Option<String>)
    ensures
        match r {
            Some(s) => vstd::utf8::valid_utf8(bytes@) && s@ == vstd::utf8::decode_utf8(bytes@),
            None => !vstd::utf8::valid_utf8(bytes@),
        },
{
    String::from_utf8(bytes).ok()
}

/// The text that stands for a string in messages: in double quotes, with
/// escapes.
pub uninterp spec fn quoted(s: Seq<char>) -> Seq<char>;

/// `Debug` formatting of a string, which is given a name only.
#[verifier::external_body]
pub(crate) fn quote(s: &str) -> (r: String)
    ensures
        r@ == quoted(s@),
{
    format!("{s:?}")
}

/// A list of strings in messages: in brackets, each in double quotes.
pub open spec fn quoted_list(v: Seq<Seq<char>>) -> Seq<char> {
    "["@ + text_parts::joined(v.map_values(|s: Seq<char>| quoted(s)), ", "@) + "]"@
}

/// A list of strings in messages.
pub fn quote_list(v: &Vec<String>) -> (r: String)
    ensures
        r@ == quoted_list(text::views(v@)),
{
    let mut parts: Vec<String> = Vec::new();
    let mut i: usize = 0;
    while i < v.len()
        invariant
            i <= v.len(),
            parts.len() == i,
            forall|j: int| 0 <= j < i ==> (#[trigger] parts@[j])@ == quoted(v@[j]@),
        decreases v.len() - i,
    {
        parts.push(quote(&v[i]));
        i += 1;
    }
    assert(text::views(parts@) =~= text::views(v@).map_values(|s: Seq<char>| quoted(s)));
    text_parts::concat3("[", &text_parts::join_all(&parts, ", "), "]")
}

// ---------------------------------------------------------------------------
// Sizes
// ---------------------------------------------------------------------------
/// The size of a text in UTF-8.
pub open spec fn byte_len(s: Seq<char>) -> nat {
    vstd::utf8::encode_utf8(s).len()
}

/// The size of a character in UTF-8.
pub open spec fn char_len(c: char) -> nat {
    if c <= '\u{7f}' {
        1
    } else if c <= '\u{7ff}' {
        2
    } else if c <= '\u{ffff}' {
        3
    } else {
        4
    }
}

pub proof fn lemma_push(s: Seq<char>, c: char)
    ensures
        byte_len(s.push(c)) == byte_len(s) + char_len(c),
    decreases s.len(),
{
    broadcast use vstd::utf8::char_is_scalar;

    let t = s.push(c);
    if s.len() == 0 {
        assert(t.drop_first() =~= Seq::<char>::empty());
        assert(vstd::utf8::encode_utf8(t.drop_first()).len() == 0);
    } else {
        lemma_push(s.drop_first(), c);
        assert(t.drop_first() =~= s.drop_first().push(c));
    }
}

/// A longer prefix is not smaller.
proof fn lemma_prefix_grows(s: Seq<char>, i: int, j: int)
    requires
        0 <= i <= j <= s.len(),
    ensures
        byte_len(s.take(i)) <= byte_len(s.take(j)),
    decreases j - i,
{
    if i < j {
        lemma_prefix_grows(s, i, j - 1);
        assert(s.take(j) =~= s.take(j - 1).push(s[j - 1]));
        lemma_push(s.take(j - 1), s[j - 1]);
    }
}

/// The number of characters of the longest prefix of `s.take(n)` that has at
/// most `max` bytes.
pub open spec fn fit(s: Seq<char>, max: nat, n: int) -> int
    decreases n,
{
    if 0 < n && byte_len(s.take(n)) > max {
        fit(s, max, n - 1)
    } else {
        n
    }
}

/// The longest prefix that has at most `max` bytes.
pub open spec fn cut(s: Seq<char>, max: nat) -> Seq<char> {
    s.take(fit(s, max, s.len() as int))
}

proof fn lemma_fit(s: Seq<char>, max: nat, n: int, k: int)
    requires
        0 <= k <= n <= s.len(),
        byte_len(s.take(k)) <= max,
        k < s.len() ==> byte_len(s.take(k + 1)) > max,
    ensures
        fit(s, max, n) == k,
    decreases n,
{
    if k < n {
        lemma_prefix_grows(s, k + 1, n);
        lemma_fit(s, max, n - 1, k);
    }
}

proof fn lemma_fit_bounds(s: Seq<char>, max: nat, n: int)
    requires
        0 <= n <= s.len(),
    ensures
        0 <= fit(s, max, n) <= n,
        byte_len(s.take(fit(s, max, n))) <= max,
        fit(s, max, n) < n ==> byte_len(s.take(fit(s, max, n) + 1)) > max,
    decreases n,
{
    if 0 < n && byte_len(s.take(n)) > max {
        lemma_fit_bounds(s, max, n - 1);
    } else if n == 0 {
        assert(s.take(0) =~= Seq::<char>::empty());
        assert(vstd::utf8::encode_utf8(s.take(0)).len() == 0);
    }
}

/// A cut text is the longest prefix that keeps the limit: with one character
/// more it would not. A text within the limit is not cut.
pub proof fn law_cut(s: Seq<char>, max: nat)
    ensures
        cut(s, max).is_prefix_of(s),
        byte_len(cut(s, max)) <= max,
        byte_len(s) <= max ==> cut(s, max) == s,
        cut(s, max) != s ==> byte_len(s.take(cut(s, max).len() as int + 1)) > max,
        forall|k: int|
            0 <= k <= s.len() && byte_len(#[trigger] s.take(k)) <= max ==> k <= cut(s, max).len(),
{
    assert forall|k: int|
        0 <= k <= s.len() && byte_len(#[trigger] s.take(k)) <= max implies k <= cut(s, max).len() by {
        lemma_fit_bounds(s, max, s.len() as int);
        let c = fit(s, max, s.len() as int);
        if k > c {
            lemma_prefix_grows(s, c + 1, k);
        }
    }
    lemma_fit_bounds(s, max, s.len() as int);
    assert(s.take(s.len() as int) =~= s);
}

fn utf8_len(c: char) -> (r: usize)
    ensures
        r == char_len(c),
{
    if c <= '\u{7f}' {
        1
    } else if c <= '\u{7ff}' {
        2
    } else if c <= '\u{ffff}' {
        3
    } else {
        4
    }
}

/// The longest prefix of `s` that has at most `max_bytes` bytes.
pub fn truncate_utf8(s: &str, max_bytes: usize) -> (r: String)
    ensures
        r@ == cut(s@, max_bytes as nat),
{
    let x = text::chars_of(s);
    let mut used: usize = 0;
    let mut i: usize = 0;
    proof {
        assert(s@.take(0) =~= Seq::<char>::empty());
        assert(byte_len(s@.take(0)) == 0);
    }
    while i < x.len() && utf8_len(x[i]) <= max_bytes - used
        invariant
            x@ == s@,
            i <= x.len(),
            used <= max_bytes,
            used == byte_len(s@.take(i as int)),
        decreases x.len() - i,
    {
        proof {
            assert(s@.take(i + 1) =~= s@.take(i as int).push(s@[i as int]));
            lemma_push(s@.take(i as int), s@[i as int]);
        }
        used += utf8_len(x[i]);
        i += 1;
    }
    proof {
        if i < x.len() {
            assert(s@.take(i + 1) =~= s@.take(i as int).push(s@[i as int]));
            lemma_push(s@.take(i as int), s@[i as int]);
        }
        lemma_fit(s@, max_bytes as nat, s@.len() as int, i as int);
    }
    let r = text::string_of(&x, 0, i);
    assert(r@ =~= s@.take(i as int));
    r
}

} // verus!
