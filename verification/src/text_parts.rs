//! Further text operations: letter case, trimming given characters, joining,
//! replacing, and numbers.
use crate::text;
use vstd::prelude::*;
use vstd::string::*;

verus! {

// ---------------------------------------------------------------------------
// Letter case
// ---------------------------------------------------------------------------
/// Whether two texts are the same up to the case of ASCII letters.
pub open spec fn same_folded(a: Seq<char>, b: Seq<char>) -> bool {
    a.len() == b.len() && forall|i: int|
        0 <= i < a.len() ==> text::lower(#[trigger] a[i]) == text::lower(b[i])
}

fn lower_char(c: char) -> (r: char)
    ensures
        r == text::lower(c),
{
    if 'A' <= c && c <= 'Z' {
        ((c as u8) + 32) as char
    } else {
        c
    }
}

/// Whether two texts are the same up to the case of ASCII letters.
pub fn eq_folded(a: &str, b: &str) -> (r: bool)
    ensures
        r == same_folded(a@, b@),
{
    let x = text::chars_of(a);
    let y = text::chars_of(b);
    if x.len() != y.len() {
        return false;
    }
    let mut i: usize = 0;
    while i < x.len()
        invariant
            x@ == a@,
            y@ == b@,
            x.len() == y.len(),
            i <= x.len(),
            forall|j: int| 0 <= j < i ==> text::lower(#[trigger] x@[j]) == text::lower(y@[j]),
        decreases x.len() - i,
    {
        if lower_char(x[i]) != lower_char(y[i]) {
            assert(text::lower(a@[i as int]) != text::lower(b@[i as int]));
            return false;
        }
        i += 1;
    }
    true
}

// ---------------------------------------------------------------------------
// Trimming
// ---------------------------------------------------------------------------
/// The first index from `i` on that holds neither `a` nor `b`, or the length.
pub open spec fn skip_either(s: Seq<char>, a: char, b: char, i: int) -> int
    decreases s.len() - i,
{
    if 0 <= i < s.len() && (s[i] == a || s[i] == b) {
        skip_either(s, a, b, i + 1)
    } else {
        i
    }
}

/// The end of `s[lo..j]` once its trailing `a`s and `b`s are cut off.
pub open spec fn cut_either(s: Seq<char>, a: char, b: char, lo: int, j: int) -> int
    decreases j - lo,
{
    if 0 <= lo < j <= s.len() && (s[j - 1] == a || s[j - 1] == b) {
        cut_either(s, a, b, lo, j - 1)
    } else {
        j
    }
}

/// The text without `a`s and `b`s at its beginning.
pub open spec fn without_front(s: Seq<char>, a: char, b: char) -> Seq<char> {
    s.skip(skip_either(s, a, b, 0))
}

/// The text without `a`s and `b`s at its beginning and end.
pub open spec fn without_ends(s: Seq<char>, a: char, b: char) -> Seq<char> {
    let p = skip_either(s, a, b, 0);
    s.subrange(p, cut_either(s, a, b, p, s.len() as int))
}

fn either_end(x: &Vec<char>, a: char, b: char) -> (r: usize)
    ensures
        r == skip_either(x@, a, b, 0),
        r <= x.len(),
{
    let mut i: usize = 0;
    while i < x.len() && (x[i] == a || x[i] == b)
        invariant
            i <= x.len(),
            skip_either(x@, a, b, 0) == skip_either(x@, a, b, i as int),
        decreases x.len() - i,
    {
        i += 1;
    }
    i
}

/// `s` without `a`s and `b`s at its beginning.
pub fn trim_front(s: &str, a: char, b: char) -> (r: String)
    ensures
        r@ == without_front(s@, a, b),
{
    let x = text::chars_of(s);
    let p = either_end(&x, a, b);
    let r = text::string_of(&x, p, x.len());
    assert(r@ =~= without_front(s@, a, b));
    r
}

/// `s` without `a`s and `b`s at its beginning and end.
pub fn trim_ends(s: &str, a: char, b: char) -> (r: String)
    ensures
        r@ == without_ends(s@, a, b),
{
    let x = text::chars_of(s);
    let p = either_end(&x, a, b);
    let n: usize = x.len();
    let mut q: usize = n;
    while p < q && (x[q - 1] == a || x[q - 1] == b)
        invariant
            p <= q <= n,
            n == x.len(),
            cut_either(x@, a, b, p as int, n as int) == cut_either(x@, a, b, p as int, q as int),
        decreases q,
    {
        q -= 1;
    }
    text::string_of(&x, p, q)
}

/// What follows a prefix.
pub open spec fn past_prefix(s: Seq<char>, p: Seq<char>) -> Option<Seq<char>> {
    if p.is_prefix_of(s) {
        Some(s.skip(p.len() as int))
    } else {
        None
    }
}

/// What follows `p` in `s`, if `s` begins with it.
pub fn strip_prefix(s: &str, p: &str) -> (r: Option<String>)
    ensures
        text::opt_view(r) == past_prefix(s@, p@),
{
    if !text::starts_with(s, p) {
        return None;
    }
    let x = text::chars_of(s);
    let y = text::chars_of(p);
    let r = text::string_of(&x, y.len(), x.len());
    assert(r@ =~= s@.skip(p@.len() as int));
    Some(r)
}

/// The text without white space around it, if anything is left.
pub open spec fn cleaned(s: Seq<char>) -> Option<Seq<char>> {
    if text::trimmed(s).len() == 0 {
        None
    } else {
        Some(text::trimmed(s))
    }
}

/// `s` without white space around it, if anything is left.
pub fn clean(s: &str) -> (r: Option<String>)
    ensures
        text::opt_view(r) == cleaned(s@),
{
    let t = text::trim(s);
    if t.as_str().is_empty() {
        None
    } else {
        Some(t)
    }
}

/// What is left of cleaning is never blank, and cleaning it again changes
/// nothing.
pub proof fn law_cleaned(s: Seq<char>)
    ensures
        cleaned(s) matches Some(t) ==> t.len() > 0 && cleaned(t) == Some(t),
{
    text::lemma_trimmed_idempotent(s);
}

/// A text, or the empty one where it is absent.
pub open spec fn or_empty(o: Option<Seq<char>>) -> Seq<char> {
    match o {
        Some(s) => s,
        None => Seq::empty(),
    }
}

/// A text, or the empty one where it is absent.
pub fn field(o: &Option<String>) -> (r: String)
    ensures
        r@ == or_empty(text::opt_view(*o)),
{
    match o {
        Some(s) => s.clone(),
        None => String::new(),
    }
}

// ---------------------------------------------------------------------------
// Joining
// ---------------------------------------------------------------------------
/// The pieces with `sep` between them.
pub open spec fn joined(parts: Seq<Seq<char>>, sep: Seq<char>) -> Seq<char>
    decreases parts.len(),
{
    if parts.len() == 0 {
        Seq::empty()
    } else if parts.len() == 1 {
        parts[0]
    } else {
        joined(parts.drop_last(), sep) + sep + parts.last()
    }
}

/// The pieces from `from` on with `sep` between them.
pub fn join_from(parts: &Vec<String>, from: usize, sep: &str) -> (r: String)
    requires
        from <= parts.len(),
    ensures
        r@ == joined(text::views(parts@).skip(from as int), sep@),
{
    let ghost all = text::views(parts@).skip(from as int);
    let mut out = String::new();
    let mut i: usize = from;
    assert(all.take(0) =~= Seq::empty());
    while i < parts.len()
        invariant
            from <= i <= parts.len(),
            all == text::views(parts@).skip(from as int),
            out@ == joined(all.take(i - from), sep@),
        decreases parts.len() - i,
    {
        let ghost k: int = i - from;
        proof {
            assert(all.take(k + 1).drop_last() =~= all.take(k));
            assert(all.take(k + 1).last() == parts@[i as int]@);
        }
        if i > from {
            out.append(sep);
        }
        out.append(&parts[i]);
        assert(out@ =~= joined(all.take(k + 1), sep@));
        i += 1;
    }
    assert(all.take(all.len() as int) =~= all);
    out
}

/// The pieces with `sep` between them.
pub fn join_all(parts: &Vec<String>, sep: &str) -> (r: String)
    ensures
        r@ == joined(text::views(parts@), sep@),
{
    let r = join_from(parts, 0, sep);
    assert(text::views(parts@).skip(0) =~= text::views(parts@));
    r
}

/// Three texts after one another.
pub fn concat3(a: &str, b: &str, c: &str) -> (r: String)
    ensures
        r@ == a@ + b@ + c@,
{
    let mut out = a.to_owned();
    out.append(b);
    out.append(c);
    out
}

// ---------------------------------------------------------------------------
// Replacing
// ---------------------------------------------------------------------------
/// Whether `p` stands at index `i`.
pub open spec fn occurs_at(s: Seq<char>, p: Seq<char>, i: int) -> bool {
    0 <= i && i + p.len() <= s.len() && s.subrange(i, i + p.len()) == p
}

/// `s[i..]` with every `from` replaced, from the left, without overlap.
pub open spec fn replaced_from(s: Seq<char>, from: Seq<char>, to: Seq<char>, i: int) -> Seq<char>
    decreases s.len() - i,
{
    if i < 0 || i >= s.len() {
        Seq::empty()
    } else if from.len() > 0 && occurs_at(s, from, i) {
        to + replaced_from(s, from, to, i + from.len())
    } else {
        seq![s[i]] + replaced_from(s, from, to, i + 1)
    }
}

/// The text with every `from` replaced by `to`.
pub open spec fn replaced(s: Seq<char>, from: Seq<char>, to: Seq<char>) -> Seq<char> {
    replaced_from(s, from, to, 0)
}

fn stands_at(x: &Vec<char>, p: &Vec<char>, i: usize) -> (r: bool)
    requires
        i <= x.len(),
    ensures
        r == occurs_at(x@, p@, i as int),
{
    if p.len() > x.len() - i {
        return false;
    }
    let mut j: usize = 0;
    while j < p.len()
        invariant
            i + p.len() <= x.len(),
            j <= p.len(),
            forall|k: int| 0 <= k < j ==> x@[i + k] == #[trigger] p@[k],
        decreases p.len() - j,
    {
        if x[i + j] != p[j] {
            assert(x@.subrange(i as int, i + p@.len())[j as int] != p@[j as int]);
            return false;
        }
        j += 1;
    }
    assert(x@.subrange(i as int, i + p@.len()) =~= p@);
    true
}

/// `s` with every `from` replaced by `to`.
pub fn replace_all(s: &str, from: &str, to: &str) -> (r: String)
    requires
        from@.len() > 0,
    ensures
        r@ == replaced(s@, from@, to@),
{
    let x = text::chars_of(s);
    let p = text::chars_of(from);
    let mut out = String::new();
    let mut i: usize = 0;
    assert(out@ + replaced_from(s@, from@, to@, 0) =~= replaced(s@, from@, to@));
    while i < x.len()
        invariant
            x@ == s@,
            p@ == from@,
            p.len() > 0,
            i <= x.len(),
            out@ + replaced_from(s@, from@, to@, i as int) == replaced(s@, from@, to@),
        decreases x.len() - i,
    {
        let ghost before = out@;
        let ghost rest = replaced_from(s@, from@, to@, i as int);
        if stands_at(&x, &p, i) {
            out.append(to);
            i += p.len();
        } else {
            out.push(x[i]);
            i += 1;
        }
        assert(out@ + replaced_from(s@, from@, to@, i as int) =~= before + rest);
    }
    assert(out@ + replaced_from(s@, from@, to@, i as int) =~= out@);
    out
}

// ---------------------------------------------------------------------------
// Numbers
// ---------------------------------------------------------------------------
/// The number that decimal digits stand for.
pub open spec fn number(s: Seq<char>) -> nat
    decreases s.len(),
{
    if s.len() == 0 {
        0
    } else {
        number(s.drop_last()) * 10 + ((s.last() as u32 - 48) as nat)
    }
}

/// Whether the text is made of decimal digits, and has one.
pub open spec fn is_number(s: Seq<char>) -> bool {
    s.len() > 0 && forall|i: int| 0 <= i < s.len() ==> text::is_digit(#[trigger] s[i])
}

/// The number of a text of decimal digits, if it fits into 64 bits.
pub open spec fn number_of(s: Seq<char>) -> Option<u64> {
    if is_number(s) && number(s) <= u64::MAX {
        Some(number(s) as u64)
    } else {
        None
    }
}

/// The number that `s` is in decimal digits, if it is one and fits.
pub fn parse_number(s: &str) -> (r: Option<u64>)
    ensures
        r == number_of(s@),
{
    let x = text::chars_of(s);
    if x.len() == 0 {
        return None;
    }
    let mut value: u64 = 0;
    let mut i: usize = 0;
    let mut over = false;
    assert(s@.take(0) =~= Seq::empty());
    while i < x.len()
        invariant
            x@ == s@,
            i <= x.len(),
            forall|j: int| 0 <= j < i ==> text::is_digit(#[trigger] s@[j]),
            !over ==> value == number(s@.take(i as int)),
            over ==> number(s@.take(i as int)) > u64::MAX,
        decreases x.len() - i,
    {
        let c = x[i];
        if !text::char_is_digit(c) {
            assert(!text::is_digit(s@[i as int]));
            return None;
        }
        proof {
            assert(s@.take(i + 1).drop_last() =~= s@.take(i as int));
            assert(s@.take(i + 1).last() == c);
        }
        let d: u64 = (c as u32 - 48) as u64;
        if !over {
            if value > 1844674407370955161 || (value == 1844674407370955161 && d > 5) {
                over = true;
            } else {
                value = value * 10 + d;
            }
        }
        i += 1;
    }
    assert(s@.take(s@.len() as int) =~= s@);
    if over {
        None
    } else {
        Some(value)
    }
}

} // verus!
