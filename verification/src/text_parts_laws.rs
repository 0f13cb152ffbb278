//! What cutting, joining, replacing and counting promise of texts that are put
//! together from parts.
use crate::text;
use crate::text_parts;
use vstd::prelude::*;

verus! {

// ---------------------------------------------------------------------------
// Case
// ---------------------------------------------------------------------------
/// The lower-case form of an ASCII capital is the letter 32 places on, and
/// every other character is its own.
pub proof fn law_lower(c: char)
    ensures
        'A' <= c <= 'Z' ==> 'a' <= text::lower(c) <= 'z' && text::lower(c) as int == c as int + 32,
        !('A' <= c <= 'Z') ==> text::lower(c) == c,
{
}

/// Texts are the same up to case character by character: parts of equal
/// length are compared apart, and two characters are the same exactly if
/// their lower-case forms are.
pub proof fn law_folded_apart(a: Seq<char>, x: char, b: Seq<char>, c: Seq<char>, y: char, d: Seq<char>)
    requires
        a.len() == c.len(),
    ensures
        text_parts::same_folded(a + seq![x] + b, c + seq![y] + d) <==> text_parts::same_folded(a, c)
            && text::lower(x) == text::lower(y) && text_parts::same_folded(b, d),
        text_parts::same_folded(Seq::empty(), Seq::empty()),
        text_parts::same_folded(a, a),
        text_parts::same_folded(a, b) ==> a.len() == b.len(),
{
    let s = a + seq![x] + b;
    let t = c + seq![y] + d;
    let n = a.len() as int;
    if text_parts::same_folded(s, t) {
        assert forall|i: int| 0 <= i < a.len() implies text::lower(#[trigger] a[i]) == text::lower(
            c[i],
        ) by {
            assert(s[i] == a[i] && t[i] == c[i]);
        }
        assert(s[n] == x && t[n] == y);
        assert forall|i: int| 0 <= i < b.len() implies text::lower(#[trigger] b[i]) == text::lower(
            d[i],
        ) by {
            assert(s[n + 1 + i] == b[i] && t[n + 1 + i] == d[i]);
        }
    }
    if text_parts::same_folded(a, c) && text::lower(x) == text::lower(y) && text_parts::same_folded(
        b,
        d,
    ) {
        assert forall|i: int| 0 <= i < s.len() implies text::lower(#[trigger] s[i]) == text::lower(
            t[i],
        ) by {
            if i < n {
                assert(s[i] == a[i] && t[i] == c[i]);
            } else if i > n {
                assert(s[i] == b[i - n - 1] && t[i] == d[i - n - 1]);
            }
        }
    }
}

// ---------------------------------------------------------------------------
// Ends
// ---------------------------------------------------------------------------
/// Whether a text is made of two characters alone.
pub open spec fn made_of(s: Seq<char>, a: char, b: char) -> bool {
    forall|i: int| 0 <= i < s.len() ==> #[trigger] s[i] == a || s[i] == b
}

proof fn lemma_skip(s: Seq<char>, a: char, b: char, i: int, k: int)
    requires
        0 <= i <= k <= s.len(),
        k < s.len() ==> s[k] != a && s[k] != b,
        forall|j: int| i <= j < k ==> s[j] == a || s[j] == b,
    ensures
        text_parts::skip_either(s, a, b, i) == k,
    decreases k - i,
{
    if i < k {
        lemma_skip(s, a, b, i + 1, k);
    }
}

proof fn lemma_cut(s: Seq<char>, a: char, b: char, lo: int, j: int, k: int)
    requires
        0 <= lo <= k <= j <= s.len(),
        k > lo ==> s[k - 1] != a && s[k - 1] != b,
        forall|i: int| k <= i < j ==> s[i] == a || s[i] == b,
    ensures
        text_parts::cut_either(s, a, b, lo, j) == k,
    decreases j - k,
{
    if k < j {
        lemma_cut(s, a, b, lo, j - 1, k);
    }
}

/// The two characters go at the beginning and at the end, as often as they
/// stand there, and nothing else goes.
pub proof fn law_without_ends(front: Seq<char>, t: Seq<char>, back: Seq<char>, a: char, b: char)
    requires
        made_of(front, a, b),
        made_of(back, a, b),
        t.len() > 0,
        t[0] != a && t[0] != b,
        t[t.len() - 1] != a && t[t.len() - 1] != b,
    ensures
        text_parts::without_ends(front + t + back, a, b) == t,
        text_parts::without_front(front + t + back, a, b) == t + back,
        text_parts::without_ends(front, a, b).len() == 0,
        text_parts::without_front(front, a, b).len() == 0,
{
    let s = front + t + back;
    let n = front.len() as int;
    assert(s[n] == t[0]);
    assert forall|j: int| 0 <= j < n implies s[j] == a || s[j] == b by {
        assert(s[j] == front[j]);
    }
    lemma_skip(s, a, b, 0, n);
    assert(s[n + t.len() - 1] == t[t.len() - 1]);
    assert forall|i: int| n + t.len() <= i < s.len() implies s[i] == a || s[i] == b by {
        assert(s[i] == back[i - n - t.len()]);
    }
    lemma_cut(s, a, b, n, s.len() as int, n + t.len());
    assert(s.subrange(n, n + t.len()) =~= t);
    assert(s.skip(n) =~= t + back);
    lemma_skip(front, a, b, 0, n);
    lemma_cut(front, a, b, n, n, n);
}

/// A prefix is taken off exactly where it stands.
pub proof fn law_past_prefix(p: Seq<char>, s: Seq<char>)
    ensures
        text_parts::past_prefix(p + s, p) == Some(s),
        text_parts::past_prefix(s, p) matches Some(r) ==> s == p + r,
        text_parts::past_prefix(s, p) is None ==> !(exists|r: Seq<char>| s == #[trigger] (p + r)),
{
    let t = p + s;
    assert(t.subrange(0, p.len() as int) =~= p);
    assert(p.is_prefix_of(t));
    assert(t.skip(p.len() as int) =~= s);
    if p.is_prefix_of(s) {
        assert(s =~= p + s.skip(p.len() as int)) by {
            assert forall|i: int| 0 <= i < p.len() implies s[i] == p[i] by {
                assert(p[i] == s.subrange(0, p.len() as int)[i]);
            }
        }
    } else if exists|r: Seq<char>| s == #[trigger] (p + r) {
        let r = choose|r: Seq<char>| s == #[trigger] (p + r);
        assert(s.subrange(0, p.len() as int) =~= p);
    }
}

// ---------------------------------------------------------------------------
// Joining
// ---------------------------------------------------------------------------
/// The separator stands between each two pieces and nowhere else.
pub proof fn law_joined(x: Seq<char>, rest: Seq<Seq<char>>, sep: Seq<char>)
    ensures
        text_parts::joined(Seq::empty(), sep) == Seq::<char>::empty(),
        text_parts::joined(seq![x], sep) == x,
        rest.len() > 0 ==> text_parts::joined(seq![x] + rest, sep) == x + sep + text_parts::joined(
            rest,
            sep,
        ),
    decreases rest.len(),
{
    let all = seq![x] + rest;
    if rest.len() == 1 {
        assert(all.drop_last() =~= seq![x]);
        assert(all.last() == rest[0]);
        assert(text_parts::joined(seq![x], sep) == x);
        assert(text_parts::joined(rest, sep) == rest[0]);
    } else if rest.len() > 1 {
        law_joined(x, rest.drop_last(), sep);
        assert(all.drop_last() =~= seq![x] + rest.drop_last());
        assert(all.last() == rest.last());
        assert(text_parts::joined(all, sep) =~= x + sep + text_parts::joined(rest, sep));
    }
}

// ---------------------------------------------------------------------------
// Replacing
// ---------------------------------------------------------------------------
proof fn lemma_replaced_tail(
    s: Seq<char>,
    b: Seq<char>,
    from: Seq<char>,
    to: Seq<char>,
    n: int,
    i: int,
)
    requires
        0 <= n <= s.len(),
        s.skip(n) == b,
        0 <= i,
    ensures
        text_parts::replaced_from(s, from, to, n + i) == text_parts::replaced_from(b, from, to, i),
    decreases b.len() - i,
{
    if i < b.len() {
        assert(b[i] == s[n + i]);
        if n + i + from.len() <= s.len() {
            assert(s.subrange(n + i, n + i + from.len()) =~= b.subrange(i, i + from.len()));
        }
        assert(text_parts::occurs_at(s, from, n + i) == text_parts::occurs_at(b, from, i));
        if from.len() > 0 && text_parts::occurs_at(b, from, i) {
            lemma_replaced_tail(s, b, from, to, n, i + from.len());
        } else {
            lemma_replaced_tail(s, b, from, to, n, i + 1);
        }
    }
}

proof fn lemma_replaced_kept(s: Seq<char>, from: Seq<char>, to: Seq<char>, i: int, k: int)
    requires
        0 <= i <= k <= s.len(),
        forall|j: int| i <= j < k ==> !#[trigger] text_parts::occurs_at(s, from, j),
    ensures
        text_parts::replaced_from(s, from, to, i) == s.subrange(i, k) + text_parts::replaced_from(
            s,
            from,
            to,
            k,
        ),
    decreases k - i,
{
    if i < k {
        lemma_replaced_kept(s, from, to, i + 1, k);
        assert(s.subrange(i, k) =~= seq![s[i]] + s.subrange(i + 1, k));
        assert(!text_parts::occurs_at(s, from, i));
        assert(text_parts::replaced_from(s, from, to, i) =~= s.subrange(i, k)
            + text_parts::replaced_from(s, from, to, k));
    } else {
        assert(s.subrange(i, k) =~= Seq::empty());
        assert(s.subrange(i, k) + text_parts::replaced_from(s, from, to, k)
            =~= text_parts::replaced_from(s, from, to, k));
    }
}

/// What stands before the first occurrence stays, the occurrence is replaced,
/// and the rest is replaced in the same way. A text without an occurrence
/// stays as it is.
pub proof fn law_replaced(a: Seq<char>, from: Seq<char>, b: Seq<char>, to: Seq<char>)
    requires
        from.len() > 0,
    ensures
        (forall|j: int|
            0 <= j < a.len() ==> !#[trigger] text_parts::occurs_at(a + from + b, from, j))
            ==> text_parts::replaced(a + from + b, from, to) == a + to + text_parts::replaced(
            b,
            from,
            to,
        ),
        (forall|j: int| 0 <= j < a.len() ==> !#[trigger] text_parts::occurs_at(a, from, j))
            ==> text_parts::replaced(a, from, to) == a,
{
    let s = a + from + b;
    let n = a.len() as int;
    if forall|j: int| 0 <= j < a.len() ==> !#[trigger] text_parts::occurs_at(s, from, j) {
        lemma_replaced_kept(s, from, to, 0, n);
        assert(s.subrange(0, n) =~= a);
        assert(s.subrange(n, n + from.len()) =~= from);
        assert(text_parts::occurs_at(s, from, n));
        assert(s.skip(n + from.len()) =~= b);
        lemma_replaced_tail(s, b, from, to, n + from.len(), 0);
        assert(text_parts::replaced(s, from, to) =~= a + to + text_parts::replaced(b, from, to));
    }
    if forall|j: int| 0 <= j < a.len() ==> !#[trigger] text_parts::occurs_at(a, from, j) {
        lemma_replaced_kept(a, from, to, 0, n);
        assert(a.subrange(0, n) =~= a);
        assert(a + Seq::<char>::empty() =~= a);
    }
}

/// A text occurs where it stands.
pub proof fn law_occurs(a: Seq<char>, p: Seq<char>, b: Seq<char>, s: Seq<char>, i: int)
    ensures
        text_parts::occurs_at(a + p + b, p, a.len() as int),
        text_parts::occurs_at(s, p, i) ==> 0 <= i && i + p.len() <= s.len() && s == s.take(i) + p
            + s.skip(i + p.len()),
{
    let t = a + p + b;
    assert(t.subrange(a.len() as int, a.len() as int + p.len()) =~= p);
    if text_parts::occurs_at(s, p, i) {
        assert(s =~= s.take(i) + p + s.skip(i + p.len())) by {
            assert forall|k: int| i <= k < i + p.len() implies s[k] == p[k - i] by {
                assert(p[k - i] == s.subrange(i, i + p.len())[k - i]);
            }
        }
    }
}

// ---------------------------------------------------------------------------
// Numbers
// ---------------------------------------------------------------------------
proof fn lemma_decimal(n: nat)
    ensures
        text_parts::is_number(text::decimal(n)),
        text_parts::number(text::decimal(n)) == n,
        text::decimal(n).len() == 1 || text::decimal(n)[0] != '0',
        n > 0 ==> text::decimal(n)[0] != '0',
    decreases n,
{
    let d = text::decimal(n);
    if n < 10 {
        assert(d =~= seq![text::digit(n)]);
        assert(d.drop_last() =~= Seq::empty());
        assert(text_parts::number(d.drop_last()) == 0);
    } else {
        lemma_decimal(n / 10);
        let e = text::decimal(n / 10);
        assert(d.drop_last() =~= e);
        assert forall|i: int| 0 <= i < d.len() implies text::is_digit(#[trigger] d[i]) by {
            if i < e.len() {
                assert(d[i] == e[i]);
            }
        }
        assert(d[0] == e[0]);
        assert(n == (n / 10) * 10 + n % 10);
    }
}

/// A number is written in decimal digits, without a leading zero, and reading
/// the digits gives the number back.
pub proof fn law_decimal(n: u64)
    ensures
        text_parts::number_of(text::decimal(n as nat)) == Some(n),
        text::decimal(n as nat).len() > 0,
        forall|i: int|
            0 <= i < text::decimal(n as nat).len() ==> '0' <= #[trigger] text::decimal(n as nat)[i]
                <= '9',
        n > 0 ==> text::decimal(n as nat)[0] != '0',
        text::decimal(0) == seq!['0'],
{
    lemma_decimal(n as nat);
    let d = text::decimal(n as nat);
    assert forall|i: int| 0 <= i < d.len() implies '0' <= #[trigger] d[i] <= '9' by {
        assert(text::is_digit(d[i]));
    }
    assert(text::decimal(0) =~= seq!['0']);
}

/// Only a text of one or more digits is a number. A further digit counts the
/// digits before it ten times, and a number that does not fit is none.
pub proof fn law_number(s: Seq<char>, c: char)
    ensures
        text_parts::number_of(Seq::empty()) is None,
        !('0' <= c <= '9') ==> text_parts::number_of(s.push(c)) is None && text_parts::number_of(
            seq![c] + s,
        ) is None,
        '0' <= c <= '9' ==> text_parts::number_of(seq![c]) == Some((c as int - 48) as u64),
        '0' <= c <= '9' ==> (text_parts::number_of(s) matches Some(n) ==> n as int * 10 + (c as int
            - 48) <= u64::MAX ==> text_parts::number_of(s.push(c)) == Some(
            (n as int * 10 + (c as int - 48)) as u64,
        )),
        '0' <= c <= '9' ==> (text_parts::number_of(s) matches Some(n) ==> n as int * 10 + (c as int
            - 48) > u64::MAX ==> text_parts::number_of(s.push(c)) is None),
{
    let t = s.push(c);
    assert(t.drop_last() =~= s);
    assert(t[s.len() as int] == c);
    assert((seq![c] + s)[0] == c);
    let one = seq![c];
    assert(one.drop_last() =~= Seq::empty());
    assert(text_parts::number(one.drop_last()) == 0);
    if '0' <= c <= '9' {
        assert(text_parts::is_number(one));
        if text_parts::number_of(s) is Some {
            assert forall|i: int| 0 <= i < t.len() implies text::is_digit(#[trigger] t[i]) by {
                if i < s.len() {
                    assert(t[i] == s[i]);
                }
            }
        }
    }
}

// ---------------------------------------------------------------------------
// Length
// ---------------------------------------------------------------------------
/// A text of up to 120 characters is shown in full. Of a longer one the first
/// 119 are shown, and an ellipsis.
pub proof fn law_shown_length(s: Seq<char>)
    ensures
        s.len() <= 120 ==> text::shortened(s) == s,
        s.len() > 120 ==> text::shortened(s) == s.take(119) + seq!['\u{2026}'],
{
    if s.len() > 120 {
        assert(s.take(119).push('\u{2026}') =~= s.take(119) + seq!['\u{2026}']);
    }
}

} // verus!
