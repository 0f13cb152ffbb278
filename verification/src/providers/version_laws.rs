//! Which version a text names.
use crate::providers::version_probe;
use crate::providers::version_probe::{ProbeStep, Version};
use crate::text;
use crate::text_laws;
use crate::text_parts;
use crate::text_parts_laws;
use vstd::prelude::*;
use vstd::string::*;

verus! {

/// A version is at least another exactly if it has a greater major number, or
/// the same and a greater minor one, or both the same and a patch number that
/// is not smaller.
pub proof fn law_at_least(a: Version, b: Version)
    ensures
        a.major > b.major ==> version_probe::is_at_least(a, b),
        a.major < b.major ==> !version_probe::is_at_least(a, b),
        a.major == b.major && a.minor > b.minor ==> version_probe::is_at_least(a, b),
        a.major == b.major && a.minor < b.minor ==> !version_probe::is_at_least(a, b),
        a.major == b.major && a.minor == b.minor ==> (version_probe::is_at_least(a, b)
            <==> a.patch >= b.patch),
{
}

proof fn lemma_digits(n: u64)
    ensures
        !text::decimal(n as nat).contains('.'),
        !text::decimal(n as nat).contains('-'),
        text::decimal(n as nat).len() > 0,
        text::is_digit(text::decimal(n as nat)[0]),
        text::is_digit(text::decimal(n as nat)[text::decimal(n as nat).len() - 1]),
        text_parts::number_of(text::decimal(n as nat)) == Some(n),
{
    text_parts_laws::law_decimal(n);
    let d = text::decimal(n as nat);
    if d.contains('.') {
        let k = choose|k: int| 0 <= k < d.len() && d[k] == '.';
        assert('0' <= d[k]);
    }
    if d.contains('-') {
        let k = choose|k: int| 0 <= k < d.len() && d[k] == '-';
        assert('0' <= d[k]);
    }
    assert('0' <= d[0] <= '9');
    assert('0' <= d[d.len() - 1] <= '9');
}

/// Three numbers with dots between them.
pub open spec fn dotted(a: u64, b: u64, c: u64) -> Seq<char> {
    text::decimal(a as nat) + seq!['.'] + text::decimal(b as nat) + seq!['.'] + text::decimal(
        c as nat,
    )
}

proof fn lemma_dotted(a: u64, b: u64, c: u64)
    ensures
        text::split(dotted(a, b, c), '.') == seq![
            text::decimal(a as nat),
            text::decimal(b as nat),
            text::decimal(c as nat),
        ],
        !dotted(a, b, c).contains('-'),
        dotted(a, b, c).len() > 0,
        text::is_digit(dotted(a, b, c)[0]),
        text::is_digit(dotted(a, b, c)[dotted(a, b, c).len() - 1]),
{
    let x = text::decimal(a as nat);
    let y = text::decimal(b as nat);
    let z = text::decimal(c as nat);
    let t = dotted(a, b, c);
    lemma_digits(a);
    lemma_digits(b);
    lemma_digits(c);
    let yz = y + seq!['.'] + z;
    assert(t =~= x + seq!['.'] + yz);
    text_laws::law_split(x, '.', yz);
    text_laws::law_split(y, '.', z);
    text_laws::law_split(z, '.', z);
    assert(seq![x] + (seq![y] + seq![z]) =~= seq![x, y, z]);
    assert(t[0] == x[0]);
    assert(t[t.len() - 1] == z[z.len() - 1]);
    if t.contains('-') {
        let k = choose|k: int| 0 <= k < t.len() && t[k] == '-';
        if k < x.len() {
            assert(x[k] == '-');
        } else if k > x.len() && k < x.len() + 1 + y.len() {
            assert(y[k - x.len() - 1] == '-');
        } else if k > x.len() + 1 + y.len() {
            assert(z[k - x.len() - y.len() - 2] == '-');
        }
    }
}

proof fn lemma_token(vs: Seq<char>, core: Seq<char>, tail: Seq<char>)
    requires
        text_parts_laws::made_of(vs, 'v', 'V'),
        core.len() > 0,
        text::is_digit(core[0]),
        text::is_digit(core[core.len() - 1]),
        !core.contains('-'),
        tail.len() == 0 || (tail[0] == '-' && tail[tail.len() - 1] != '-' && tail[tail.len() - 1]
            != '.' && tail[tail.len() - 1] != 'v' && tail[tail.len() - 1] != 'V'),
    ensures
        version_probe::token_version(vs + core + tail) == ({
            let parts = text::split(core, '.');
            if parts.len() > 3 {
                None
            } else {
                match text_parts::number_of(parts[0]) {
                    Some(major) => Some(
                        Version {
                            major,
                            minor: version_probe::part_number(parts, 1),
                            patch: version_probe::part_number(parts, 2),
                        },
                    ),
                    None => None,
                }
            }
        }),
{
    let e = Seq::<char>::empty();
    let t = core + tail;
    assert(t[0] == core[0]);
    if tail.len() > 0 {
        assert(t[t.len() - 1] == tail[tail.len() - 1]);
    } else {
        assert(t =~= core);
    }
    assert(vs + core + tail =~= vs + t + e);
    text_parts_laws::law_without_ends(vs, t, e, 'v', 'V');
    assert(t + e =~= t);
    text_parts_laws::law_without_ends(e, t, e, '.', '-');
    assert(e + t + e =~= t);
    if tail.len() > 0 {
        let more = tail.skip(1);
        assert(t =~= core + seq!['-'] + more);
        text_laws::law_split(core, '-', more);
    } else {
        text_laws::law_split(core, '-', e);
    }
    assert(text::split(t, '-')[0] == core);
    text_parts_laws::law_without_ends(e, core, e, '.', '.');
    assert(e + core + e =~= core);
}

/// Three numbers with dots between them are a version, behind any number of
/// `v`s and in front of a dash and whatever follows it.
pub proof fn law_version_token(vs: Seq<char>, a: u64, b: u64, c: u64, tail: Seq<char>)
    requires
        text_parts_laws::made_of(vs, 'v', 'V'),
        tail.len() == 0 || (tail[0] == '-' && tail[tail.len() - 1] != '-' && tail[tail.len() - 1]
            != '.' && tail[tail.len() - 1] != 'v' && tail[tail.len() - 1] != 'V'),
    ensures
        version_probe::token_version(vs + dotted(a, b, c) + tail) == Some(
            (Version { major: a, minor: b, patch: c }),
        ),
{
    lemma_dotted(a, b, c);
    lemma_digits(a);
    lemma_digits(b);
    lemma_digits(c);
    lemma_token(vs, dotted(a, b, c), tail);
}

/// With two numbers the patch number is zero, and with one the minor one as
/// well.
pub proof fn law_short_version_token(vs: Seq<char>, a: u64, b: u64)
    requires
        text_parts_laws::made_of(vs, 'v', 'V'),
    ensures
        version_probe::token_version(
            vs + (text::decimal(a as nat) + seq!['.'] + text::decimal(b as nat)),
        ) == Some((Version { major: a, minor: b, patch: 0 })),
        version_probe::token_version(vs + text::decimal(a as nat)) == Some(
            (Version { major: a, minor: 0, patch: 0 }),
        ),
{
    let e = Seq::<char>::empty();
    let x = text::decimal(a as nat);
    let y = text::decimal(b as nat);
    lemma_digits(a);
    lemma_digits(b);
    text_laws::law_split(x, '.', y);
    text_laws::law_split(y, '.', y);
    assert(seq![x] + seq![y] =~= seq![x, y]);
    let xy = x + seq!['.'] + y;
    assert(xy[0] == x[0]);
    assert(xy[xy.len() - 1] == y[y.len() - 1]);
    if xy.contains('-') {
        let k = choose|k: int| 0 <= k < xy.len() && xy[k] == '-';
        if k < x.len() {
            assert(x[k] == '-');
        } else if k > x.len() {
            assert(y[k - x.len() - 1] == '-');
        }
    }
    lemma_token(vs, xy, e);
    assert(vs + xy + e =~= vs + xy);
    lemma_token(vs, x, e);
    assert(vs + x + e =~= vs + x);
}

// ---------------------------------------------------------------------------
// Tokens in a text
// ---------------------------------------------------------------------------
/// Letters and digits of ASCII, dots and dashes make up tokens; everything
/// else parts them.
pub proof fn law_token_characters(c: char)
    ensures
        version_probe::in_token(c) <==> '0' <= c <= '9' || 'a' <= c <= 'z' || 'A' <= c <= 'Z' || c
            == '.' || c == '-',
{
}

proof fn lemma_token_end(s: Seq<char>, i: int, k: int)
    requires
        0 <= i <= k <= s.len(),
        k < s.len() ==> !version_probe::in_token(s[k]),
        forall|j: int| i <= j < k ==> version_probe::in_token(s[j]),
    ensures
        version_probe::token_end(s, i) == k,
    decreases k - i,
{
    if i < k {
        lemma_token_end(s, i + 1, k);
    }
}

proof fn lemma_end_bounds(s: Seq<char>, i: int)
    requires
        0 <= i <= s.len(),
    ensures
        i <= version_probe::token_end(s, i) <= s.len(),
        version_probe::token_end(s, i) < s.len() ==> !version_probe::in_token(
            s[version_probe::token_end(s, i)],
        ),
        forall|j: int|
            i <= j < version_probe::token_end(s, i) ==> version_probe::in_token(s[j]),
    decreases s.len() - i,
{
    if i < s.len() && version_probe::in_token(s[i]) {
        lemma_end_bounds(s, i + 1);
    }
}

proof fn lemma_version_tail(s: Seq<char>, b: Seq<char>, n: int, i: int)
    requires
        0 <= n <= s.len(),
        s.skip(n) == b,
        0 <= i <= b.len(),
    ensures
        version_probe::version_from(s, n + i) == version_probe::version_from(b, i),
    decreases b.len() - i,
{
    lemma_end_bounds(b, i);
    let j = version_probe::token_end(b, i);
    assert forall|k: int| n + i <= k < n + j implies version_probe::in_token(s[k]) by {
        assert(b[k - n] == s[k]);
    }
    if j < b.len() {
        assert(b[j] == s[n + j]);
    }
    lemma_token_end(s, n + i, n + j);
    assert(s.subrange(n + i, n + j) =~= b.subrange(i, j));
    if j < b.len() {
        lemma_version_tail(s, b, n, j + 1);
    }
}

/// The first token that is a version names it: a token that is none is passed
/// over, and what follows one that is makes no difference.
pub proof fn law_first_version(w: Seq<char>, c: char, rest: Seq<char>)
    requires
        forall|i: int| 0 <= i < w.len() ==> version_probe::in_token(#[trigger] w[i]),
        !version_probe::in_token(c),
    ensures
        version_probe::version_in(w) == version_probe::token_version(w),
        version_probe::version_in(w + seq![c] + rest) == (match version_probe::token_version(w) {
            Some(v) => Some(v),
            None => version_probe::version_in(rest),
        }),
{
    let n = w.len() as int;
    lemma_token_end(w, 0, n);
    assert(w.subrange(0, n) =~= w);
    let s = w + seq![c] + rest;
    assert forall|j: int| 0 <= j < n implies version_probe::in_token(s[j]) by {
        assert(s[j] == w[j]);
    }
    assert(s[n] == c);
    lemma_token_end(s, 0, n);
    assert(s.subrange(0, n) =~= w);
    assert(s.skip(n + 1) =~= rest);
    lemma_version_tail(s, rest, n + 1, 0);
}

// ---------------------------------------------------------------------------
// Probes
// ---------------------------------------------------------------------------
/// A requirement without a version is open. One with a version is answered
/// from what is kept, or else by running the tool; and where the tool's
/// version is not known it is open again.
pub proof fn law_probe(kept: Option<Option<Version>>, v: Version, m: Version)
    ensures
        version_probe::probe_step(kept, None) == ProbeStep::Answer(None),
        version_probe::probe_step(None, Some(m)) == ProbeStep::Run(m),
        version_probe::probe_step(Some(None), Some(m)) == ProbeStep::Answer(None),
        version_probe::probe_step(Some(Some(v)), Some(m)) == ProbeStep::Answer(
            Some(version_probe::is_at_least(v, m)),
        ),
        version_probe::meets(None, m) is None,
        version_probe::meets(Some(v), m) == Some(version_probe::is_at_least(v, m)),
{
}

/// Two probes share a key only if they are of the same tool with the same
/// single argument.
pub proof fn law_probe_keys(a: Seq<char>, x: Seq<char>, b: Seq<char>, y: Seq<char>)
    requires
        !a.contains('\0'),
        !b.contains('\0'),
    ensures
        version_probe::probe_id(a, seq![x]) == version_probe::probe_id(b, seq![y]) ==> a == b && x
            == y,
        version_probe::probe_id(a, seq![x]) == a + seq!['\0'] + x,
{
    reveal_strlit("\0");
    assert("\0"@ =~= seq!['\0']);
    text_parts_laws::law_joined(x, seq![y], "\0"@);
    text_parts_laws::law_joined(y, seq![x], "\0"@);
    text_laws::law_split(a, '\0', x);
    text_laws::law_split(b, '\0', y);
}

} // verus!
