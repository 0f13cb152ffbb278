//! Stable sorting of records by a text key.
use crate::text;
use vstd::prelude::*;
use vstd::string::*;

verus! {

/// A record that is ordered by a text that it holds.
pub trait Keyed: Sized {
    spec fn key_view(self) -> Seq<char>;

    fn key(&self) -> (r: &str)
        ensures
            r@ == self.key_view(),
    ;
}

/// The first position whose key is greater than `k`, or the length.
pub open spec fn slot<T: Keyed>(s: Seq<T>, k: Seq<char>, i: int) -> int
    decreases s.len() - i,
{
    if 0 <= i < s.len() && !text::lex_lt(k, s[i].key_view()) {
        slot(s, k, i + 1)
    } else {
        i
    }
}

/// The records in order of their keys, equal keys in their given order.
pub open spec fn sorted<T: Keyed>(s: Seq<T>) -> Seq<T>
    decreases s.len(),
{
    if s.len() == 0 {
        s
    } else {
        let t = sorted(s.drop_last());
        t.insert(slot(t, s.last().key_view(), 0), s.last())
    }
}

/// No key is less than one before it.
pub open spec fn in_order<T: Keyed>(s: Seq<T>) -> bool {
    forall|i: int, j: int|
        0 <= i < j < s.len() ==> !text::lex_lt(
            (#[trigger] s[j]).key_view(),
            (#[trigger] s[i]).key_view(),
        )
}

pub proof fn lemma_slot<T: Keyed>(s: Seq<T>, k: Seq<char>, i: int)
    requires
        0 <= i <= s.len(),
    ensures
        i <= slot(s, k, i) <= s.len(),
        slot(s, k, i) < s.len() ==> text::lex_lt(k, s[slot(s, k, i)].key_view()),
        forall|j: int| i <= j < slot(s, k, i) ==> !text::lex_lt(k, (#[trigger] s[j]).key_view()),
    decreases s.len() - i,
{
    if i < s.len() && !text::lex_lt(k, s[i].key_view()) {
        lemma_slot(s, k, i + 1);
    }
}

/// Sorting orders the records and neither loses nor invents any.
pub proof fn law_sorted<T: Keyed>(s: Seq<T>)
    ensures
        in_order(sorted(s)),
        sorted(s).to_multiset() == s.to_multiset(),
        sorted(s).len() == s.len(),
    decreases s.len(),
{
    broadcast use vstd::seq_lib::group_to_multiset_ensures;

    if s.len() > 0 {
        let d = s.drop_last();
        law_sorted(d);
        let t = sorted(d);
        let x = s.last();
        let p = slot(t, x.key_view(), 0);
        lemma_slot(t, x.key_view(), 0);
        let r = t.insert(p, x);
        assert(d.push(x) =~= s);
        assert(r.to_multiset() =~= t.to_multiset().insert(x)) by {
            broadcast use vstd::multiset::group_multiset_axioms;

            assert(r.remove(p) =~= t);
            vstd::seq_lib::to_multiset_remove(r, p);
            assert(r[p] == x);
            assert(r.contains(x));
            assert(r.to_multiset().count(x) > 0);
        }
        assert forall|i: int, j: int| 0 <= i < j < r.len() implies !text::lex_lt(
            (#[trigger] r[j]).key_view(),
            (#[trigger] r[i]).key_view(),
        ) by {
            let a = if i < p {
                i
            } else {
                i - 1
            };
            let b = if j < p {
                j
            } else {
                j - 1
            };
            if i != p && j != p {
                assert(r[i] == t[a] && r[j] == t[b]);
            } else if i == p {
                // everything behind the slot is at least as great as its first
                assert(r[j] == t[b]);
                assert(text::lex_lt(x.key_view(), t[p].key_view()));
                if text::lex_lt(t[b].key_view(), x.key_view()) {
                    text::lemma_lex_trans(t[b].key_view(), x.key_view(), t[p].key_view());
                    if b == p {
                        text::lemma_lex_irreflexive(t[p].key_view());
                    }
                    assert(false);
                }
            } else {
                assert(r[i] == t[a]);
            }
        }
    }
}

/// What is made of the same records, in whatever order, is the same.
pub proof fn lemma_mapped<A, B>(a: Seq<A>, b: Seq<A>, f: spec_fn(A) -> B)
    requires
        a.to_multiset() == b.to_multiset(),
    ensures
        a.map_values(f).to_multiset() == b.map_values(f).to_multiset(),
        a.len() == b.len(),
    decreases a.len(),
{
    broadcast use vstd::seq_lib::group_to_multiset_ensures;

    let ma = a.map_values(f);
    let mb = b.map_values(f);
    if a.len() == 0 {
        if b.len() > 0 {
            assert(b.contains(b[0]));
            assert(b.to_multiset().contains(b[0]));
            assert(a.to_multiset().contains(b[0]));
            assert(a.contains(b[0]));
        }
        assert(ma =~= mb);
    } else {
        let x = a.last();
        assert(a.contains(x));
        assert(a.to_multiset().contains(x));
        assert(b.contains(x));
        let k = choose|k: int| 0 <= k < b.len() && b[k] == x;
        let d = a.drop_last();
        let e = b.remove(k);
        assert(d.push(x) =~= a);
        assert(d.to_multiset().insert(x) =~= a.to_multiset());
        assert(d.to_multiset() =~= a.to_multiset().remove(x));
        assert(e.to_multiset() =~= b.to_multiset().remove(x));
        lemma_mapped(d, e, f);
        assert(ma =~= d.map_values(f).push(f(x)));
        assert(e.map_values(f) =~= mb.remove(k));
        assert(mb[k] == f(x));
        assert(ma.to_multiset() =~= d.map_values(f).to_multiset().insert(f(x)));
        assert(e.map_values(f).to_multiset() =~= mb.to_multiset().remove(f(x)));
        assert(mb.to_multiset().contains(f(x))) by {
            assert(mb.contains(f(x)));
        }
        assert(mb.to_multiset() =~= e.map_values(f).to_multiset().insert(f(x)));
    }
}

/// Records that are in order, equal keys among them, stay as they are.
pub proof fn law_stable<T: Keyed>(s: Seq<T>)
    requires
        in_order(s),
    ensures
        sorted(s) == s,
    decreases s.len(),
{
    if s.len() > 0 {
        let d = s.drop_last();
        assert(in_order(d)) by {
            assert forall|i: int, j: int| 0 <= i < j < d.len() implies !text::lex_lt(
                (#[trigger] d[j]).key_view(),
                (#[trigger] d[i]).key_view(),
            ) by {
                assert(d[i] == s[i] && d[j] == s[j]);
            }
        }
        law_stable(d);
        let x = s.last();
        lemma_slot(d, x.key_view(), 0);
        let p = slot(d, x.key_view(), 0);
        if p < d.len() {
            assert(d[p] == s[p]);
            assert(s[s.len() - 1] == x);
            assert(!text::lex_lt(s[s.len() - 1].key_view(), s[p].key_view()));
        }
        assert(d.insert(p, x) =~= s);
    }
}

/// The records in order of their keys, equal keys in their given order.
pub fn sort<T: Keyed>(v: Vec<T>) -> (r: Vec<T>)
    ensures
        r@ == sorted(v@),
{
    let ghost all = v@;
    let mut rest = v;
    let mut out: Vec<T> = Vec::new();
    let ghost mut n: int = 0;
    assert(all.take(0) =~= Seq::empty());
    assert(all.skip(0) =~= all);
    while rest.len() > 0
        invariant
            0 <= n <= all.len(),
            rest@ == all.skip(n),
            out@ == sorted(all.take(n)),
        decreases rest.len(),
    {
        let x = rest.remove(0);
        let ghost key = x.key_view();
        let mut i: usize = 0;
        while i < out.len() && !text::less(x.key(), out[i].key())
            invariant
                i <= out.len(),
                key == x.key_view(),
                slot(out@, key, 0) == slot(out@, key, i as int),
            decreases out.len() - i,
        {
            i += 1;
        }
        proof {
            assert(x == all[n]);
            assert(all.take(n + 1).drop_last() =~= all.take(n));
            assert(all.take(n + 1).last() == x);
            assert(rest@ =~= all.skip(n + 1));
            n = n + 1;
        }
        out.insert(i, x);
    }
    assert(all.take(all.len() as int) =~= all);
    out
}

// ---------------------------------------------------------------------------
// Sets of texts
// ---------------------------------------------------------------------------
/// Whether texts are in strictly ascending order, so that none occurs twice.
pub open spec fn strictly_ascending(s: Seq<Seq<char>>) -> bool {
    forall|i: int, j: int|
        0 <= i < j < s.len() ==> text::lex_lt(#[trigger] s[i], #[trigger] s[j])
}

/// Whether `r` holds exactly the texts of `s`, in order and each once.
pub open spec fn is_set_of(r: Seq<Seq<char>>, s: Seq<Seq<char>>) -> bool {
    strictly_ascending(r) && forall|x: Seq<char>| #[trigger] r.contains(x) <==> s.contains(x)
}

/// There is only one such sequence.
pub proof fn law_one_set(a: Seq<Seq<char>>, b: Seq<Seq<char>>, s: Seq<Seq<char>>)
    requires
        is_set_of(a, s),
        is_set_of(b, s),
    ensures
        a == b,
{
    lemma_same_start(a, b, s, a.len() as int);
    lemma_same_start(b, a, s, b.len() as int);
    assert(a =~= b);
}

/// The first `n` texts of `a` are the first of `b`.
proof fn lemma_same_start(a: Seq<Seq<char>>, b: Seq<Seq<char>>, s: Seq<Seq<char>>, n: int)
    requires
        is_set_of(a, s),
        is_set_of(b, s),
        0 <= n <= a.len(),
    ensures
        n <= b.len(),
        forall|i: int| 0 <= i < n ==> a[i] == b[i],
    decreases n,
{
    if n > 0 {
        lemma_same_start(a, b, s, n - 1);
        let x = a[n - 1];
        assert(a.contains(x));
        assert(s.contains(x));
        assert(b.contains(x));
        let k = choose|k: int| 0 <= k < b.len() && b[k] == x;
        if k < n - 1 {
            assert(a[k] == b[k]);
            text::lemma_lex_irreflexive(x);
            assert(text::lex_lt(a[k], a[n - 1]));
        } else if k > n - 1 {
            let y = b[n - 1];
            assert(b.contains(y));
            assert(s.contains(y));
            assert(a.contains(y));
            let m = choose|m: int| 0 <= m < a.len() && a[m] == y;
            assert(text::lex_lt(b[n - 1], b[k]));
            if m < n - 1 {
                assert(b[m] == y);
                assert(text::lex_lt(b[m], b[n - 1]));
                text::lemma_lex_irreflexive(y);
            } else if m == n - 1 {
                text::lemma_lex_irreflexive(x);
            } else {
                assert(text::lex_lt(a[n - 1], a[m]));
                text::lemma_lex_trans(x, y, x);
                text::lemma_lex_irreflexive(x);
            }
        }
    }
}

fn insert_text(out: &mut Vec<String>, x: &str)
    requires
        strictly_ascending(text::views(old(out)@)),
    ensures
        strictly_ascending(text::views(final(out)@)),
        forall|y: Seq<char>| #[trigger]
            text::views(final(out)@).contains(y) <==> text::views(old(out)@).contains(y) || y
                == x@,
{
    let ghost all = text::views(out@);
    let mut i: usize = 0;
    while i < out.len() && text::less(&out[i], x)
        invariant
            i <= out.len(),
            all == text::views(out@),
            forall|j: int| 0 <= j < i ==> text::lex_lt(#[trigger] all[j], x@),
        decreases out.len() - i,
    {
        assert(all[i as int] == out@[i as int]@);
        i += 1;
    }
    if i < out.len() {
        assert(all[i as int] == out@[i as int]@);
        if text::same(&out[i], x) {
            return;
        }
        proof {
            text::lemma_lex_total(all[i as int], x@);
        }
    }
    out.insert(i, x.to_owned());
    let ghost r = text::views(out@);
    proof {
        assert(r =~= all.insert(i as int, x@));
        assert forall|a: int, b: int| 0 <= a < b < r.len() implies text::lex_lt(
            #[trigger] r[a],
            #[trigger] r[b],
        ) by {
            if a < i && b < i {
                assert(text::lex_lt(all[a], all[b]));
            } else if a < i && b > i {
                assert(text::lex_lt(all[a], all[b - 1]));
            } else if a == i {
                if b - 1 > i {
                    assert(text::lex_lt(all[i as int], all[b - 1]));
                    text::lemma_lex_trans(x@, all[i as int], all[b - 1]);
                }
            } else if a > i {
                assert(text::lex_lt(all[a - 1], all[b - 1]));
            }
        }
        assert forall|y: Seq<char>| #[trigger] r.contains(y) <==> all.contains(y) || y == x@ by {
            if all.contains(y) {
                let k = choose|k: int| 0 <= k < all.len() && all[k] == y;
                if k < i {
                    assert(r[k] == y);
                } else {
                    assert(r[k + 1] == y);
                }
            }
            assert(r[i as int] == x@);
            if r.contains(y) {
                let k = choose|k: int| 0 <= k < r.len() && r[k] == y;
                if k < i {
                    assert(all[k] == y);
                } else if k > i {
                    assert(all[k - 1] == y);
                }
            }
        }
    }
}

/// The texts in order, each once.
pub fn set_of(v: &Vec<String>) -> (r: Vec<String>)
    ensures
        is_set_of(text::views(r@), text::views(v@)),
{
    let ghost all = text::views(v@);
    let mut out: Vec<String> = Vec::new();
    let mut i: usize = 0;
    while i < v.len()
        invariant
            i <= v.len(),
            all == text::views(v@),
            is_set_of(text::views(out@), all.take(i as int)),
        decreases v.len() - i,
    {
        let ghost before = text::views(out@);
        insert_text(&mut out, &v[i]);
        proof {
            let now = text::views(out@);
            let t = all.take(i + 1);
            assert(all[i as int] == v@[i as int]@);
            assert forall|x: Seq<char>| #[trigger] now.contains(x) <==> t.contains(x) by {
                assert(before.contains(x) <==> all.take(i as int).contains(x));
                if all.take(i as int).contains(x) {
                    let k = choose|k: int| 0 <= k < i && all.take(i as int)[k] == x;
                    assert(t[k] == x);
                }
                assert(t[i as int] == all[i as int]);
                if t.contains(x) {
                    let k = choose|k: int| 0 <= k < t.len() && t[k] == x;
                    if k < i {
                        assert(all.take(i as int)[k] == x);
                    }
                }
            }
        }
        i += 1;
    }
    assert(all.take(all.len() as int) =~= all);
    out
}

} // verus!
