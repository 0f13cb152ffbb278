//! A small map from text to text that is walked in the order of its keys.
use crate::text;
use vstd::prelude::*;

verus! {

/// Pairs of texts, each key once, in the order of the keys.
#[derive(Debug)]
pub struct TextMap {
    pairs: Vec<(String, String)>,
}

/// The contents of a list of pairs.
pub open spec fn pair_views(v: Seq<(String, String)>) -> Seq<(Seq<char>, Seq<char>)> {
    v.map_values(|p: (String, String)| (p.0@, p.1@))
}

/// Whether the keys are in strictly ascending order.
pub open spec fn ascending(s: Seq<(Seq<char>, Seq<char>)>) -> bool {
    forall|i: int, j: int|
        0 <= i < j < s.len() ==> text::lex_lt((#[trigger] s[i]).0, (#[trigger] s[j]).0)
}

/// The position of a key from `i` on, or the number of pairs.
pub open spec fn key_position(s: Seq<(Seq<char>, Seq<char>)>, k: Seq<char>, i: int) -> int
    decreases s.len() - i,
{
    if 0 <= i < s.len() && s[i].0 != k {
        key_position(s, k, i + 1)
    } else {
        i
    }
}

/// The value of a key.
pub open spec fn value_of(s: Seq<(Seq<char>, Seq<char>)>, k: Seq<char>) -> Option<Seq<char>> {
    let i = key_position(s, k, 0);
    if i < s.len() {
        Some(s[i].1)
    } else {
        None
    }
}

/// The first position from `i` on whose key is not less than `k`.
pub open spec fn lower_bound(s: Seq<(Seq<char>, Seq<char>)>, k: Seq<char>, i: int) -> int
    decreases s.len() - i,
{
    if 0 <= i < s.len() && text::lex_lt(s[i].0, k) {
        lower_bound(s, k, i + 1)
    } else {
        i
    }
}

/// The pairs with the key set to the value.
pub open spec fn with_pair(
    s: Seq<(Seq<char>, Seq<char>)>,
    k: Seq<char>,
    v: Seq<char>,
) -> Seq<(Seq<char>, Seq<char>)> {
    let i = lower_bound(s, k, 0);
    if i < s.len() && s[i].0 == k {
        s.update(i, (k, v))
    } else {
        s.insert(i, (k, v))
    }
}

proof fn lemma_lower_bound(s: Seq<(Seq<char>, Seq<char>)>, k: Seq<char>, i: int)
    requires
        0 <= i <= s.len(),
    ensures
        i <= lower_bound(s, k, i) <= s.len(),
        lower_bound(s, k, i) < s.len() ==> !text::lex_lt(s[lower_bound(s, k, i)].0, k),
        forall|j: int| i <= j < lower_bound(s, k, i) ==> text::lex_lt((#[trigger] s[j]).0, k),
    decreases s.len() - i,
{
    if i < s.len() && text::lex_lt(s[i].0, k) {
        lemma_lower_bound(s, k, i + 1);
    }
}

proof fn lemma_with_pair(s: Seq<(Seq<char>, Seq<char>)>, k: Seq<char>, v: Seq<char>)
    requires
        ascending(s),
    ensures
        ascending(with_pair(s, k, v)),
{
    let i = lower_bound(s, k, 0);
    lemma_lower_bound(s, k, 0);
    let r = with_pair(s, k, v);
    if i < s.len() && s[i].0 == k {
        assert forall|a: int, b: int| 0 <= a < b < r.len() implies text::lex_lt(
            (#[trigger] r[a]).0,
            (#[trigger] r[b]).0,
        ) by {
            assert(text::lex_lt(s[a].0, s[b].0));
        }
    } else {
        if i < s.len() {
            text::lemma_lex_total(s[i].0, k);
            assert(text::lex_lt(k, s[i].0));
        }
        assert forall|a: int, b: int| 0 <= a < b < r.len() implies text::lex_lt(
            (#[trigger] r[a]).0,
            (#[trigger] r[b]).0,
        ) by {
            if a < i && b < i {
                assert(text::lex_lt(s[a].0, s[b].0));
            } else if a < i && b > i {
                assert(text::lex_lt(s[a].0, s[b - 1].0));
            } else if a == i {
                assert(r[b] == s[b - 1]);
                if b - 1 > i {
                    assert(text::lex_lt(s[i].0, s[b - 1].0));
                    text::lemma_lex_trans(k, s[i].0, s[b - 1].0);
                }
            } else if a > i {
                assert(text::lex_lt(s[a - 1].0, s[b - 1].0));
            }
        }
    }
}

impl TextMap {
    #[verifier::type_invariant]
    spec fn inv(self) -> bool {
        ascending(pair_views(self.pairs@))
    }

    /// The pairs in the order of their keys.
    pub closed spec fn items(&self) -> Seq<(Seq<char>, Seq<char>)> {
        pair_views(self.pairs@)
    }

    /// A map without pairs.
    pub fn new() -> (r: TextMap)
        ensures
            r.items() == Seq::<(Seq<char>, Seq<char>)>::empty(),
    {
        let r = TextMap { pairs: Vec::new() };
        assert(r.items() =~= Seq::<(Seq<char>, Seq<char>)>::empty());
        r
    }

    /// Sets the value of a key.
    pub fn insert(&mut self, key: String, value: String)
        ensures
            final(self).items() == with_pair(old(self).items(), key@, value@),
    {
        proof {
            use_type_invariant(&*self);
        }
        let ghost s = self.items();
        let mut pairs: Vec<(String, String)> = Vec::new();
        std::mem::swap(&mut pairs, &mut self.pairs);
        let mut i: usize = 0;
        while i < pairs.len() && text::less(&pairs[i].0, &key)
            invariant
                i <= pairs.len(),
                s == pair_views(pairs@),
                lower_bound(s, key@, 0) == lower_bound(s, key@, i as int),
            decreases pairs.len() - i,
        {
            i += 1;
        }
        proof {
            lemma_with_pair(s, key@, value@);
        }
        let ghost k = key@;
        let ghost v = value@;
        if i < pairs.len() && text::same(&pairs[i].0, &key) {
            pairs[i] = (key, value);
            assert(pair_views(pairs@) =~= s.update(i as int, (k, v)));
        } else {
            pairs.insert(i, (key, value));
            assert(pair_views(pairs@) =~= s.insert(i as int, (k, v)));
        }
        self.pairs = pairs;
    }

    /// The value of a key.
    pub fn get(&self, key: &str) -> (r: Option<&str>)
        ensures
            match r {
                Some(v) => value_of(self.items(), key@) == Some(v@),
                None => value_of(self.items(), key@) is None,
            },
    {
        let ghost s = self.items();
        let mut i: usize = 0;
        while i < self.pairs.len()
            invariant
                i <= self.pairs.len(),
                s == pair_views(self.pairs@),
                s == self.items(),
                key_position(s, key@, 0) == key_position(s, key@, i as int),
            decreases self.pairs.len() - i,
        {
            assert(s[i as int].0 == self.pairs@[i as int].0@);
            if text::same(&self.pairs[i].0, key) {
                return Some(self.pairs[i].1.as_str());
            }
            i += 1;
        }
        None
    }

    /// The number of pairs. The keys of every map are in ascending order.
    pub fn len(&self) -> (r: usize)
        ensures
            r == self.items().len(),
            ascending(self.items()),
    {
        proof {
            use_type_invariant(self);
        }
        self.pairs.len()
    }

    /// The `i`-th pair in the order of the keys.
    pub fn pair_at(&self, i: usize) -> (r: (&str, &str))
        requires
            i < self.items().len(),
        ensures
            r.0@ == self.items()[i as int].0,
            r.1@ == self.items()[i as int].1,
    {
        (self.pairs[i].0.as_str(), self.pairs[i].1.as_str())
    }
}

/// A key has the value that was set last.
pub proof fn law_insert_then_get(
    s: Seq<(Seq<char>, Seq<char>)>,
    k: Seq<char>,
    v: Seq<char>,
)
    requires
        ascending(s),
    ensures
        value_of(with_pair(s, k, v), k) == Some(v),
{
    let r = with_pair(s, k, v);
    let i = lower_bound(s, k, 0);
    lemma_lower_bound(s, k, 0);
    assert(r[i] == (k, v));
    assert forall|j: int| 0 <= j < i implies (#[trigger] r[j]).0 != k by {
        assert(r[j] == s[j]);
        text::lemma_lex_irreflexive(k);
    }
    lemma_key_position(r, k, 0, i);
}

/// Setting a key leaves the values of all others, and without pairs no key
/// has a value.
pub proof fn law_insert_keeps_others(
    s: Seq<(Seq<char>, Seq<char>)>,
    k: Seq<char>,
    v: Seq<char>,
    q: Seq<char>,
)
    requires
        ascending(s),
        q != k,
    ensures
        value_of(with_pair(s, k, v), q) == value_of(s, q),
        value_of(Seq::empty(), q) is None,
{
    let n = with_pair(s, k, v);
    let i = lower_bound(s, k, 0);
    lemma_lower_bound(s, k, 0);
    lemma_found_or_not(s, q, 0);
    let p = key_position(s, q, 0);
    let set = i < s.len() && s[i].0 == k;
    if p < s.len() {
        let at = if set || p < i {
            p
        } else {
            p + 1
        };
        assert(n[at] == s[p]);
        assert forall|j: int| 0 <= j < at implies (#[trigger] n[j]).0 != q by {
            if j != i {
                let o = if set || j < i {
                    j
                } else {
                    j - 1
                };
                assert(n[j] == s[o]);
            }
        }
        lemma_key_position(n, q, 0, at);
    } else {
        assert forall|j: int| 0 <= j < n.len() implies (#[trigger] n[j]).0 != q by {
            if j != i {
                let o = if set || j < i {
                    j
                } else {
                    j - 1
                };
                assert(n[j] == s[o]);
            }
        }
        lemma_found_or_not(n, q, 0);
        if key_position(n, q, 0) < n.len() {
            assert(n[key_position(n, q, 0)].0 != q);
        }
    }
}

/// The position of a key is where it first stands, or the end.
proof fn lemma_found_or_not(s: Seq<(Seq<char>, Seq<char>)>, k: Seq<char>, i: int)
    requires
        0 <= i <= s.len(),
    ensures
        i <= key_position(s, k, i) <= s.len(),
        key_position(s, k, i) < s.len() ==> s[key_position(s, k, i)].0 == k,
        forall|j: int| i <= j < key_position(s, k, i) ==> (#[trigger] s[j]).0 != k,
    decreases s.len() - i,
{
    if i < s.len() && s[i].0 != k {
        lemma_found_or_not(s, k, i + 1);
    }
}

proof fn lemma_key_position(s: Seq<(Seq<char>, Seq<char>)>, k: Seq<char>, i: int, n: int)
    requires
        0 <= i <= n < s.len(),
        s[n].0 == k,
        forall|j: int| i <= j < n ==> (#[trigger] s[j]).0 != k,
    ensures
        key_position(s, k, i) == n,
    decreases n - i,
{
    if i < n {
        lemma_key_position(s, k, i + 1, n);
    }
}

} // verus!
