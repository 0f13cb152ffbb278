//! A small map from paths to values that drops its oldest entry when full.
use crate::text;
use vstd::prelude::*;

verus! {

/// The most entries that a cache holds.
pub const MAX_CACHE_ENTRIES: usize = 64;

/// A value that is kept for a path.
#[derive(Debug)]
pub struct Kept<V> {
    pub path: String,
    pub value: V,
}

/// Values by path, the oldest first.
#[derive(Debug)]
pub struct FifoMap<V> {
    entries: Vec<Kept<V>>,
}

/// The position of the entry for `path` from `i` on, or the number of
/// entries.
pub open spec fn position_of<V>(s: Seq<Kept<V>>, path: Seq<char>, i: int) -> int
    decreases s.len() - i,
{
    if 0 <= i < s.len() && s[i].path@ != path {
        position_of(s, path, i + 1)
    } else {
        i
    }
}

/// The value that is kept for `path`.
pub open spec fn kept_for<V>(s: Seq<Kept<V>>, path: Seq<char>) -> Option<V> {
    let i = position_of(s, path, 0);
    if i < s.len() {
        Some(s[i].value)
    } else {
        None
    }
}

/// The entries with `e` as the newest one. It takes the place of an entry for
/// the same path, or else of the oldest one where the map is full.
pub open spec fn stored<V>(s: Seq<Kept<V>>, e: Kept<V>) -> Seq<Kept<V>> {
    let i = position_of(s, e.path@, 0);
    let rest = if i < s.len() {
        s.remove(i)
    } else if s.len() >= MAX_CACHE_ENTRIES {
        s.skip(1)
    } else {
        s
    };
    rest.push(e)
}

/// Each path once, and no more entries than allowed.
pub open spec fn bounded<V>(s: Seq<Kept<V>>) -> bool {
    &&& s.len() <= MAX_CACHE_ENTRIES
    &&& forall|i: int, j: int|
        0 <= i < j < s.len() ==> (#[trigger] s[i]).path@ != (#[trigger] s[j]).path@
}

proof fn lemma_position_of<V>(s: Seq<Kept<V>>, path: Seq<char>, i: int)
    requires
        0 <= i <= s.len(),
    ensures
        i <= position_of(s, path, i) <= s.len(),
        position_of(s, path, i) < s.len() ==> s[position_of(s, path, i)].path@ == path,
        forall|j: int| i <= j < position_of(s, path, i) ==> (#[trigger] s[j]).path@ != path,
    decreases s.len() - i,
{
    if i < s.len() && s[i].path@ != path {
        lemma_position_of(s, path, i + 1);
    }
}

/// Storing keeps the bound and each path once, and what was just stored is
/// found.
pub proof fn law_stored<V>(s: Seq<Kept<V>>, e: Kept<V>)
    requires
        bounded(s),
    ensures
        bounded(stored(s, e)),
        kept_for(stored(s, e), e.path@) == Some(e.value),
{
    let i = position_of(s, e.path@, 0);
    lemma_position_of(s, e.path@, 0);
    let r = stored(s, e);
    let rest = r.drop_last();
    assert forall|j: int| 0 <= j < rest.len() implies (#[trigger] rest[j]).path@ != e.path@ by {
        if i < s.len() {
            if j < i {
                assert(rest[j] == s[j]);
            } else {
                assert(rest[j] == s[j + 1]);
                assert(s[i].path@ != s[j + 1].path@);
            }
        } else if s.len() >= MAX_CACHE_ENTRIES {
            assert(rest[j] == s[j + 1]);
        } else {
            assert(rest[j] == s[j]);
        }
    }
    assert forall|a: int, b: int| 0 <= a < b < r.len() implies (#[trigger] r[a]).path@ != (
    #[trigger] r[b]).path@ by {
        assert(r[a] == rest[a]);
        if b < rest.len() {
            assert(r[b] == rest[b]);
            let sa = if i < s.len() && a < i {
                a
            } else if i < s.len() || s.len() >= MAX_CACHE_ENTRIES {
                a + 1
            } else {
                a
            };
            let sb = if i < s.len() && b < i {
                b
            } else if i < s.len() || s.len() >= MAX_CACHE_ENTRIES {
                b + 1
            } else {
                b
            };
            assert(rest[a] == s[sa] && rest[b] == s[sb]);
        }
    }
    lemma_position_of(r, e.path@, 0);
    let k = position_of(r, e.path@, 0);
    if k < rest.len() {
        assert(r[k] == rest[k]);
    }
    assert(r[rest.len() as int] == e);
    assert(k == rest.len());
}

/// What is kept for another path than the one just stored stays, unless it was
/// the oldest entry of a full map that did not know the stored path.
pub proof fn law_store_keeps_others<V>(
    s: Seq<Kept<V>>,
    e: Kept<V>,
    path: Seq<char>,
)
    requires
        bounded(s),
        path != e.path@,
        s.len() < MAX_CACHE_ENTRIES || position_of(s, e.path@, 0) < s.len() || s[0].path@
            != path,
    ensures
        kept_for(stored(s, e), path) == kept_for(s, path),
{
    let r = stored(s, e);
    let i = position_of(s, e.path@, 0);
    let p = position_of(s, path, 0);
    let q = position_of(r, path, 0);
    lemma_position_of(s, e.path@, 0);
    lemma_position_of(s, path, 0);
    lemma_position_of(r, path, 0);
    law_stored(s, e);
    if p < s.len() {
        // where the entry went
        let w = if i < s.len() {
            if p < i {
                p
            } else {
                p - 1
            }
        } else if s.len() >= MAX_CACHE_ENTRIES {
            p - 1
        } else {
            p
        };
        assert(p != i);
        assert(r[w] == s[p]);
        assert(q <= w);
        if q < w {
            assert(r[q].path@ != r[w].path@);
        }
        assert(q == w);
    } else {
        if q < r.len() {
            if q == r.len() - 1 {
                assert(r[q] == e);
            } else {
                let o = if i < s.len() {
                    if q < i {
                        q
                    } else {
                        q + 1
                    }
                } else if s.len() >= MAX_CACHE_ENTRIES {
                    q + 1
                } else {
                    q
                };
                assert(r[q] == s[o]);
            }
        }
    }
}

impl<V> FifoMap<V> {
    /// The entries, the oldest first.
    pub closed spec fn items(&self) -> Seq<Kept<V>> {
        self.entries@
    }

    /// Each path once, and no more entries than allowed.
    pub open spec fn wf(&self) -> bool {
        bounded(self.items())
    }

    /// A map without entries.
    pub fn new() -> (r: FifoMap<V>)
        ensures
            r.wf(),
            r.items() == Seq::<Kept<V>>::empty(),
    {
        FifoMap { entries: Vec::new() }
    }

    /// The number of entries.
    pub fn len(&self) -> (r: usize)
        ensures
            r == self.items().len(),
    {
        self.entries.len()
    }

    fn position(&self, path: &str) -> (r: usize)
        ensures
            r == position_of(self.items(), path@, 0),
            r <= self.items().len(),
    {
        let mut i: usize = 0;
        while i < self.entries.len()
            invariant
                i <= self.entries.len(),
                position_of(self.items(), path@, 0) == position_of(self.items(), path@, i as int),
            decreases self.entries.len() - i,
        {
            if text::same(&self.entries[i].path, path) {
                return i;
            }
            i += 1;
        }
        i
    }

    /// The value that is kept for `path`.
    pub fn get(&self, path: &str) -> (r: Option<&V>)
        ensures
            match r {
                Some(v) => kept_for(self.items(), path@) == Some(*v),
                None => kept_for(self.items(), path@) is None,
            },
    {
        let i = self.position(path);
        if i < self.entries.len() {
            Some(&self.entries[i].value)
        } else {
            None
        }
    }

    /// Keeps a value for a path.
    pub fn store(&mut self, path: &str, value: V)
        requires
            old(self).wf(),
        ensures
            final(self).wf(),
            exists|e: Kept<V>|
                e.path@ == path@ && e.value == value && #[trigger] stored(old(self).items(), e)
                    == final(self).items(),
    {
        let e = Kept { path: path.to_owned(), value };
        proof {
            law_stored(self.items(), e);
        }
        let ghost before = self.items();
        let i = self.position(path);
        if i < self.entries.len() {
            self.entries.remove(i);
        } else if self.entries.len() >= MAX_CACHE_ENTRIES {
            self.entries.remove(0);
            assert(self.entries@ =~= before.skip(1));
        }
        self.entries.push(e);
        assert(stored(before, e) == self.items());
    }

    /// Forgets everything.
    pub fn clear(&mut self)
        ensures
            final(self).items() == Seq::<Kept<V>>::empty(),
            final(self).wf(),
    {
        self.entries.clear();
    }
}

} // verus!
