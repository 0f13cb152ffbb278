//! The alias index: which spec entries answer to a command name, in order of
//! precedence.
use crate::text;
use vstd::prelude::*;

verus! {

/// The candidates of one alias, as indices into the entry list.
#[derive(Debug)]
pub struct AliasSlot {
    pub alias: String,
    pub candidates: Vec<usize>,
}

/// A map from aliases to their candidates. The first candidate is the
/// primary one.
#[derive(Debug)]
pub struct AliasIndex {
    slots: Vec<AliasSlot>,
}

/// Entry indices as integers.
pub open spec fn indices(v: Seq<usize>) -> Seq<int> {
    v.map_values(|i: usize| i as int)
}

/// The index with `entry` as the last candidate of `alias`, unless it is one
/// already.
pub open spec fn with_candidate(
    m: Map<Seq<char>, Seq<int>>,
    alias: Seq<char>,
    entry: int,
) -> Map<Seq<char>, Seq<int>> {
    if m.dom().contains(alias) {
        if m[alias].contains(entry) {
            m
        } else {
            m.insert(alias, m[alias].push(entry))
        }
    } else {
        m.insert(alias, seq![entry])
    }
}

/// The primary candidate of an alias.
pub open spec fn primary(m: Map<Seq<char>, Seq<int>>, alias: Seq<char>) -> Option<int> {
    if m.dom().contains(alias) && m[alias].len() > 0 {
        Some(m[alias][0])
    } else {
        None
    }
}

impl AliasIndex {
    pub closed spec fn key(&self, i: int) -> Seq<char> {
        self.slots@[i].alias@
    }

    pub closed spec fn size(&self) -> int {
        self.slots@.len() as int
    }

    spec fn has(&self, alias: Seq<char>) -> bool {
        exists|i: int| 0 <= i < self.size() && #[trigger] self.key(i) == alias
    }

    spec fn slot_of(&self, alias: Seq<char>) -> int {
        choose|i: int| 0 <= i < self.size() && #[trigger] self.key(i) == alias
    }

    /// No alias has two slots.
    pub closed spec fn wf(&self) -> bool {
        forall|i: int, j: int|
            0 <= i < j < self.size() ==> #[trigger] self.key(i) != #[trigger] self.key(j)
    }

    proof fn lemma_slot(&self, i: int)
        requires
            self.wf(),
            0 <= i < self.size(),
        ensures
            self@.dom().contains(self.key(i)),
            self@[self.key(i)] == indices(self.slots@[i].candidates@),
    {
        assert(self.has(self.key(i)));
        let j = self.slot_of(self.key(i));
        assert(0 <= j < self.size() && self.key(j) == self.key(i));
        assert(i == j);
    }

    /// An index without aliases.
    pub fn new() -> (r: AliasIndex)
        ensures
            r.wf(),
            r@ == Map::<Seq<char>, Seq<int>>::empty(),
    {
        let r = AliasIndex { slots: Vec::new() };
        assert(r@ =~= Map::<Seq<char>, Seq<int>>::empty());
        r
    }

    fn position(&self, alias: &str) -> (r: usize)
        requires
            self.wf(),
        ensures
            r <= self.slots.len(),
            r < self.slots.len() ==> self.key(r as int) == alias@,
            r < self.slots.len() <==> self@.dom().contains(alias@),
    {
        let mut i: usize = 0;
        while i < self.slots.len()
            invariant
                self.wf(),
                i <= self.slots.len(),
                forall|j: int| 0 <= j < i ==> #[trigger] self.key(j) != alias@,
            decreases self.slots.len() - i,
        {
            if text::same(&self.slots[i].alias, alias) {
                assert(self.key(i as int) == alias@);
                return i;
            }
            i += 1;
        }
        i
    }

    /// The candidates of `alias`, the primary one first.
    pub fn get(&self, alias: &str) -> (r: Option<&Vec<usize>>)
        requires
            self.wf(),
        ensures
            match r {
                Some(c) => self@.dom().contains(alias@) && self@[alias@] == indices(c@),
                None => !self@.dom().contains(alias@),
            },
    {
        let i = self.position(alias);
        if i < self.slots.len() {
            proof {
                self.lemma_slot(i as int);
            }
            Some(&self.slots[i].candidates)
        } else {
            None
        }
    }

    /// Registers `entry` behind the candidates that `alias` has.
    pub fn push_candidate(&mut self, alias: &str, entry: usize)
        requires
            old(self).wf(),
        ensures
            final(self).wf(),
            final(self)@ == with_candidate(old(self)@, alias@, entry as int),
    {
        let i = self.position(alias);
        let ghost before = *self;
        if i < self.slots.len() {
            proof {
                self.lemma_slot(i as int);
            }
            let mut k: usize = 0;
            while k < self.slots[i].candidates.len()
                invariant
                    *self == before,
                    before.wf(),
                    i < self.slots.len(),
                    self.key(i as int) == alias@,
                    before@.dom().contains(alias@),
                    before@[alias@] == indices(self.slots@[i as int].candidates@),
                    k <= self.slots@[i as int].candidates@.len(),
                    forall|j: int|
                        0 <= j < k ==> self.slots@[i as int].candidates@[j] != entry,
                decreases self.slots@[i as int].candidates@.len() - k,
            {
                if self.slots[i].candidates[k] == entry {
                    assert(before@[alias@][k as int] == entry as int);
                    assert(before@[alias@].contains(entry as int));
                    return;
                }
                k += 1;
            }
            assert(!before@[alias@].contains(entry as int));
            self.slots[i].candidates.push(entry);
            proof {
                assert forall|j: int| 0 <= j < self.size() implies #[trigger] self.key(j)
                    == before.key(j) by {}
                assert(indices(self.slots@[i as int].candidates@) =~= indices(
                    before.slots@[i as int].candidates@,
                ).push(entry as int));
                assert forall|a: Seq<char>| #[trigger] self@.dom().contains(a) implies before@.insert(
                    alias@,
                    before@[alias@].push(entry as int),
                ).dom().contains(a) && self@[a] == before@.insert(
                    alias@,
                    before@[alias@].push(entry as int),
                )[a] by {
                    let j = self.slot_of(a);
                    assert(0 <= j < self.size() && self.key(j) == a);
                    self.lemma_slot(j);
                    before.lemma_slot(j);
                }
                assert forall|a: Seq<char>| #[trigger] before@.dom().contains(
                    a,
                ) implies self@.dom().contains(a) by {
                    let j = before.slot_of(a);
                    assert(0 <= j < before.size() && before.key(j) == a);
                    assert(self.key(j) == a);
                }
                assert(self@ =~= before@.insert(alias@, before@[alias@].push(entry as int)));
            }
        } else {
            let mut candidates: Vec<usize> = Vec::new();
            candidates.push(entry);
            self.slots.push(AliasSlot { alias: alias.to_owned(), candidates });
            proof {
                assert forall|j: int| 0 <= j < before.size() implies #[trigger] self.key(j)
                    == before.key(j) by {}
                let n = before.size();
                assert(self.key(n) == alias@);
                assert(self.wf());
                assert(indices(self.slots@[n].candidates@) =~= seq![entry as int]);
                let want = before@.insert(alias@, seq![entry as int]);
                assert forall|a: Seq<char>| #[trigger] self@.dom().contains(a) implies want.dom().contains(
                    a,
                ) && self@[a] == want[a] by {
                    let j = self.slot_of(a);
                    assert(0 <= j < self.size() && self.key(j) == a);
                    self.lemma_slot(j);
                    if j < n {
                        before.lemma_slot(j);
                    }
                }
                assert forall|a: Seq<char>| #[trigger] want.dom().contains(
                    a,
                ) implies self@.dom().contains(a) by {
                    if a == alias@ {
                        assert(self.key(n) == a);
                    } else {
                        let j = before.slot_of(a);
                        assert(0 <= j < before.size() && before.key(j) == a);
                        assert(self.key(j) == a);
                    }
                }
                assert(self@ =~= want);
            }
        }
    }

    /// There are as many aliases as slots.
    pub proof fn lemma_finite(&self)
        requires
            self.wf(),
        ensures
            self@.dom().finite(),
            self@.dom().len() == self.size(),
    {
        let keys = Seq::new(self.size() as nat, |i: int| self.key(i));
        assert(keys.no_duplicates());
        assert forall|a: Seq<char>| self@.dom().contains(a) == #[trigger] keys.to_set().contains(
            a,
        ) by {
            if self@.dom().contains(a) {
                let j = self.slot_of(a);
                assert(0 <= j < self.size() && self.key(j) == a);
                assert(keys[j] == a);
            }
            if keys.to_set().contains(a) {
                let j = choose|j: int| 0 <= j < keys.len() && keys[j] == a;
                assert(self.key(j) == a);
            }
        }
        assert(self@.dom() =~= keys.to_set());
        keys.unique_seq_to_set();
    }

    /// The number of slots.
    pub fn len(&self) -> (r: usize)
        requires
            self.wf(),
        ensures
            r == self.size(),
            self@.dom().finite(),
            r == self@.dom().len(),
    {
        proof {
            self.lemma_finite();
        }
        self.slots.len()
    }

    /// The candidates of the `i`-th alias.
    pub fn candidates_at(&self, i: usize) -> (r: &Vec<usize>)
        requires
            self.wf(),
            i < self.size(),
        ensures
            self@.dom().contains(self.key(i as int)),
            self@[self.key(i as int)] == indices(r@),
    {
        proof {
            self.lemma_slot(i as int);
        }
        &self.slots[i].candidates
    }

    /// The slots hold every alias, each once.
    pub proof fn lemma_keys(&self)
        requires
            self.wf(),
        ensures
            forall|a: Seq<char>| #[trigger]
                self@.dom().contains(a) ==> exists|i: int|
                    0 <= i < self.size() && #[trigger] self.key(i) == a,
            forall|i: int, j: int|
                0 <= i < j < self.size() ==> #[trigger] self.key(i) != #[trigger] self.key(j),
    {
    }
}

impl View for AliasIndex {
    type V = Map<Seq<char>, Seq<int>>;

    closed spec fn view(&self) -> Map<Seq<char>, Seq<int>> {
        Map::new(
            |a: Seq<char>| self.has(a),
            |a: Seq<char>| indices(self.slots@[self.slot_of(a)].candidates@),
        )
    }
}

} // verus!
