//! A map keyed by task kind, kept in ascending key order.
use crate::text::{
    text_before, text_eq, text_order_is_irreflexive, text_order_is_total, text_order_is_transitive,
    text_precedes,
};
use vstd::prelude::*;

verus! {

/// Whether the keys ascend strictly, so none occurs twice.
pub open spec fn keys_ascend<V>(entries: Seq<(String, V)>) -> bool {
    forall|i: int, j: int|
        0 <= i < j < entries.len() ==> text_precedes(
            #[trigger] entries[i].0@,
            #[trigger] entries[j].0@,
        )
}

/// Whether entry `i` has the key `kind`.
pub open spec fn holds_key<V>(entries: Seq<(String, V)>, i: int, kind: Seq<char>) -> bool {
    0 <= i < entries.len() && entries[i].0@ == kind
}

/// The map the entries make up.
pub open spec fn entries_map<V>(entries: Seq<(String, V)>) -> Map<Seq<char>, V> {
    Map::new(
        |kind: Seq<char>| exists|i: int| holds_key(entries, i, kind),
        |kind: Seq<char>| entries[choose|i: int| holds_key(entries, i, kind)].1,
    )
}

proof fn lemma_entry_is_mapped<V>(entries: Seq<(String, V)>, i: int)
    requires
        keys_ascend(entries),
        0 <= i < entries.len(),
    ensures
        entries_map(entries).contains_key(entries[i].0@),
        entries_map(entries)[entries[i].0@] == entries[i].1,
{
    let kind = entries[i].0@;
    assert(holds_key(entries, i, kind));
    let j = choose|j: int| holds_key(entries, j, kind);
    text_order_is_irreflexive(kind);
    assert(i == j) by {
        if i < j {
            assert(text_precedes(entries[i].0@, entries[j].0@));
        } else if j < i {
            assert(text_precedes(entries[j].0@, entries[i].0@));
        }
    }
}

/// The map of one more entry is the map so far with that entry added.
pub(crate) proof fn entries_map_grows<V>(entries: Seq<(String, V)>, i: int)
    requires
        keys_ascend(entries),
        0 <= i < entries.len(),
    ensures
        entries_map(entries.take(i + 1)) == entries_map(entries.take(i)).insert(
            entries[i].0@,
            entries[i].1,
        ),
{
    let shorter = entries.take(i);
    let longer = entries.take(i + 1);
    let entry = entries[i];
    text_order_is_irreflexive(entry.0@);
    assert(keys_ascend(shorter)) by {
        assert forall|a: int, b: int| 0 <= a < b < shorter.len() implies text_precedes(
            #[trigger] shorter[a].0@,
            #[trigger] shorter[b].0@,
        ) by {
            assert(text_precedes(entries[a].0@, entries[b].0@));
        }
    }
    assert forall|j: int| 0 <= j < i implies text_precedes(#[trigger] shorter[j].0@, entry.0@) by {
        assert(text_precedes(entries[j].0@, entries[i].0@));
    }
    assert forall|j: int| !holds_key(shorter, j, entry.0@) by {
        if holds_key(shorter, j, entry.0@) {
            assert(text_precedes(entries[j].0@, entries[i].0@));
        }
    }
    KindMap::<V>::lemma_inserted(shorter, i, entry);
    assert(shorter.insert(i, entry) =~= longer);
}

/// A map from kind to value, walked in ascending order of kind.
#[derive(Debug)]
pub struct KindMap<V> {
    entries: Vec<(String, V)>,
}

impl<V> View for KindMap<V> {
    type V = Map<Seq<char>, V>;

    closed spec fn view(&self) -> Map<Seq<char>, V> {
        entries_map(self.entries@)
    }
}

impl<V> KindMap<V> {
    #[verifier::type_invariant]
    spec fn ordered(self) -> bool {
        keys_ascend(self.entries@)
    }

    /// The empty map.
    pub fn new() -> (r: KindMap<V>)
        ensures
            r@ == Map::<Seq<char>, V>::empty(),
    {
        let r = KindMap { entries: Vec::new() };
        assert(entries_map(r.entries@) =~= Map::<Seq<char>, V>::empty());
        r
    }

    /// Where `kind` stands, or where it would.
    fn position(&self, kind: &str) -> (r: Result<usize, usize>)
        ensures
            r matches Ok(i) ==> holds_key(self.entries@, i as int, kind@),
            r matches Err(i) ==> i <= self.entries@.len() && (forall|j: int|
                0 <= j < i ==> text_precedes(#[trigger] self.entries@[j].0@, kind@)) && (forall|
                j: int,
            |
                i <= j < self.entries@.len() ==> text_precedes(
                    kind@,
                    #[trigger] self.entries@[j].0@,
                )),
    {
        proof {
            use_type_invariant(self);
        }
        let mut i: usize = 0;
        while i < self.entries.len()
            invariant
                i <= self.entries@.len(),
                keys_ascend(self.entries@),
                forall|j: int| 0 <= j < i ==> text_precedes(#[trigger] self.entries@[j].0@, kind@),
            decreases self.entries@.len() - i,
        {
            let here = self.entries[i].0.as_str();
            if text_eq(here, kind) {
                return Ok(i);
            }
            if text_before(kind, here) {
                assert forall|j: int| i <= j < self.entries@.len() implies text_precedes(
                    kind@,
                    #[trigger] self.entries@[j].0@,
                ) by {
                    if i < j {
                        text_order_is_transitive(
                            kind@,
                            self.entries@[i as int].0@,
                            self.entries@[j].0@,
                        );
                    }
                }
                return Err(i);
            }
            proof {
                text_order_is_total(here@, kind@);
            }
            i += 1;
        }
        Err(i)
    }

    proof fn lemma_absent(&self, kind: Seq<char>, at: int)
        requires
            0 <= at <= self.entries@.len(),
            forall|j: int| 0 <= j < at ==> text_precedes(#[trigger] self.entries@[j].0@, kind),
            forall|j: int|
                at <= j < self.entries@.len() ==> text_precedes(
                    kind,
                    #[trigger] self.entries@[j].0@,
                ),
        ensures
            forall|j: int| !holds_key(self.entries@, j, kind),
    {
        text_order_is_irreflexive(kind);
    }

    /// Map `kind` to `value`, replacing what it mapped to.
    pub fn insert(&mut self, kind: String, value: V)
        ensures
            final(self)@ == old(self)@.insert(kind@, value),
    {
        proof {
            use_type_invariant(&*self);
        }
        let ghost before = self.entries@;
        let ghost key = kind@;
        match self.position(kind.as_str()) {
            Ok(i) => {
                let ghost after = before.update(i as int, (kind, value));
                proof {
                    assert(keys_ascend(after)) by {
                        assert forall|a: int, b: int| 0 <= a < b < after.len() implies text_precedes(
                            #[trigger] after[a].0@,
                            #[trigger] after[b].0@,
                        ) by {
                            assert(text_precedes(before[a].0@, before[b].0@));
                        }
                    }
                    Self::lemma_replaced(before, i as int, (kind, value));
                }
                let mut held = KindMap::new();
                std::mem::swap(self, &mut held);
                let mut entries = held.entries;
                entries.set(i, (kind, value));
                *self = KindMap { entries };
            },
            Err(i) => {
                proof {
                    self.lemma_absent(key, i as int);
                    Self::lemma_inserted(before, i as int, (kind, value));
                }
                let mut held = KindMap::new();
                std::mem::swap(self, &mut held);
                let mut entries = held.entries;
                entries.insert(i, (kind, value));
                *self = KindMap { entries };
            },
        }
    }

    proof fn lemma_replaced(before: Seq<(String, V)>, at: int, entry: (String, V))
        requires
            keys_ascend(before),
            holds_key(before, at, entry.0@),
            keys_ascend(before.update(at, entry)),
        ensures
            entries_map(before.update(at, entry)) == entries_map(before).insert(entry.0@, entry.1),
    {
        let after = before.update(at, entry);
        let expected = entries_map(before).insert(entry.0@, entry.1);
        assert forall|kind: Seq<char>|
            entries_map(after).contains_key(kind) == expected.contains_key(kind) by {
            if entries_map(after).contains_key(kind) {
                let j = choose|j: int| holds_key(after, j, kind);
                assert(holds_key(before, j, kind));
            }
            if expected.contains_key(kind) {
                if kind == entry.0@ {
                    assert(holds_key(after, at, kind));
                } else {
                    let j = choose|j: int| holds_key(before, j, kind);
                    assert(holds_key(after, j, kind));
                }
            }
        }
        assert forall|kind: Seq<char>| entries_map(after).contains_key(kind) implies entries_map(
            after,
        )[kind] == expected[kind] by {
            let j = choose|j: int| holds_key(after, j, kind);
            lemma_entry_is_mapped(after, j);
            lemma_entry_is_mapped(before, j);
            lemma_entry_is_mapped(after, at);
            if kind == entry.0@ {
                assert(after[at] == entry);
            } else {
                assert(j != at);
                assert(after[j] == before[j]);
            }
        }
        assert(entries_map(after) =~= expected);
    }

    proof fn lemma_inserted(before: Seq<(String, V)>, at: int, entry: (String, V))
        requires
            keys_ascend(before),
            0 <= at <= before.len(),
            forall|j: int| 0 <= j < at ==> text_precedes(#[trigger] before[j].0@, entry.0@),
            forall|j: int|
                at <= j < before.len() ==> text_precedes(entry.0@, #[trigger] before[j].0@),
            forall|j: int| !holds_key(before, j, entry.0@),
        ensures
            keys_ascend(before.insert(at, entry)),
            entries_map(before.insert(at, entry)) == entries_map(before).insert(entry.0@, entry.1),
    {
        let after = before.insert(at, entry);
        let expected = entries_map(before).insert(entry.0@, entry.1);
        assert forall|a: int, b: int| 0 <= a < b < after.len() implies text_precedes(
            #[trigger] after[a].0@,
            #[trigger] after[b].0@,
        ) by {
            let x = if a < at {
                a
            } else {
                a - 1
            };
            let y = if b < at {
                b
            } else {
                b - 1
            };
            if a != at {
                assert(after[a] == before[x]);
            }
            if b != at {
                assert(after[b] == before[y]);
            }
            if a != at && b != at {
                assert(text_precedes(before[x].0@, before[y].0@));
            }
        }
        assert forall|kind: Seq<char>|
            entries_map(after).contains_key(kind) == expected.contains_key(kind) by {
            if entries_map(after).contains_key(kind) {
                let j = choose|j: int| holds_key(after, j, kind);
                if j < at {
                    assert(holds_key(before, j, kind));
                } else if j > at {
                    assert(holds_key(before, j - 1, kind));
                }
            }
            if expected.contains_key(kind) {
                if kind == entry.0@ {
                    assert(holds_key(after, at, kind));
                } else {
                    let j = choose|j: int| holds_key(before, j, kind);
                    if j < at {
                        assert(holds_key(after, j, kind));
                    } else {
                        assert(holds_key(after, j + 1, kind));
                    }
                }
            }
        }
        assert forall|kind: Seq<char>| entries_map(after).contains_key(kind) implies entries_map(
            after,
        )[kind] == expected[kind] by {
            let j = choose|j: int| holds_key(after, j, kind);
            lemma_entry_is_mapped(after, j);
            if j < at {
                assert(after[j] == before[j]);
                assert(holds_key(before, j, kind));
                lemma_entry_is_mapped(before, j);
            } else if j > at {
                assert(after[j] == before[j - 1]);
                assert(holds_key(before, j - 1, kind));
                lemma_entry_is_mapped(before, j - 1);
            }
        }
        assert(entries_map(after) =~= expected);
    }

    proof fn lemma_removed(before: Seq<(String, V)>, at: int)
        requires
            keys_ascend(before),
            0 <= at < before.len(),
        ensures
            keys_ascend(before.remove(at)),
            entries_map(before.remove(at)) == entries_map(before).remove(before[at].0@),
    {
        let after = before.remove(at);
        let gone = before[at].0@;
        let expected = entries_map(before).remove(gone);
        text_order_is_irreflexive(gone);
        assert forall|a: int, b: int| 0 <= a < b < after.len() implies text_precedes(
            #[trigger] after[a].0@,
            #[trigger] after[b].0@,
        ) by {
            let x = if a < at {
                a
            } else {
                a + 1
            };
            let y = if b < at {
                b
            } else {
                b + 1
            };
            assert(after[a] == before[x] && after[b] == before[y]);
            assert(text_precedes(before[x].0@, before[y].0@));
        }
        assert forall|kind: Seq<char>|
            entries_map(after).contains_key(kind) == expected.contains_key(kind) by {
            if entries_map(after).contains_key(kind) {
                let j = choose|j: int| holds_key(after, j, kind);
                let y = if j < at {
                    j
                } else {
                    j + 1
                };
                assert(holds_key(before, y, kind));
                if y < at {
                    assert(text_precedes(before[y].0@, before[at].0@));
                } else {
                    assert(text_precedes(before[at].0@, before[y].0@));
                }
            }
            if expected.contains_key(kind) {
                let j = choose|j: int| holds_key(before, j, kind);
                if j < at {
                    assert(holds_key(after, j, kind));
                } else {
                    assert(holds_key(after, j - 1, kind));
                }
            }
        }
        assert forall|kind: Seq<char>| entries_map(after).contains_key(kind) implies entries_map(
            after,
        )[kind] == expected[kind] by {
            let j = choose|j: int| holds_key(after, j, kind);
            let y = if j < at {
                j
            } else {
                j + 1
            };
            assert(after[j] == before[y]);
            lemma_entry_is_mapped(after, j);
            lemma_entry_is_mapped(before, y);
        }
        assert(entries_map(after) =~= expected);
    }

    /// Forget `kind`.
    pub fn remove(&mut self, kind: &str)
        ensures
            final(self)@ == old(self)@.remove(kind@),
    {
        proof {
            use_type_invariant(&*self);
        }
        match self.position(kind) {
            Ok(i) => {
                proof {
                    Self::lemma_removed(self.entries@, i as int);
                }
                let mut held = KindMap::new();
                std::mem::swap(self, &mut held);
                let mut entries = held.entries;
                let _ = entries.remove(i);
                *self = KindMap { entries };
            },
            Err(i) => {
                proof {
                    self.lemma_absent(kind@, i as int);
                    assert(self@.remove(kind@) =~= self@);
                }
            },
        }
    }

    /// What `kind` maps to.
    pub fn get(&self, kind: &str) -> (r: Option<&V>)
        ensures
            r is Some <==> self@.contains_key(kind@),
            r matches Some(value) ==> *value == self@[kind@],
    {
        proof {
            use_type_invariant(self);
        }
        match self.position(kind) {
            Ok(i) => {
                proof {
                    lemma_entry_is_mapped(self.entries@, i as int);
                }
                Some(&self.entries[i].1)
            },
            Err(i) => {
                proof {
                    self.lemma_absent(kind@, i as int);
                }
                None
            },
        }
    }

    /// The entries in ascending order of kind.
    pub fn entries(&self) -> (r: &[(String, V)])
        ensures
            keys_ascend(r@),
            entries_map(r@) == self@,
    {
        proof {
            use_type_invariant(self);
        }
        self.entries.as_slice()
    }

    /// The kinds, in ascending order.
    pub fn kinds(&self) -> (r: Vec<String>)
        ensures
            forall|i: int, j: int|
                0 <= i < j < r@.len() ==> text_precedes(#[trigger] r@[i]@, #[trigger] r@[j]@),
            forall|kind: Seq<char>|
                self@.contains_key(kind) <==> exists|i: int|
                    0 <= i < r@.len() && #[trigger] r@[i]@ == kind,
    {
        proof {
            use_type_invariant(self);
        }
        let mut kinds: Vec<String> = Vec::new();
        let mut i: usize = 0;
        while i < self.entries.len()
            invariant
                i <= self.entries@.len(),
                kinds@.len() == i,
                forall|j: int| 0 <= j < i ==> #[trigger] kinds@[j]@ == self.entries@[j].0@,
            decreases self.entries@.len() - i,
        {
            kinds.push(self.entries[i].0.clone());
            i += 1;
        }
        assert forall|kind: Seq<char>|
            self@.contains_key(kind) <==> exists|i: int|
                0 <= i < kinds@.len() && #[trigger] kinds@[i]@ == kind by {
            if self@.contains_key(kind) {
                let j = choose|j: int| holds_key(self.entries@, j, kind);
                assert(kinds@[j]@ == kind);
            }
            if exists|i: int| 0 <= i < kinds@.len() && #[trigger] kinds@[i]@ == kind {
                let j = choose|i: int| 0 <= i < kinds@.len() && #[trigger] kinds@[i]@ == kind;
                assert(holds_key(self.entries@, j, kind));
            }
        }
        assert forall|a: int, b: int| 0 <= a < b < kinds@.len() implies text_precedes(
            #[trigger] kinds@[a]@,
            #[trigger] kinds@[b]@,
        ) by {
            assert(text_precedes(self.entries@[a].0@, self.entries@[b].0@));
        }
        kinds
    }

    /// The number of kinds.
    pub fn len(&self) -> (r: usize)
        ensures
            r == self@.dom().len(),
            self@.dom().finite(),
    {
        proof {
            use_type_invariant(self);
            Self::lemma_size(self.entries@);
        }
        self.entries.len()
    }

    proof fn lemma_size(entries: Seq<(String, V)>)
        requires
            keys_ascend(entries),
        ensures
            entries_map(entries).dom().finite(),
            entries_map(entries).dom().len() == entries.len(),
        decreases entries.len(),
    {
        if entries.len() == 0 {
            assert(entries_map(entries).dom() =~= Set::empty());
        } else {
            let shorter = entries.drop_last();
            Self::lemma_size(shorter);
            let at = shorter.len() as int;
            let entry = entries.last();
            text_order_is_irreflexive(entry.0@);
            assert forall|j: int| 0 <= j < at implies text_precedes(
                #[trigger] shorter[j].0@,
                entry.0@,
            ) by {
                assert(text_precedes(entries[j].0@, entries[at].0@));
            }
            assert forall|j: int| !holds_key(shorter, j, entry.0@) by {
                if holds_key(shorter, j, entry.0@) {
                    assert(text_precedes(entries[j].0@, entries[at].0@));
                }
            }
            Self::lemma_inserted(shorter, at, entry);
            assert(shorter.insert(at, entry) =~= entries);
            assert(!entries_map(shorter).contains_key(entry.0@));
            assert(entries_map(entries).dom() =~= entries_map(shorter).dom().insert(entry.0@));
        }
    }

    /// Whether no kind is mapped.
    pub fn is_empty(&self) -> (r: bool)
        ensures
            r == (self@.dom().len() == 0),
    {
        self.len() == 0
    }
}

impl<V: Copy> Clone for KindMap<V> {
    fn clone(&self) -> (r: KindMap<V>)
        ensures
            r@ == self@,
    {
        let entries = self.entries();
        let mut r: KindMap<V> = KindMap::new();
        let mut i: usize = 0;
        assert(entries@.take(0) =~= Seq::empty());
        assert(r@ =~= entries_map(entries@.take(0)));
        while i < entries.len()
            invariant
                i <= entries@.len(),
                keys_ascend(entries@),
                entries_map(entries@) == self@,
                r@ == entries_map(entries@.take(i as int)),
            decreases entries@.len() - i,
        {
            proof {
                entries_map_grows(entries@, i as int);
            }
            r.insert(entries[i].0.clone(), entries[i].1);
            i += 1;
        }
        assert(entries@.take(i as int) =~= entries@);
        r
    }
}

} // verus!
