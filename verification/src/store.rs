//! In-memory document store: a mapping from caller-supplied identifiers to
//! stored text content. Keys are unique, insertion order is irrelevant, and
//! re-adding an existing identifier overwrites its content.

use vstd::prelude::*;

verus! {

/// The mapping an entry sequence denotes: later entries win, which together
/// with the uniqueness invariant makes the value of each key the single
/// entry that carries it.
spec fn map_of(entries: Seq<(String, String)>) -> Map<Seq<char>, Seq<char>>
    decreases entries.len(),
{
    if entries.len() == 0 {
        Map::<Seq<char>, Seq<char>>::empty()
    } else {
        map_of(entries.drop_last()).insert(entries.last().0@, entries.last().1@)
    }
}

proof fn lemma_map_of_contains(entries: Seq<(String, String)>, k: Seq<char>)
    ensures
        map_of(entries).contains_key(k) <==> (exists|i: int|
            0 <= i < entries.len() && #[trigger] entries[i].0@ == k),
    decreases entries.len(),
{
    if entries.len() > 0 {
        lemma_map_of_contains(entries.drop_last(), k);
        if entries.last().0@ == k {
            assert(entries[entries.len() - 1].0@ == k);
        } else {
            if exists|i: int| 0 <= i < entries.len() && #[trigger] entries[i].0@ == k {
                let i = choose|i: int| 0 <= i < entries.len() && #[trigger] entries[i].0@ == k;
                assert(entries.drop_last()[i].0@ == k);
            }
        }
    }
}

proof fn lemma_map_of_value(entries: Seq<(String, String)>, i: int)
    requires
        0 <= i < entries.len(),
        forall|j: int| i < j < entries.len() ==> (#[trigger] entries[j]).0@ != entries[i].0@,
    ensures
        map_of(entries).contains_key(entries[i].0@),
        map_of(entries)[entries[i].0@] == entries[i].1@,
    decreases entries.len(),
{
    if i < entries.len() - 1 {
        lemma_map_of_value(entries.drop_last(), i);
        assert(entries.drop_last()[i] == entries[i]);
        assert(entries[entries.len() - 1].0@ != entries[i].0@);
    }
}

/// A store with unique keys: the mapping it denotes has exactly one entry
/// per key.
pub struct DocumentStore {
    entries: Vec<(String, String)>,
}

impl DocumentStore {
    /// Key uniqueness: no two entries carry the same identifier.
    pub closed spec fn wf(&self) -> bool {
        forall|i: int, j: int|
            0 <= i < j < self.entries@.len() ==> (#[trigger] self.entries@[i]).0@ != (
            #[trigger] self.entries@[j]).0@
    }

    /// The identifier-to-content mapping this store holds.
    pub closed spec fn contents(&self) -> Map<Seq<char>, Seq<char>> {
        map_of(self.entries@)
    }

    /// Creates an empty store.
    pub fn new() -> (r: DocumentStore)
        ensures
            r.wf(),
            r.contents() == Map::<Seq<char>, Seq<char>>::empty(),
    {
        DocumentStore { entries: Vec::new() }
    }

    /// Inserts `content` under `id`, overwriting any content previously
    /// stored under the same identifier.
    pub fn add(&mut self, id: &str, content: &str)
        requires
            old(self).wf(),
        ensures
            final(self).wf(),
            final(self).contents() == old(self).contents().insert(id@, content@),
    {
        let ghost entries0 = self.entries@;
        let id_key = id.to_owned();
        let n = self.entries.len();
        let mut i: usize = 0;
        while i < n
            invariant
                self.entries@ == entries0,
                entries0 == old(self).entries@,
                old(self).wf(),
                n == entries0.len(),
                i <= n,
                id_key@ == id@,
                forall|j: int| 0 <= j < i ==> (#[trigger] entries0[j]).0@ != id@,
            decreases n - i,
        {
            if self.entries[i].0 == id_key {
                let new_pair = (id.to_owned(), content.to_owned());
                let ghost np = new_pair;
                let ghost ii = i as int;
                proof {
                    assert(entries0[ii].0@ == id@);
                }
                self.entries[i] = new_pair;
                proof {
                    let e = self.entries@;
                    assert(e == entries0.update(ii, np));
                    assert(e[ii].0@ == id@ && e[ii].1@ == content@);
                    assert forall|a: int, b: int| 0 <= a < b < e.len() implies (
                    #[trigger] e[a]).0@ != (#[trigger] e[b]).0@ by {
                        assert(entries0[a].0@ != entries0[b].0@);
                        if a != ii {
                            assert(e[a] == entries0[a]);
                        }
                        if b != ii {
                            assert(e[b] == entries0[b]);
                        }
                        if a == ii {
                            assert(e[b].0@ != entries0[ii].0@);
                        }
                        if b == ii {
                            assert(e[a].0@ != entries0[ii].0@);
                        }
                    }
                    assert(self.wf());
                    assert forall|j: int| ii < j < e.len() implies (#[trigger] e[j]).0@
                        != e[ii].0@ by {
                        assert(e[j] == entries0[j]);
                        assert(entries0[j].0@ != entries0[ii].0@);
                    }
                    lemma_map_of_value(e, ii);
                    let m0 = old(self).contents().insert(id@, content@);
                    assert forall|k: Seq<char>|
                        self.contents().contains_key(k) == m0.contains_key(k) by {
                        lemma_map_of_contains(e, k);
                        lemma_map_of_contains(entries0, k);
                        if k == id@ {
                            assert(e[ii].0@ == k);
                        } else {
                            if self.contents().contains_key(k) {
                                let j = choose|j: int|
                                    0 <= j < e.len() && (#[trigger] e[j]).0@ == k;
                                assert(j != ii);
                                assert(entries0[j].0@ == k);
                            }
                            if m0.contains_key(k) {
                                let j = choose|j: int|
                                    0 <= j < entries0.len() && (#[trigger] entries0[j]).0@ == k;
                                assert(entries0[ii].0@ == id@);
                                assert(j != ii);
                                assert(e[j].0@ == k);
                            }
                        }
                    }
                    assert forall|k: Seq<char>| self.contents().contains_key(k) implies
                        self.contents()[k] == m0[k] by {
                        lemma_map_of_contains(e, k);
                        let j = choose|j: int| 0 <= j < e.len() && (#[trigger] e[j]).0@ == k;
                        assert forall|l: int| j < l < e.len() implies (#[trigger] e[l]).0@
                            != e[j].0@ by {}
                        lemma_map_of_value(e, j);
                        if k == id@ {
                            assert(j == ii);
                        } else {
                            assert(j != ii);
                            assert(entries0[j] == e[j]);
                            assert forall|l: int| j < l < entries0.len() implies (
                            #[trigger] entries0[l]).0@ != entries0[j].0@ by {}
                            lemma_map_of_value(entries0, j);
                        }
                    }
                    assert(self.contents() =~= m0);
                }
                return ;
            }
            i = i + 1;
        }
        self.entries.push((id.to_owned(), content.to_owned()));
        proof {
            let e = self.entries@;
            assert(e.drop_last() =~= entries0);
            assert(self.wf());
            assert(self.contents() == old(self).contents().insert(id@, content@));
        }
    }

    /// Looks the identifier up; returns the stored content, or `None` when
    /// nothing has been stored under `id`.
    pub fn get(&self, id: &str) -> (r: Option<&String>)
        requires
            self.wf(),
        ensures
            r is Some <==> self.contents().contains_key(id@),
            r is Some ==> r.unwrap()@ == self.contents()[id@],
    {
        let id_key = id.to_owned();
        let n = self.entries.len();
        let mut i: usize = 0;
        while i < n
            invariant
                self.wf(),
                n == self.entries@.len(),
                i <= n,
                id_key@ == id@,
                forall|j: int| 0 <= j < i ==> (#[trigger] self.entries@[j]).0@ != id@,
            decreases n - i,
        {
            if self.entries[i].0 == id_key {
                proof {
                    lemma_map_of_value(self.entries@, i as int);
                }
                return Some(&self.entries[i].1);
            }
            i = i + 1;
        }
        proof {
            lemma_map_of_contains(self.entries@, id@);
        }
        None
    }

    /// True when nothing has ever been stored.
    pub fn is_empty(&self) -> (r: bool)
        requires
            self.wf(),
        ensures
            r <==> self.contents() == Map::<Seq<char>, Seq<char>>::empty(),
    {
        let r = self.entries.len() == 0;
        proof {
            if self.entries@.len() > 0 {
                lemma_map_of_value(self.entries@, self.entries@.len() - 1);
                assert(self.contents().contains_key(
                    self.entries@[self.entries@.len() - 1].0@,
                ));
            } else {
                assert(self.contents() =~= Map::<Seq<char>, Seq<char>>::empty());
            }
        }
        r
    }
}

} // verus!
