//! The connection registry: the process-wide mapping from session
//! identifier to the session's control handle.
//!
//! Entries are inserted on successful establishment and removed on
//! disconnect or relay-loop termination. The registry holds only enough to
//! send control messages — never the remote connection itself, which is
//! owned exclusively by the session's relay loop. The mapping is modelled
//! as a `Map` from identifier characters to handle; the backing vector
//! keeps identifiers unique, so at most one entry exists per identifier.

use vstd::prelude::*;
use vstd::string::StringExecFns;

verus! {

/// One registered session: its identifier and its control handle.
struct RegEntry<T> {
    id: String,
    handle: T,
}

/// The identifier-to-handle mapping a backing vector denotes, later entries
/// taking precedence (insertion keeps identifiers unique, so precedence
/// never actually decides).
spec fn entries_map<T>(s: Seq<RegEntry<T>>) -> Map<Seq<char>, T>
    decreases s.len(),
{
    if s.len() == 0 {
        Map::empty()
    } else {
        entries_map(s.drop_last()).insert(s.last().id@, s.last().handle)
    }
}

/// No two entries share an identifier.
spec fn unique_ids<T>(s: Seq<RegEntry<T>>) -> bool {
    forall|i: int, j: int| 0 <= i < j < s.len() ==> s[i].id@ != s[j].id@
}

proof fn lemma_map_domain<T>(s: Seq<RegEntry<T>>, k: Seq<char>)
    ensures
        entries_map(s).contains_key(k) <==> exists|i: int| 0 <= i < s.len() && s[i].id@ == k,
    decreases s.len(),
{
    if s.len() > 0 {
        let pre = s.drop_last();
        lemma_map_domain(pre, k);
        if k == s.last().id@ {
            assert(s[s.len() - 1].id@ == k);
        } else {
            if entries_map(pre).contains_key(k) {
                let i = choose|i: int| 0 <= i < pre.len() && pre[i].id@ == k;
                assert(s[i].id@ == k);
            }
            if exists|i: int| 0 <= i < s.len() && s[i].id@ == k {
                let i = choose|i: int| 0 <= i < s.len() && s[i].id@ == k;
                assert(pre[i].id@ == k);
            }
        }
    }
}

proof fn lemma_map_at_index<T>(s: Seq<RegEntry<T>>, i: int)
    requires
        unique_ids(s),
        0 <= i < s.len(),
    ensures
        entries_map(s).contains_key(s[i].id@),
        entries_map(s)[s[i].id@] == s[i].handle,
    decreases s.len(),
{
    let pre = s.drop_last();
    if i < s.len() - 1 {
        lemma_map_at_index(pre, i);
        assert(s[i].id@ != s.last().id@);
    }
}

proof fn lemma_map_remove<T>(s: Seq<RegEntry<T>>, i: int)
    requires
        unique_ids(s),
        0 <= i < s.len(),
    ensures
        entries_map(s.remove(i)) == entries_map(s).remove(s[i].id@),
        unique_ids(s.remove(i)),
    decreases s.len(),
{
    let pre = s.drop_last();
    assert forall|x: int, y: int| 0 <= x < y < s.remove(i).len() implies s.remove(i)[x].id@ != s
        .remove(i)[y].id@ by {
        assert(s.remove(i)[x] == if x < i {
            s[x]
        } else {
            s[x + 1]
        });
        assert(s.remove(i)[y] == if y < i {
            s[y]
        } else {
            s[y + 1]
        });
    }
    if i == s.len() - 1 {
        assert(s.remove(i) =~= pre);
        lemma_map_domain(pre, s[i].id@);
        assert(!entries_map(pre).contains_key(s[i].id@));
        assert(entries_map(pre) =~= entries_map(pre).insert(s.last().id@, s.last().handle).remove(
            s[i].id@,
        ));
    } else {
        lemma_map_remove(pre, i);
        assert(s.remove(i).drop_last() =~= pre.remove(i));
        assert(s.remove(i).last() == s.last());
        assert(s[i].id@ != s.last().id@);
        assert(entries_map(s.remove(i)) == entries_map(pre.remove(i)).insert(
            s.last().id@,
            s.last().handle,
        ));
        assert(entries_map(pre).remove(s[i].id@).insert(s.last().id@, s.last().handle)
            =~= entries_map(pre).insert(s.last().id@, s.last().handle).remove(s[i].id@));
    }
}

/// The connection registry. All public operations speak of `self@`, the
/// identifier-to-handle `Map` the registry denotes.
pub struct Registry<T> {
    entries: Vec<RegEntry<T>>,
}

impl<T> View for Registry<T> {
    type V = Map<Seq<char>, T>;

    closed spec fn view(&self) -> Map<Seq<char>, T> {
        entries_map(self.entries@)
    }
}

impl<T> Registry<T> {
    /// The registry's internal invariant: identifiers are unique, so at
    /// most one entry exists per identifier at any time.
    pub closed spec fn wf(&self) -> bool {
        unique_ids(self.entries@)
    }

    /// An empty registry.
    pub fn new() -> (r: Registry<T>)
        ensures
            r.wf(),
            r@ == Map::<Seq<char>, T>::empty(),
    {
        let r = Registry { entries: Vec::new() };
        proof {
            assert(r@ =~= Map::<Seq<char>, T>::empty());
        }
        r
    }

    fn find_index(&self, id: &String) -> (r: Option<usize>)
        ensures
            match r {
                Some(i) => i < self.entries@.len() && self.entries@[i as int].id@ == id@,
                None => forall|j: int| 0 <= j < self.entries@.len() ==> self.entries@[j].id@ != id@,
            },
    {
        let mut i: usize = 0;
        while i < self.entries.len()
            invariant
                i <= self.entries@.len(),
                forall|j: int| 0 <= j < i ==> self.entries@[j].id@ != id@,
            decreases self.entries@.len() - i,
        {
            if self.entries[i].id == *id {
                return Some(i);
            }
            i = i + 1;
        }
        None
    }

    /// Inserts a handle under an identifier: an unconditional upsert, so an
    /// existing entry for the same identifier is silently replaced.
    pub fn insert(&mut self, id: String, handle: T)
        requires
            old(self).wf(),
        ensures
            final(self).wf(),
            final(self)@ == old(self)@.insert(id@, handle),
    {
        let found = self.find_index(&id);
        let ghost pre = self.entries@;
        match found {
            Some(i) => {
                proof {
                    lemma_map_remove(pre, i as int);
                }
                self.entries.remove(i);
                proof {
                    assert(self.entries@ =~= pre.remove(i as int));
                }
            },
            None => {},
        }
        let ghost mid = self.entries@;
        proof {
            lemma_map_domain(mid, id@);
            assert(!entries_map(mid).contains_key(id@));
        }
        self.entries.push(RegEntry { id, handle });
        proof {
            assert(self.entries@.drop_last() =~= mid);
            assert(forall|j: int|
                0 <= j < mid.len() ==> mid[j] == #[trigger] self.entries@[j]);
            assert(entries_map(self.entries@) == entries_map(mid).insert(id@, handle));
            assert(entries_map(mid).insert(id@, handle) =~= entries_map(pre).insert(id@, handle));
        }
    }

    /// Finds the control handle registered under an identifier; `None`
    /// means no active session carries it.
    pub fn lookup(&self, id: &String) -> (r: Option<&T>)
        requires
            self.wf(),
        ensures
            r is Some <==> self@.contains_key(id@),
            r matches Some(h) ==> *h == self@[id@],
    {
        proof {
            lemma_map_domain(self.entries@, id@);
        }
        match self.find_index(id) {
            Some(i) => {
                proof {
                    lemma_map_at_index(self.entries@, i as int);
                }
                Some(&self.entries[i].handle)
            },
            None => None,
        }
    }

    /// Removes the entry for an identifier, reporting whether one existed;
    /// removal of an absent identifier changes nothing and is not an error.
    pub fn remove(&mut self, id: &String) -> (r: bool)
        requires
            old(self).wf(),
        ensures
            final(self).wf(),
            r == old(self)@.contains_key(id@),
            final(self)@ == old(self)@.remove(id@),
    {
        proof {
            lemma_map_domain(self.entries@, id@);
        }
        let ghost pre = self.entries@;
        match self.find_index(id) {
            Some(i) => {
                proof {
                    lemma_map_remove(pre, i as int);
                }
                self.entries.remove(i);
                proof {
                    assert(self.entries@ =~= pre.remove(i as int));
                }
                true
            },
            None => {
                proof {
                    assert(entries_map(pre) =~= entries_map(pre).remove(id@));
                }
                false
            },
        }
    }
}

/// The lifecycle law of one registration: a successful connect installs
/// exactly one entry for its identifier — the lookup finds exactly the
/// installed handle — a subsequent disconnect removes it, leaving every
/// other session untouched, and a second disconnect of the same identifier
/// finds nothing.
pub proof fn lemma_register_then_disconnect<T>(m: Map<Seq<char>, T>, id: Seq<char>, handle: T)
    ensures
        m.insert(id, handle).contains_key(id),
        m.insert(id, handle)[id] == handle,
        !m.insert(id, handle).remove(id).contains_key(id),
        !m.insert(id, handle).remove(id).remove(id).contains_key(id),
        forall|k: Seq<char>|
            k != id ==> (m.insert(id, handle).remove(id).contains_key(k) <==> m.contains_key(k)),
        forall|k: Seq<char>|
            k != id && m.contains_key(k) ==> m.insert(id, handle).remove(id)[k] == m[k],
{
}

} // verus!
