//! The connection table: a map from connection identifier to connection
//! state, with at most one state under an identifier.

use vstd::prelude::*;

verus! {

/// One identifier and the state that lives under it.
struct Entry<S> {
    id: Vec<u8>,
    state: S,
}

/// A map from connection identifier to connection state. Its view is the
/// mathematical map; the order in which entries were made plays no part.
pub struct ConnectionTable<S> {
    entries: Vec<Entry<S>>,
}

/// Why [`ConnectionTable::create`] made no entry.
#[derive(Debug, PartialEq, Eq)]
pub enum CreateError<E> {
    /// The identifier already has a live state, which stays as it is.
    Occupied,
    /// The connection was not accepted; the cause is handed back.
    Rejected(E),
}

/// What `create` leaves of `table`: the accepted state is bound to `id` where
/// `id` was free, and nothing changes otherwise.
pub open spec fn created<S, E>(table: Map<Seq<u8>, S>, id: Seq<u8>, accepted: Result<S, E>) -> Map<
    Seq<u8>,
    S,
> {
    match accepted {
        Ok(state) => if table.contains_key(id) {
            table
        } else {
            table.insert(id, state)
        },
        Err(_) => table,
    }
}

/// What `create` answers.
pub open spec fn create_outcome<S, E>(
    table: Map<Seq<u8>, S>,
    id: Seq<u8>,
    accepted: Result<S, E>,
) -> Result<(), CreateError<E>> {
    match accepted {
        Ok(_) => if table.contains_key(id) {
            Err(CreateError::Occupied)
        } else {
            Ok(())
        },
        Err(cause) => Err(CreateError::Rejected(cause)),
    }
}

/// What `lookup` finds under `id`.
pub open spec fn looked_up<S>(table: Map<Seq<u8>, S>, id: Seq<u8>) -> Option<S> {
    if table.contains_key(id) {
        Some(table[id])
    } else {
        None
    }
}

/// Whether two byte strings are the same.
pub fn same_bytes(a: &[u8], b: &[u8]) -> (same: bool)
    ensures
        same == (a@ == b@),
{
    if a.len() != b.len() {
        return false;
    }
    let mut i: usize = 0;
    while i < a.len()
        invariant
            a@.len() == b@.len(),
            i <= a@.len(),
            forall|k: int| 0 <= k < i ==> a@[k] == b@[k],
        decreases a@.len() - i,
    {
        if a[i] != b[i] {
            return false;
        }
        i = i + 1;
    }
    assert(a@ =~= b@);
    true
}

impl<S> ConnectionTable<S> {
    /// The identifiers in the order in which they are stored.
    pub closed spec fn keys(&self) -> Seq<Seq<u8>> {
        Seq::new(self.entries@.len(), |i: int| self.entries@[i].id@)
    }

    /// No identifier is stored twice.
    pub closed spec fn wf(&self) -> bool {
        self.keys().no_duplicates()
    }

    pub closed spec fn view(&self) -> Map<Seq<u8>, S> {
        Map::new(
            |id: Seq<u8>| self.keys().contains(id),
            |id: Seq<u8>| self.entries@[self.keys().index_of(id)].state,
        )
    }

    /// The entry at `i` is what the map holds under its identifier.
    proof fn lemma_entry(&self, i: int)
        requires
            self.wf(),
            0 <= i < self.entries@.len(),
        ensures
            self@.contains_key(self.entries@[i].id@),
            self@[self.entries@[i].id@] == self.entries@[i].state,
            self.keys().index_of(self.entries@[i].id@) == i,
    {
        let id = self.entries@[i].id@;
        assert(self.keys()[i] == id);
        let j = self.keys().index_of(id);
        assert(self.keys()[j] == id);
    }

    /// An identifier of the map sits at some index.
    proof fn lemma_key(&self, id: Seq<u8>) -> (i: int)
        requires
            self.wf(),
            self@.contains_key(id),
        ensures
            0 <= i < self.entries@.len(),
            self.entries@[i].id@ == id,
            self@[id] == self.entries@[i].state,
    {
        let i = self.keys().index_of(id);
        assert(self.keys()[i] == id);
        i
    }

    /// The domain of the map is finite and as large as the store.
    proof fn lemma_size(&self)
        requires
            self.wf(),
        ensures
            self@.dom().finite(),
            self@.dom().len() == self.entries@.len(),
    {
        self.keys().unique_seq_to_set();
        vstd::seq_lib::seq_to_set_is_finite(self.keys());
        assert(self@.dom() =~= self.keys().to_set());
    }

    /// The table never holds two states under one identifier: among the
    /// identifiers it stores none occurs twice, and they are exactly the
    /// identifiers of the map, one entry each.
    pub proof fn one_state_per_identifier(&self)
        requires
            self.wf(),
        ensures
            self.keys().no_duplicates(),
            self@.dom().finite(),
            self@.len() == self.keys().len(),
            forall|id: Seq<u8>| self@.contains_key(id) <==> self.keys().contains(id),
    {
        self.lemma_size();
    }

    /// `after` differs from `self` at most in the state at index `i`.
    spec fn rebinds(&self, after: &Self, i: int) -> bool {
        &&& after.entries@ == self.entries@.update(i, after.entries@[i])
        &&& after.entries@[i].id == self.entries@[i].id
    }

    proof fn lemma_rebinds(&self, after: &Self, i: int)
        requires
            self.wf(),
            0 <= i < self.entries@.len(),
            self.rebinds(after, i),
        ensures
            after.wf(),
            after@ == self@.insert(self.entries@[i].id@, after.entries@[i].state),
    {
        assert(after.keys() =~= self.keys());
        let id = self.entries@[i].id@;
        let expected = self@.insert(id, after.entries@[i].state);
        self.lemma_entry(i);
        assert forall|k: Seq<u8>| #[trigger] after@.contains_key(k) == expected.contains_key(k) by {}
        assert forall|k: Seq<u8>| after@.contains_key(k) implies #[trigger] after@[k] == expected[k] by {
            let j = after.lemma_key(k);
            self.lemma_entry(j);
        }
        assert(after@ =~= expected);
    }

    /// An empty table.
    pub fn new() -> (table: Self)
        ensures
            table.wf(),
            table@ == Map::<Seq<u8>, S>::empty(),
    {
        let table = ConnectionTable { entries: Vec::new() };
        assert(table@ =~= Map::<Seq<u8>, S>::empty());
        table
    }

    /// The number of live connections.
    pub fn len(&self) -> (n: usize)
        requires
            self.wf(),
        ensures
            self@.dom().finite(),
            n == self@.len(),
    {
        proof {
            self.lemma_size();
        }
        self.entries.len()
    }

    /// Whether no connection is live.
    pub fn is_empty(&self) -> (empty: bool)
        requires
            self.wf(),
        ensures
            empty == (self@ == Map::<Seq<u8>, S>::empty()),
            empty == (self@.len() == 0),
    {
        proof {
            self.lemma_size();
            if self.entries@.len() > 0 {
                self.lemma_entry(0);
            }
            if self.entries@.len() == 0 {
                assert(self@ =~= Map::<Seq<u8>, S>::empty());
            }
        }
        self.entries.len() == 0
    }

    fn find(&self, id: &[u8]) -> (found: Option<usize>)
        requires
            self.wf(),
        ensures
            match found {
                Some(i) => i < self.entries@.len() && self.entries@[i as int].id@ == id@,
                None => !self@.contains_key(id@),
            },
    {
        let mut i: usize = 0;
        while i < self.entries.len()
            invariant
                i <= self.entries@.len(),
                forall|k: int| 0 <= k < i ==> self.entries@[k].id@ != id@,
            decreases self.entries@.len() - i,
        {
            if same_bytes(self.entries[i].id.as_slice(), id) {
                return Some(i);
            }
            i = i + 1;
        }
        proof {
            if self@.contains_key(id@) {
                let j = self.lemma_key(id@);
            }
        }
        None
    }

    /// Whether a connection lives under `id`.
    pub fn contains(&self, id: &[u8]) -> (known: bool)
        requires
            self.wf(),
        ensures
            known == self@.contains_key(id@),
    {
        match self.find(id) {
            Some(i) => {
                proof {
                    self.lemma_entry(i as int);
                }
                true
            },
            None => false,
        }
    }

    /// The state that lives under `id`, if any.
    pub fn lookup(&self, id: &[u8]) -> (found: Option<&S>)
        requires
            self.wf(),
        ensures
            match found {
                Some(state) => looked_up(self@, id@) == Some(*state),
                None => looked_up(self@, id@).is_none(),
            },
    {
        match self.find(id) {
            Some(i) => {
                proof {
                    self.lemma_entry(i as int);
                }
                Some(&self.entries[i].state)
            },
            None => None,
        }
    }

    /// The state that lives under `id`, to be changed in place. Whatever the
    /// caller does with it, the identifier stays bound to that one state and
    /// every other entry stays as it is.
    pub fn lookup_mut(&mut self, id: &[u8]) -> (found: Option<&mut S>)
        requires
            old(self).wf(),
        ensures
            final(self).wf(),
            match found {
                Some(state) => {
                    &&& looked_up(old(self)@, id@) == Some(*state)
                    &&& final(self)@ == old(self)@.insert(id@, *final(state))
                },
                None => looked_up(old(self)@, id@).is_none() && final(self)@ == old(self)@,
            },
    {
        match self.find(id) {
            Some(i) => {
                proof {
                    self.lemma_entry(i as int);
                    assert forall|after: Self|
                        #![trigger after.wf()]
                        #![trigger after@]
                        self.rebinds(&after, i as int) implies after.wf() && after@ == self@.insert(
                        id@,
                        after.entries@[i as int].state,
                    ) by {
                        self.lemma_rebinds(&after, i as int);
                    }
                }
                Some(&mut self.entries[i].state)
            },
            None => None,
        }
    }

    /// Makes the entry for `id` out of the outcome of accepting a connection.
    /// Only an accepted connection under a free identifier is entered; a
    /// failed accept, or an identifier that is taken, leaves the table as it
    /// was.
    pub fn create<E>(&mut self, id: Vec<u8>, accepted: Result<S, E>) -> (outcome: Result<
        (),
        CreateError<E>,
    >)
        requires
            old(self).wf(),
        ensures
            final(self).wf(),
            final(self)@ == created(old(self)@, id@, accepted),
            outcome == create_outcome(old(self)@, id@, accepted),
    {
        match accepted {
            Err(cause) => Err(CreateError::Rejected(cause)),
            Ok(state) => {
                if self.contains(id.as_slice()) {
                    return Err(CreateError::Occupied);
                }
                let ghost before = *self;
                let ghost key = id@;
                self.entries.push(Entry { id, state });
                proof {
                    let last = before.entries@.len() as int;
                    assert(self.keys() =~= before.keys().push(key));
                    assert(self.wf()) by {
                        assert forall|i: int, j: int|
                            0 <= i < self.keys().len() && 0 <= j < self.keys().len() && i != j implies self.keys()[i]
                            != self.keys()[j] by {
                            if i < last && j < last {
                                assert(before.keys()[i] != before.keys()[j]);
                            } else {
                                let k = if i < last {
                                    i
                                } else {
                                    j
                                };
                                before.lemma_entry(k);
                            }
                        }
                    }
                    let expected = before@.insert(key, state);
                    assert forall|k: Seq<u8>| #[trigger] self@.contains_key(k) == expected.contains_key(k) by {
                        if expected.contains_key(k) {
                            let i = if k == key {
                                last
                            } else {
                                before.lemma_key(k)
                            };
                            self.lemma_entry(i);
                        }
                        if self@.contains_key(k) {
                            let i = self.lemma_key(k);
                            if i < last {
                                before.lemma_entry(i);
                            }
                        }
                    }
                    assert forall|k: Seq<u8>| self@.contains_key(k) implies #[trigger] self@[k] == expected[k] by {
                        let i = self.lemma_key(k);
                        if i < last {
                            before.lemma_entry(i);
                        }
                    }
                    assert(self@ =~= expected);
                }
                Ok(())
            },
        }
    }

    /// Takes the entry for `id` out of the table and hands its state back.
    /// Every other entry stays as it is.
    pub fn remove(&mut self, id: &[u8]) -> (removed: Option<S>)
        requires
            old(self).wf(),
        ensures
            final(self).wf(),
            final(self)@ == old(self)@.remove(id@),
            removed == looked_up(old(self)@, id@),
    {
        match self.find(id) {
            None => {
                assert(self@ =~= self@.remove(id@));
                None
            },
            Some(i) => {
                let ghost before = *self;
                proof {
                    before.lemma_entry(i as int);
                }
                let entry = self.entries.swap_remove(i);
                proof {
                    let last = before.entries@.len() - 1;
                    // where the entry now at `k` was before
                    let origin = |k: int|
                        if k == i as int {
                            last
                        } else {
                            k
                        };
                    assert forall|k: int| 0 <= k < self.entries@.len() implies self.entries@[k]
                        == before.entries@[origin(k)] by {}
                    assert(self.wf()) by {
                        assert forall|a: int, b: int|
                            0 <= a < self.keys().len() && 0 <= b < self.keys().len() && a != b implies self.keys()[a]
                            != self.keys()[b] by {
                            assert(before.keys()[origin(a)] != before.keys()[origin(b)]);
                        }
                    }
                    let expected = before@.remove(id@);
                    assert forall|k: Seq<u8>| #[trigger] self@.contains_key(k) == expected.contains_key(k) by {
                        if expected.contains_key(k) {
                            let j = before.lemma_key(k);
                            let now = if j == last {
                                i as int
                            } else {
                                j
                            };
                            self.lemma_entry(now);
                        }
                        if self@.contains_key(k) {
                            let j = self.lemma_key(k);
                            before.lemma_entry(origin(j));
                        }
                    }
                    assert forall|k: Seq<u8>| self@.contains_key(k) implies #[trigger] self@[k] == expected[k] by {
                        let j = self.lemma_key(k);
                        before.lemma_entry(origin(j));
                    }
                    assert(self@ =~= expected);
                }
                Some(entry.state)
            },
        }
    }

    /// Lets go of the connection under `id` where its engine has reported
    /// it closed: `closed` is that report. A closed connection is taken out
    /// of the table; one that is not closed stays, and with it the whole
    /// table. Answers whether an entry was removed.
    pub fn retire(&mut self, id: &[u8], closed: bool) -> (retired: bool)
        requires
            old(self).wf(),
        ensures
            final(self).wf(),
            retired == (closed && old(self)@.contains_key(id@)),
            final(self)@ == if closed {
                old(self)@.remove(id@)
            } else {
                old(self)@
            },
    {
        if closed {
            self.remove(id).is_some()
        } else {
            false
        }
    }

    /// The identifiers of the live connections, each once.
    pub fn ids(&self) -> (ids: Vec<Vec<u8>>)
        requires
            self.wf(),
        ensures
            forall|id: Seq<u8>|
                self@.contains_key(id) <==> exists|i: int| 0 <= i < ids@.len() && #[trigger] ids@[i]@ == id,
            forall|i: int, j: int| 0 <= i < j < ids@.len() ==> ids@[i]@ != ids@[j]@,
    {
        let mut ids: Vec<Vec<u8>> = Vec::new();
        let mut i: usize = 0;
        while i < self.entries.len()
            invariant
                i <= self.entries@.len(),
                ids@.len() == i,
                forall|k: int| 0 <= k < i ==> #[trigger] ids@[k]@ == self.entries@[k].id@,
            decreases self.entries@.len() - i,
        {
            let id = self.entries[i].id.clone();
            assert(id@ =~= self.entries@[i as int].id@);
            ids.push(id);
            i = i + 1;
        }
        proof {
            assert forall|id: Seq<u8>| self@.contains_key(id) implies exists|i: int|
                0 <= i < ids@.len() && #[trigger] ids@[i]@ == id by {
                let j = self.lemma_key(id);
                assert(ids@[j]@ == id);
            }
            assert forall|id: Seq<u8>|
                (exists|i: int| 0 <= i < ids@.len() && #[trigger] ids@[i]@ == id) implies self@.contains_key(
                id,
            ) by {
                let j = choose|i: int| 0 <= i < ids@.len() && #[trigger] ids@[i]@ == id;
                self.lemma_entry(j);
            }
            assert forall|a: int, b: int| 0 <= a < b < ids@.len() implies ids@[a]@ != ids@[b]@ by {
                assert(self.keys()[a] != self.keys()[b]);
            }
        }
        ids
    }
}

/// Where `create` succeeds, a lookup of the same identifier right after it
/// finds the state that was just created; where it fails, the table is what
/// it was.
pub proof fn create_then_lookup<S, E>(table: Map<Seq<u8>, S>, id: Seq<u8>, accepted: Result<S, E>)
    ensures
        create_outcome(table, id, accepted).is_ok() ==> (accepted matches Ok(state) && looked_up(
            created(table, id, accepted),
            id,
        ) == Some(state)),
        create_outcome(table, id, accepted).is_err() ==> created(table, id, accepted) == table,
{
}

/// An identifier that is live is never bound to another state: creating
/// under it changes nothing, whatever was accepted.
pub proof fn create_never_rebinds<S, E>(table: Map<Seq<u8>, S>, id: Seq<u8>, accepted: Result<S, E>)
    requires
        table.contains_key(id),
    ensures
        created(table, id, accepted) == table,
        create_outcome(table, id, accepted).is_err(),
{
}

/// A failed accept leaves no entry behind.
pub proof fn failed_accept_leaves_no_entry<S, E>(table: Map<Seq<u8>, S>, id: Seq<u8>, cause: E)
    ensures
        created(table, id, Err::<S, E>(cause)) == table,
        create_outcome(table, id, Err::<S, E>(cause)) == Err::<(), CreateError<E>>(CreateError::Rejected(cause)),
{
}

/// Creating and removing touch one identifier only: what is found under any
/// other identifier is what was found before.
pub proof fn other_entries_untouched<S, E>(
    table: Map<Seq<u8>, S>,
    id: Seq<u8>,
    accepted: Result<S, E>,
    other: Seq<u8>,
)
    requires
        other != id,
    ensures
        looked_up(created(table, id, accepted), other) == looked_up(table, other),
        looked_up(table.remove(id), other) == looked_up(table, other),
{
}

/// A connection that its engine reports closed does not stay in the table,
/// and one that is not reported closed is not lost: after `retire` the
/// identifier is live exactly if it was live and the report was "not
/// closed". No other identifier is touched.
pub proof fn retire_follows_the_report<S>(table: Map<Seq<u8>, S>, id: Seq<u8>, closed: bool, other: Seq<u8>)
    requires
        other != id,
    ensures
        ({
            let after = if closed {
                table.remove(id)
            } else {
                table
            };
            &&& after.contains_key(id) == (table.contains_key(id) && !closed)
            &&& looked_up(after, other) == looked_up(table, other)
        }),
{
}

/// After a removal nothing is found under the identifier, and a connection
/// can be created under it again.
pub proof fn remove_then_lookup<S, E>(table: Map<Seq<u8>, S>, id: Seq<u8>, state: S)
    ensures
        looked_up(table.remove(id), id).is_none(),
        looked_up(created(table.remove(id), id, Ok::<S, E>(state)), id) == Some(state),
{
}

} // verus!
