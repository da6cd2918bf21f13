//! The confirmation registry: the single source of truth for which actions
//! are awaiting a human confirm/cancel reply.
//!
//! The store maps action ids to pending commands. Inserting under an id that
//! is already present overwrites the old entry (last write wins, by design:
//! ids are generated by this process, so collisions are not treated as
//! errors). Taking an entry removes it atomically; a second take of the same
//! id finds nothing.
use vstd::prelude::*;

use crate::models::MqttActionMessage;
use crate::models::MqttActionMessageV;

verus! {

broadcast use vstd::seq::group_seq_axioms, vstd::std_specs::vec::group_vec_axioms;

/// No two entries share an id.
spec fn entries_wf(s: Seq<(String, MqttActionMessage)>) -> bool {
    forall|i: int, j: int| 0 <= i < j < s.len() ==> s[i].0@ != s[j].0@
}

/// The mapping an entry list denotes (later entries win).
spec fn entries_map(s: Seq<(String, MqttActionMessage)>) -> Map<
    Seq<char>,
    MqttActionMessageV,
>
    decreases s.len(),
{
    if s.len() == 0 {
        Map::empty()
    } else {
        entries_map(s.drop_last()).insert(s.last().0@, s.last().1@)
    }
}

/// A key is in the denoted map exactly when some entry carries it.
proof fn lemma_entries_map_domain(s: Seq<(String, MqttActionMessage)>, k: Seq<char>)
    ensures
        entries_map(s).contains_key(k) <==> exists|i: int| 0 <= i < s.len() && s[i].0@ == k,
    decreases s.len(),
{
    if s.len() > 0 {
        lemma_entries_map_domain(s.drop_last(), k);
        if s.last().0@ == k {
            assert(s[s.len() - 1].0@ == k);
        } else {
            if entries_map(s).contains_key(k) {
                let i = choose|i: int| 0 <= i < s.drop_last().len() && s.drop_last()[i].0@ == k;
                assert(s[i].0@ == k);
            }
            if exists|i: int| 0 <= i < s.len() && s[i].0@ == k {
                let i = choose|i: int| 0 <= i < s.len() && s[i].0@ == k;
                assert(s.drop_last()[i].0@ == k);
            }
        }
    }
}

/// With unique ids, each entry is in the denoted map under its own id.
proof fn lemma_entries_map_lookup(s: Seq<(String, MqttActionMessage)>, i: int)
    requires
        entries_wf(s),
        0 <= i < s.len(),
    ensures
        entries_map(s).contains_key(s[i].0@),
        entries_map(s)[s[i].0@] == s[i].1@,
    decreases s.len(),
{
    if i == s.len() - 1 {
    } else {
        assert(s.drop_last()[i] == s[i]);
        lemma_entries_map_lookup(s.drop_last(), i);
        assert(s[i].0@ != s.last().0@);
    }
}

/// Removing the entry at `i` removes exactly its key from the denoted map.
proof fn lemma_entries_map_remove(s: Seq<(String, MqttActionMessage)>, i: int)
    requires
        entries_wf(s),
        0 <= i < s.len(),
    ensures
        entries_map(s.remove(i)) == entries_map(s).remove(s[i].0@),
    decreases s.len(),
{
    if i == s.len() - 1 {
        assert(s.remove(i) =~= s.drop_last());
        lemma_entries_map_domain(s.drop_last(), s[i].0@);
        assert forall|j: int| 0 <= j < s.drop_last().len() implies s.drop_last()[j].0@ != s[i].0@
            by {
            assert(s[j] == s.drop_last()[j]);
        }
        assert(!entries_map(s.drop_last()).contains_key(s[i].0@));
        assert(entries_map(s.drop_last()).insert(s.last().0@, s.last().1@).remove(s[i].0@)
            =~= entries_map(s.drop_last()));
    } else {
        let t = s.remove(i);
        assert(t.drop_last() =~= s.drop_last().remove(i));
        assert(t.last() == s.last());
        assert(entries_wf(s.drop_last())) by {
            assert forall|a: int, b: int|
                0 <= a < b < s.drop_last().len() implies s.drop_last()[a].0@
                != s.drop_last()[b].0@ by {
                assert(s.drop_last()[a] == s[a]);
                assert(s.drop_last()[b] == s[b]);
            }
        }
        lemma_entries_map_remove(s.drop_last(), i);
        assert(s.drop_last()[i] == s[i]);
        assert(s[i].0@ != s.last().0@);
        assert(entries_map(t) =~= entries_map(s).remove(s[i].0@));
    }
}

/// The keyed store of not-yet-executed actions awaiting approval. Its model
/// is the map from action id to pending command.
pub struct ConfirmationRegistry {
    entries: Vec<(String, MqttActionMessage)>,
}

impl View for ConfirmationRegistry {
    type V = Map<Seq<char>, MqttActionMessageV>;

    closed spec fn view(&self) -> Map<Seq<char>, MqttActionMessageV> {
        entries_map(self.entries@)
    }
}

impl ConfirmationRegistry {
    /// The registry's internal invariant: no two entries share an id.
    /// Established by [`ConfirmationRegistry::new`] and preserved by every
    /// method.
    pub closed spec fn well_formed(&self) -> bool {
        entries_wf(self.entries@)
    }

    /// Returns an empty registry.
    pub fn new() -> (r: ConfirmationRegistry)
        ensures
            r.well_formed(),
            r@ == Map::<Seq<char>, MqttActionMessageV>::empty(),
    {
        ConfirmationRegistry { entries: Vec::new() }
    }

    /// Returns the index of the entry with the given id, if any.
    fn position_of(&self, action_id: &String) -> (r: Option<usize>)
        ensures
            match r {
                Some(i) => i < self.entries@.len() && self.entries@[i as int].0@ == action_id@,
                None => forall|i: int|
                    0 <= i < self.entries@.len() ==> self.entries@[i].0@ != action_id@,
            },
    {
        let mut i: usize = 0;
        let n = self.entries.len();
        while i < n
            invariant
                i <= n,
                n == self.entries@.len(),
                forall|j: int| 0 <= j < i ==> self.entries@[j].0@ != action_id@,
            decreases n - i,
        {
            if self.entries[i].0.eq(action_id) {
                return Some(i);
            }
            i = i + 1;
        }
        None
    }

    /// Inserts `action` under `action_id`, overwriting any entry already
    /// stored under that id. Never fails.
    pub fn put(&mut self, action_id: String, action: MqttActionMessage)
        requires
            old(self).well_formed(),
        ensures
            final(self).well_formed(),
            final(self)@ == old(self)@.insert(action_id@, action@),
    {
        let ghost s0 = self.entries@;
        match self.position_of(&action_id) {
            Some(i) => {
                proof {
                    lemma_entries_map_remove(s0, i as int);
                }
                self.entries.remove(i);
                proof {
                    assert(entries_wf(self.entries@)) by {
                        assert forall|a: int, b: int|
                            0 <= a < b < self.entries@.len() implies self.entries@[a].0@
                            != self.entries@[b].0@ by {
                            if b < i {
                                assert(self.entries@[a] == s0[a]);
                                assert(self.entries@[b] == s0[b]);
                            } else if a < i {
                                assert(self.entries@[a] == s0[a]);
                                assert(self.entries@[b] == s0[b + 1]);
                            } else {
                                assert(self.entries@[a] == s0[a + 1]);
                                assert(self.entries@[b] == s0[b + 1]);
                            }
                        }
                    }
                }
            },
            None => (),
        }
        let ghost s1 = self.entries@;
        let ghost removed_key = action_id@;
        self.entries.push((action_id, action));
        proof {
            assert(self.entries@.drop_last() =~= s1);
            assert(forall|j: int| 0 <= j < s1.len() ==> s1[j].0@ != removed_key);
            lemma_entries_map_domain(s1, removed_key);
            assert(final(self)@ =~= old(self)@.insert(removed_key, self.entries@.last().1@));
        }
    }

    /// Atomically removes and returns the entry stored under `action_id`.
    /// Returns the pending command exactly when the id is present; an id
    /// never inserted and an id already taken are both reported as absent.
    pub fn take(&mut self, action_id: &String) -> (r: Option<MqttActionMessage>)
        requires
            old(self).well_formed(),
        ensures
            final(self).well_formed(),
            match r {
                Some(a) => old(self)@.contains_key(action_id@) && a@ == old(self)@[action_id@]
                    && final(self)@ == old(self)@.remove(action_id@),
                None => !old(self)@.contains_key(action_id@) && final(self)@ == old(self)@,
            },
    {
        let ghost s0 = self.entries@;
        match self.position_of(action_id) {
            Some(i) => {
                proof {
                    lemma_entries_map_lookup(s0, i as int);
                    lemma_entries_map_remove(s0, i as int);
                }
                let entry = self.entries.remove(i);
                proof {
                    assert(entries_wf(self.entries@)) by {
                        assert forall|a: int, b: int|
                            0 <= a < b < self.entries@.len() implies self.entries@[a].0@
                            != self.entries@[b].0@ by {
                            if b < i {
                                assert(self.entries@[a] == s0[a]);
                                assert(self.entries@[b] == s0[b]);
                            } else if a < i {
                                assert(self.entries@[a] == s0[a]);
                                assert(self.entries@[b] == s0[b + 1]);
                            } else {
                                assert(self.entries@[a] == s0[a + 1]);
                                assert(self.entries@[b] == s0[b + 1]);
                            }
                        }
                    }
                }
                Some(entry.1)
            },
            None => {
                proof {
                    lemma_entries_map_domain(s0, action_id@);
                }
                None
            },
        }
    }
}

/// Absence is idempotent: no id is in the empty registry; inserting under
/// one id does not make another present; and once an id has been taken, a
/// second take of the same id finds nothing. Together with the contract of
/// [`ConfirmationRegistry::take`], this says that taking an id never
/// inserted, and taking an id a second time, both report "not found".
pub proof fn lemma_absent_ids(
    m: Map<Seq<char>, MqttActionMessageV>,
    id: Seq<char>,
    other: Seq<char>,
    a: MqttActionMessageV,
)
    ensures
        !Map::<Seq<char>, MqttActionMessageV>::empty().contains_key(id),
        other != id ==> (m.insert(other, a).contains_key(id) <==> m.contains_key(id)),
        !m.remove(id).contains_key(id),
{
}

} // verus!
