//! The run-time parameters that the server reports, by name.

use vstd::prelude::*;

verus! {

/// True where the two slices hold the same bytes.
pub fn bytes_eq(a: &[u8], b: &[u8]) -> (r: bool)
    ensures
        r == (a@ == b@),
{
    if a.len() != b.len() {
        return false;
    }
    let mut i: usize = 0;
    while i < a.len()
        invariant
            a@.len() == b@.len(),
            0 <= i <= a@.len(),
            forall|j: int| 0 <= j < i ==> a@[j] == b@[j],
        decreases a@.len() - i,
    {
        if a[i] != b[i] {
            return false;
        }
        i += 1;
    }
    assert(a@ =~= b@);
    true
}

/// True where some entry of `entries` has the name `name`.
spec fn has_name(entries: Seq<(Vec<u8>, Vec<u8>)>, name: Seq<u8>) -> bool {
    exists|i: int| 0 <= i < entries.len() && (#[trigger] entries[i]).0@ == name
}

/// The place of an entry with the name `name`.
spec fn place_of(entries: Seq<(Vec<u8>, Vec<u8>)>, name: Seq<u8>) -> int {
    choose|i: int| 0 <= i < entries.len() && (#[trigger] entries[i]).0@ == name
}

/// No two entries have the same name.
spec fn distinct_names(entries: Seq<(Vec<u8>, Vec<u8>)>) -> bool {
    forall|i: int, j: int|
        0 <= i < j < entries.len() ==> (#[trigger] entries[i]).0@ != (#[trigger] entries[j]).0@
}

/// The map from names to values that `entries` stands for.
spec fn entries_map(entries: Seq<(Vec<u8>, Vec<u8>)>) -> Map<Seq<u8>, Seq<u8>> {
    Map::new(
        |name: Seq<u8>| has_name(entries, name),
        |name: Seq<u8>| entries[place_of(entries, name)].1@,
    )
}

/// The entries with `entry` at the place `at`: in place of the entry that
/// was there, or behind the last where `at` is the end.
spec fn entry_set(
    before: Seq<(Vec<u8>, Vec<u8>)>,
    at: int,
    entry: (Vec<u8>, Vec<u8>),
) -> Seq<(Vec<u8>, Vec<u8>)> {
    if at < before.len() {
        before.update(at, entry)
    } else {
        before.push(entry)
    }
}

/// Setting an entry keeps the names distinct and sets its name in the map.
proof fn lemma_entry_set(before: Seq<(Vec<u8>, Vec<u8>)>, at: int, entry: (Vec<u8>, Vec<u8>))
    requires
        distinct_names(before),
        0 <= at <= before.len(),
        at < before.len() ==> before[at].0@ == entry.0@,
        at == before.len() ==> !has_name(before, entry.0@),
    ensures
        distinct_names(entry_set(before, at, entry)),
        entries_map(entry_set(before, at, entry)) == entries_map(before).insert(
            entry.0@,
            entry.1@,
        ),
{
    let after = entry_set(before, at, entry);
    let n = entry.0@;
    let v = entry.1@;
    let wanted = entries_map(before).insert(n, v);
    assert(after[at].0@ == n && after[at].1@ == v);
    assert(forall|j: int| 0 <= j < before.len() && j != at ==> after[j] == before[j]);
    assert forall|j: int| 0 <= j < after.len() && j != at implies (#[trigger] after[j]).0@
        != n by {
        assert(after[j] == before[j]);
        if at < before.len() {
            assert(before[at].0@ == n);
        }
    }
    assert(distinct_names(after)) by {
        assert forall|i: int, j: int| 0 <= i < j < after.len() implies (#[trigger] after[i]).0@ != (
        #[trigger] after[j]).0@ by {
            if i != at && j != at {
                assert(after[i] == before[i] && after[j] == before[j]);
            }
        }
    }
    assert forall|k: Seq<u8>| has_name(after, k) <==> #[trigger] wanted.contains_key(k) by {
        if has_name(after, k) {
            let j = place_of(after, k);
            if j != at {
                assert(before[j].0@ == k);
            }
        }
        if has_name(before, k) {
            let j = place_of(before, k);
            assert(after[j].0@ == k);
        }
        if k == n {
            assert(after[at].0@ == k);
        }
    }
    assert forall|k: Seq<u8>| has_name(after, k) implies #[trigger] entries_map(after)[k]
        == wanted[k] by {
        let j = place_of(after, k);
        if k == n {
            assert(j == at);
        } else {
            assert(j != at);
            assert(before[j].0@ == k);
            let j0 = place_of(before, k);
            assert(before[j0].0@ == k);
            assert(j0 == j);
        }
    }
    assert(entries_map(after) =~= wanted);
}

/// A table from parameter names to their current values. Each name occurs
/// once, and a value that is set again replaces the one before.
pub struct ParameterTable {
    entries: Vec<(Vec<u8>, Vec<u8>)>,
}

impl View for ParameterTable {
    type V = Map<Seq<u8>, Seq<u8>>;

    closed spec fn view(&self) -> Map<Seq<u8>, Seq<u8>> {
        entries_map(self.entries@)
    }
}

impl ParameterTable {
    /// No name is stored twice.
    #[verifier::type_invariant]
    closed spec fn distinct(&self) -> bool {
        distinct_names(self.entries@)
    }

    /// A table without entries.
    pub fn new() -> (t: Self)
        ensures
            t@ == Map::<Seq<u8>, Seq<u8>>::empty(),
    {
        let t = ParameterTable { entries: Vec::new() };
        assert(t@ =~= Map::<Seq<u8>, Seq<u8>>::empty());
        t
    }

    fn find(&self, name: &[u8]) -> (r: Option<usize>)
        ensures
            match r {
                Some(i) => i < self.entries@.len() && self.entries@[i as int].0@ == name@,
                None => !has_name(self.entries@, name@),
            },
    {
        let mut i: usize = 0;
        while i < self.entries.len()
            invariant
                0 <= i <= self.entries@.len(),
                forall|j: int| 0 <= j < i ==> (#[trigger] self.entries@[j]).0@ != name@,
            decreases self.entries@.len() - i,
        {
            if bytes_eq(self.entries[i].0.as_slice(), name) {
                return Some(i);
            }
            i += 1;
        }
        None
    }

    /// The value stored under `name`, if there is one.
    pub fn get(&self, name: &[u8]) -> (r: Option<&Vec<u8>>)
        ensures
            match r {
                Some(v) => self@.contains_key(name@) && v@ == self@[name@],
                None => !self@.contains_key(name@),
            },
    {
        proof {
            use_type_invariant(&*self);
        }
        match self.find(name) {
            Some(i) => {
                assert(self.entries@[i as int].0@ == name@);
                assert(has_name(self.entries@, name@));
                Some(&self.entries[i].1)
            },
            None => None,
        }
    }

    /// Stores `value` under `name`, in place of the value that was there.
    pub fn upsert(&mut self, name: Vec<u8>, value: Vec<u8>)
        ensures
            final(self)@ == old(self)@.insert(name@, value@),
    {
        proof {
            use_type_invariant(&*self);
        }
        let found = self.find(name.as_slice());
        // the entries leave the table while they change, and come back whole
        let mut entries: Vec<(Vec<u8>, Vec<u8>)> = Vec::new();
        core::mem::swap(&mut entries, &mut self.entries);
        let ghost before = entries@;
        match found {
            Some(i) => {
                proof {
                    lemma_entry_set(before, i as int, (name, value));
                }
                entries.set(i, (name, value));
            },
            None => {
                proof {
                    lemma_entry_set(before, before.len() as int, (name, value));
                }
                entries.push((name, value));
            },
        }
        self.entries = entries;
    }
}

} // verus!
