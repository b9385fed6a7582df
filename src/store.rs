use vstd::prelude::*;
use crate::model::{applied, answers, owns, AliasRecord, Command, Outcome, Table};

verus! {

/// The authoritative alias table, owned by the connection actor.
pub struct AliasStore {
    records: Vec<AliasRecord>,
    table: Ghost<Table>,
}

impl AliasStore {
    pub closed spec fn view(&self) -> Table {
        self.table@
    }

    /// Keys are unique and the rows are exactly the abstract table.
    pub closed spec fn wf(&self) -> bool {
        let recs = self.records@;
        &&& forall|i: int, j: int|
            0 <= i < recs.len() && 0 <= j < recs.len() && i != j ==> recs[i].key@ != recs[j].key@
        &&& forall|i: int|
            0 <= i < recs.len() ==> #[trigger] self.table@.contains_key(recs[i].key@)
                && self.table@[recs[i].key@] == (recs[i].destination@, recs[i].owner)
        &&& forall|k: Seq<char>|
            #[trigger] self.table@.contains_key(k) ==> exists|i: int|
                0 <= i < recs.len() && recs[i].key@ == k
    }

    pub fn new() -> (s: Self)
        ensures
            s.wf(),
            s@ == Table::empty(),
    {
        AliasStore { records: Vec::new(), table: Ghost(Map::empty()) }
    }

    /// The row index of `key`, if the key is present.
    fn find(&self, key: &String) -> (r: Option<usize>)
        requires
            self.wf(),
        ensures
            match r {
                Some(i) => i < self.records@.len() && self.records@[i as int].key@ == key@
                    && self@.contains_key(key@) && self@[key@] == (
                    self.records@[i as int].destination@,
                    self.records@[i as int].owner,
                ),
                None => !self@.contains_key(key@),
            },
    {
        let mut i: usize = 0;
        while i < self.records.len()
            invariant
                self.wf(),
                i <= self.records@.len(),
                forall|j: int| 0 <= j < i ==> self.records@[j].key@ != key@,
            decreases self.records@.len() - i,
        {
            if self.records[i].key == *key {
                assert(self@.contains_key(self.records@[i as int].key@));
                return Some(i);
            }
            i = i + 1;
        }
        None
    }

    /// The destination stored for `key`.
    pub fn read(&self, key: &String) -> (r: Option<String>)
        requires
            self.wf(),
        ensures
            match r {
                Some(d) => self@.contains_key(key@) && self@[key@].0 == d@,
                None => !self@.contains_key(key@),
            },
    {
        match self.find(key) {
            Some(i) => Some(self.records[i].destination.clone()),
            None => None,
        }
    }

    /// Inserts or replaces the row of `key`; returns the rows touched.
    pub fn upsert(&mut self, key: String, destination: String, owner: i32) -> (n: usize)
        requires
            old(self).wf(),
        ensures
            final(self).wf(),
            final(self)@ == old(self)@.insert(key@, (destination@, owner)),
            n == 1,
    {
        let ghost k = key@;
        let ghost row = (destination@, owner);
        let rec = AliasRecord { key, destination, owner };
        let ghost at: int;
        match self.find(&rec.key) {
            Some(i) => {
                self.records.set(i, rec);
                proof {
                    at = i as int;
                }
            },
            None => {
                self.records.push(rec);
                proof {
                    at = self.records@.len() - 1;
                }
            },
        }
        self.table = Ghost(self.table@.insert(k, row));
        assert(self.records@[at].key@ == k);
        assert forall|i: int| 0 <= i < self.records@.len() && i != at implies
            #[trigger] self.records@[i] == old(self).records@[i] && self.records@[i].key@ != k by {
            assert(old(self)@.contains_key(old(self).records@[i].key@));
        }
        assert forall|i: int, j: int|
            0 <= i < self.records@.len() && 0 <= j < self.records@.len() && i != j implies
            self.records@[i].key@ != self.records@[j].key@ by {
            if i != at && j != at {
                assert(self.records@[i] == old(self).records@[i]);
                assert(self.records@[j] == old(self).records@[j]);
            } else if i != at {
                assert(self.records@[i] == old(self).records@[i]);
            } else {
                assert(self.records@[j] == old(self).records@[j]);
            }
        }
        assert forall|i: int| 0 <= i < self.records@.len() implies
            #[trigger] self.table@.contains_key(self.records@[i].key@)
                && self.table@[self.records@[i].key@] == (self.records@[i].destination@, self.records@[i].owner) by {
            if i != at {
                assert(self.records@[i] == old(self).records@[i]);
                assert(old(self)@.contains_key(old(self).records@[i].key@));
            }
        }
        assert forall|k2: Seq<char>| #[trigger] self.table@.contains_key(k2) implies exists|i: int|
            0 <= i < self.records@.len() && self.records@[i].key@ == k2 by {
            if k2 != k {
                let i = choose|i: int| 0 <= i < old(self).records@.len() && old(self).records@[i].key@ == k2;
                assert(self.records@[i].key@ == k2);
            }
        }
        1
    }

    /// Removes the row of `key` if it belongs to `owner`; returns the rows touched.
    pub fn delete(&mut self, key: &String, owner: i32) -> (n: usize)
        requires
            old(self).wf(),
        ensures
            final(self).wf(),
            n == (if owns(old(self)@, key@, owner) { 1usize } else { 0usize }),
            final(self)@ == (if owns(old(self)@, key@, owner) {
                old(self)@.remove(key@)
            } else {
                old(self)@
            }),
    {
        match self.find(key) {
            Some(i) => {
                if self.records[i].owner == owner {
                    let ghost old_recs = self.records@;
                    self.records.remove(i);
                    self.table = Ghost(self.table@.remove(key@));
                    assert forall|j: int| 0 <= j < self.records@.len() implies
                        #[trigger] self.records@[j] == (if j < i { old_recs[j] } else { old_recs[j + 1] }) by {}
                    assert forall|a: int, b: int|
                        0 <= a < self.records@.len() && 0 <= b < self.records@.len() && a != b implies
                        self.records@[a].key@ != self.records@[b].key@ by {
                        assert(self.records@[a] == (if a < i { old_recs[a] } else { old_recs[a + 1] }));
                        assert(self.records@[b] == (if b < i { old_recs[b] } else { old_recs[b + 1] }));
                    }
                    assert forall|j: int| 0 <= j < self.records@.len() implies
                        #[trigger] self.table@.contains_key(self.records@[j].key@)
                            && self.table@[self.records@[j].key@] == (self.records@[j].destination@, self.records@[j].owner) by {
                        let oj = if j < i { j } else { j + 1 };
                        assert(self.records@[j] == old_recs[oj]);
                        assert(old(self)@.contains_key(old_recs[oj].key@));
                        assert(old_recs[oj].key@ != old_recs[i as int].key@);
                    }
                    assert forall|k2: Seq<char>| #[trigger] self.table@.contains_key(k2) implies exists|j: int|
                        0 <= j < self.records@.len() && self.records@[j].key@ == k2 by {
                        let j = choose|j: int| 0 <= j < old_recs.len() && old_recs[j].key@ == k2;
                        if j < i {
                            assert(self.records@[j].key@ == k2);
                        } else {
                            assert(self.records@[j - 1].key@ == k2);
                        }
                    }
                    1
                } else {
                    0
                }
            },
            None => 0,
        }
    }

    /// Runs one command against the table.
    pub fn execute(&mut self, c: Command) -> (o: Outcome)
        requires
            old(self).wf(),
        ensures
            final(self).wf(),
            final(self)@ == applied(old(self)@, c),
            answers(old(self)@, c, o),
    {
        match c {
            Command::Resolve { key } => Outcome::Row(self.read(&key)),
            Command::Upsert { key, destination, owner } => Outcome::Affected(
                self.upsert(key, destination, owner),
            ),
            Command::Delete { key, owner } => Outcome::Affected(self.delete(&key, owner)),
        }
    }
}

} // verus!
