//! The uploads that are being read: a set of file names.

use vstd::prelude::*;

verus! {

/// The names, as character sequences, of a sequence of strings.
pub open spec fn name_views(names: Seq<String>) -> Seq<Seq<char>> {
    names.map_values(|name: String| name@)
}

/// The names of the uploads whose bytes have not arrived yet. A name is
/// held once, however often it was submitted.
#[derive(Debug, Clone, PartialEq, Eq)]
pub struct PendingSet {
    names: Vec<String>,
}

impl View for PendingSet {
    type V = Set<Seq<char>>;

    closed spec fn view(&self) -> Set<Seq<char>> {
        name_views(self.names@).to_set()
    }
}

impl PendingSet {
    /// No name is held twice.
    pub closed spec fn wf(&self) -> bool {
        name_views(self.names@).no_duplicates()
    }

    /// The set without a name.
    pub fn new() -> (pending: PendingSet)
        ensures
            pending.wf(),
            pending@ == Set::<Seq<char>>::empty(),
    {
        let pending = PendingSet { names: Vec::new() };
        assert(pending@ =~= Set::<Seq<char>>::empty());
        pending
    }

    /// Number of names in the set.
    pub fn len(&self) -> (count: usize)
        requires
            self.wf(),
        ensures
            count == self@.len(),
            self@.finite(),
    {
        proof {
            name_views(self.names@).unique_seq_to_set();
        }
        self.names.len()
    }

    /// Where `name` is held, if it is.
    fn position(&self, name: &String) -> (at: Option<usize>)
        ensures
            match at {
                Some(i) => i < self.names@.len() && self.names@[i as int]@ == name@,
                None => !self@.contains(name@),
            },
    {
        let mut i: usize = 0;
        while i < self.names.len()
            invariant
                i <= self.names@.len(),
                forall|j: int| 0 <= j < i ==> self.names@[j]@ != name@,
            decreases self.names@.len() - i,
        {
            if self.names[i] == *name {
                return Some(i);
            }
            i += 1;
        }
        None
    }

    /// Whether an upload of this name is being read.
    pub fn contains(&self, name: &String) -> (held: bool)
        ensures
            held == self@.contains(name@),
    {
        let at = self.position(name);
        proof {
            if let Some(i) = at {
                assert(name_views(self.names@)[i as int] == name@);
            }
        }
        at.is_some()
    }

    /// Puts a name into the set; one that is there already stays once.
    pub fn insert(&mut self, name: String)
        requires
            old(self).wf(),
        ensures
            final(self).wf(),
            final(self)@ == old(self)@.insert(name@),
    {
        if self.contains(&name) {
            assert(self@ =~= self@.insert(name@));
        } else {
            let ghost before = name_views(self.names@);
            self.names.push(name);
            proof {
                let after = name_views(self.names@);
                assert(after =~= before.push(name@));
                assert forall|a: Seq<char>| after.contains(a) <==> before.contains(a) || a
                    == name@ by {
                    if before.contains(a) {
                        let j = choose|j: int| 0 <= j < before.len() && before[j] == a;
                        assert(after[j] == a);
                    }
                    if a == name@ {
                        assert(after[before.len() as int] == a);
                    }
                }
                assert(self@ =~= old(self)@.insert(name@));
            }
        }
    }

    /// Takes a name out of the set, and tells whether it was there.
    pub fn remove(&mut self, name: &String) -> (held: bool)
        requires
            old(self).wf(),
        ensures
            final(self).wf(),
            final(self)@ == old(self)@.remove(name@),
            held == old(self)@.contains(name@),
    {
        match self.position(name) {
            Some(i) => {
                let ghost before = name_views(self.names@);
                self.names.remove(i);
                proof {
                    let after = name_views(self.names@);
                    assert(before[i as int] == name@);
                    assert(after =~= before.remove(i as int));
                    assert forall|a: Seq<char>| after.contains(a) <==> before.contains(a) && a
                        != name@ by {
                        if after.contains(a) {
                            let j = choose|j: int| 0 <= j < after.len() && after[j] == a;
                            if j < i {
                                assert(before[j] == a);
                            } else {
                                assert(before[j + 1] == a);
                            }
                        }
                        if before.contains(a) && a != name@ {
                            let j = choose|j: int| 0 <= j < before.len() && before[j] == a;
                            if j < i {
                                assert(after[j] == a);
                            } else {
                                assert(after[j - 1] == a);
                            }
                        }
                    }
                    assert(self@ =~= old(self)@.remove(name@));
                }
                true
            },
            None => {
                assert(self@ =~= self@.remove(name@));
                false
            },
        }
    }
}

} // verus!
