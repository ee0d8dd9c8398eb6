//! Values by number, such as those kept for each browser session.

use vstd::prelude::*;

verus! {

/// The first position at or after `i` of an entry with the given number, or the
/// number of entries.
pub open spec fn slot<T>(e: Seq<(u64, T)>, id: u64, i: int) -> int
    decreases e.len() - i,
{
    if i >= e.len() {
        e.len() as int
    } else if e[i].0 == id {
        i
    } else {
        slot(e, id, i + 1)
    }
}

/// Values by number.
#[derive(Debug)]
pub struct IdMap<T> {
    entries: Vec<(u64, T)>,
}

impl<T> View for IdMap<T> {
    type V = Map<u64, T>;

    closed spec fn view(&self) -> Map<u64, T> {
        map_of(self.entries@)
    }
}

spec fn map_of<T>(e: Seq<(u64, T)>) -> Map<u64, T> {
    Map::new(|id: u64| slot(e, id, 0) < e.len(), |id: u64| e[slot(e, id, 0)].1)
}

proof fn lemma_slot<T>(e: Seq<(u64, T)>, id: u64, i: int)
    requires
        0 <= i <= e.len(),
    ensures
        i <= slot(e, id, i) <= e.len(),
        slot(e, id, i) < e.len() ==> e[slot(e, id, i)].0 == id,
        forall|j: int| i <= j < slot(e, id, i) ==> (#[trigger] e[j]).0 != id,
    decreases e.len() - i,
{
    if i < e.len() && e[i].0 != id {
        lemma_slot(e, id, i + 1);
    }
}

/// The only entry for a number is the one that `slot` finds.
proof fn lemma_slot_is<T>(e: Seq<(u64, T)>, id: u64, at: int)
    requires
        0 <= at <= e.len(),
        at < e.len() ==> e[at].0 == id,
        forall|j: int| 0 <= j < at ==> (#[trigger] e[j]).0 != id,
    ensures
        slot(e, id, 0) == at,
{
    lemma_slot(e, id, 0);
    let s = slot(e, id, 0);
    if s < at {
        assert(e[s].0 != id);
    }
    if at < s {
        assert(e[at].0 != id);
    }
}

spec fn distinct<T>(e: Seq<(u64, T)>) -> bool {
    forall|i: int, j: int| 0 <= i < j < e.len() ==> (#[trigger] e[i]).0 != (#[trigger] e[j]).0
}

impl<T> IdMap<T> {
    #[verifier::type_invariant]
    spec fn wf(self) -> bool {
        distinct(self.entries@)
    }

    /// No values.
    pub fn new() -> (r: Self)
        ensures
            r@ == Map::<u64, T>::empty(),
    {
        let r = IdMap { entries: Vec::new() };
        assert(r@ =~= Map::<u64, T>::empty());
        r
    }

    /// The position of the entry for a number, or the number of entries.
    fn find(&self, id: u64) -> (i: usize)
        ensures
            i == slot(self.entries@, id, 0),
            i <= self.entries@.len(),
    {
        let mut i: usize = 0;
        while i < self.entries.len() && self.entries[i].0 != id
            invariant
                i <= self.entries@.len(),
                slot(self.entries@, id, i as int) == slot(self.entries@, id, 0),
            decreases self.entries@.len() - i,
        {
            i = i + 1;
        }
        i
    }

    /// The value for a number.
    pub fn get(&self, id: u64) -> (r: Option<&T>)
        ensures
            match r {
                Some(v) => self@.dom().contains(id) && self@[id] == *v,
                None => !self@.dom().contains(id),
            },
    {
        let i = self.find(id);
        if i < self.entries.len() {
            Some(&self.entries[i].1)
        } else {
            None
        }
    }

    /// Sets the value for a number.
    pub fn insert(&mut self, id: u64, v: T)
        ensures
            final(self)@ == old(self)@.insert(id, v),
    {
        proof {
            use_type_invariant(&*self);
        }
        let i = self.find(id);
        let mut e: Vec<(u64, T)> = Vec::new();
        std::mem::swap(&mut e, &mut self.entries);
        let ghost before = e@;
        proof {
            lemma_slot(before, id, 0);
        }
        if i < e.len() {
            e.set(i, (id, v));
        } else {
            e.push((id, v));
        }
        let ghost after = e@;
        assert forall|k: u64| #[trigger] slot(after, k, 0) == (if k == id {
            i as int
        } else if slot(before, k, 0) < before.len() {
            slot(before, k, 0)
        } else {
            after.len() as int
        }) by {
            lemma_slot(before, k, 0);
            if k == id {
                lemma_slot_is(after, k, i as int);
            } else if slot(before, k, 0) < before.len() {
                lemma_slot_is(after, k, slot(before, k, 0));
            } else {
                assert forall|j: int| 0 <= j < after.len() implies (#[trigger] after[j]).0 != k by {
                    if j < before.len() && j != i {
                        assert(after[j] == before[j]);
                        assert(before[j].0 != k);
                    }
                }
                lemma_slot_is(after, k, after.len() as int);
            }
        }
        assert(map_of(after) =~= map_of(before).insert(id, v)) by {
            assert forall|k: u64| map_of(before).dom().contains(k) implies slot(before, k, 0) < before.len() by {}
            assert forall|k: u64| k != id && map_of(before).dom().contains(k) implies map_of(after)[k]
                == map_of(before)[k] by {
                lemma_slot(before, k, 0);
                assert(slot(after, k, 0) == slot(before, k, 0));
            }
            assert(slot(after, id, 0) == i);
        }
        self.entries = e;
    }

    /// Removes the value for a number.
    pub fn remove(&mut self, id: u64)
        ensures
            final(self)@ == old(self)@.remove(id),
    {
        proof {
            use_type_invariant(&*self);
        }
        let i = self.find(id);
        let mut e: Vec<(u64, T)> = Vec::new();
        std::mem::swap(&mut e, &mut self.entries);
        let ghost before = e@;
        proof {
            lemma_slot(before, id, 0);
        }
        if i < e.len() {
            e.remove(i);
        }
        let ghost after = e@;
        assert forall|k: u64| #[trigger] slot(after, k, 0) == (if k == id {
            after.len() as int
        } else if slot(before, k, 0) >= before.len() {
            after.len() as int
        } else if slot(before, k, 0) < i || i >= before.len() {
            slot(before, k, 0)
        } else {
            slot(before, k, 0) - 1
        }) by {
            lemma_slot(before, k, 0);
            let s = slot(before, k, 0);
            if k == id || s >= before.len() {
                assert forall|j: int| 0 <= j < after.len() implies (#[trigger] after[j]).0 != k by {
                    if i < before.len() && j >= i {
                        assert(after[j] == before[j + 1]);
                        assert(before[i as int].0 == id);
                    } else {
                        assert(after[j] == before[j]);
                    }
                }
                lemma_slot_is(after, k, after.len() as int);
            } else if s < i || i >= before.len() {
                lemma_slot_is(after, k, s);
            } else {
                assert(s != i);
                assert(after[s - 1] == before[s]);
                assert forall|j: int| 0 <= j < s - 1 implies (#[trigger] after[j]).0 != k by {
                    if j >= i {
                        assert(after[j] == before[j + 1]);
                    } else {
                        assert(after[j] == before[j]);
                    }
                }
                lemma_slot_is(after, k, s - 1);
            }
        }
        assert(map_of(after) =~= map_of(before).remove(id)) by {
            assert forall|k: u64| k != id && map_of(before).dom().contains(k) implies map_of(after)[k]
                == map_of(before)[k] by {
                lemma_slot(before, k, 0);
                assert(slot(after, k, 0) <= slot(before, k, 0));
            }
            assert forall|k: u64| map_of(after).dom().contains(k) == map_of(before).remove(id).dom().contains(k) by {
                lemma_slot(before, k, 0);
                assert(slot(after, k, 0) <= after.len());
            }
        }
        self.entries = e;
    }

    /// How many values there are.
    pub fn len(&self) -> (n: usize)
        ensures
            n == self.listed().len(),
            n == 0 <==> self@ =~= Map::<u64, T>::empty(),
    {
        proof {
            if self.entries@.len() > 0 {
                let id = self.entries@[0].0;
                lemma_slot_is(self.entries@, id, 0);
                assert(self@.dom().contains(id));
            }
        }
        self.entries.len()
    }

    /// The entries in the order in which they are kept: each number once.
    pub closed spec fn listed(self) -> Seq<(u64, T)> {
        self.entries@
    }

    /// The number and the value at a position.
    pub fn at(&self, i: usize) -> (r: (u64, &T))
        requires
            i < self.listed().len(),
        ensures
            r.0 == self.listed()[i as int].0,
            *r.1 == self.listed()[i as int].1,
            self@.dom().contains(r.0),
            self@[r.0] == *r.1,
    {
        proof {
            use_type_invariant(self);
            lemma_slot_is(self.entries@, self.entries@[i as int].0, i as int);
        }
        (self.entries[i].0, &self.entries[i].1)
    }

    /// Every value is listed.
    pub proof fn lemma_listed(self, id: u64) -> (i: int)
        requires
            self@.dom().contains(id),
        ensures
            0 <= i < self.listed().len(),
            self.listed()[i] == (id, self@[id]),
    {
        lemma_slot(self.entries@, id, 0);
        slot(self.entries@, id, 0)
    }
}

} // verus!
