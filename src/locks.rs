//! Per-target mutual exclusion for lifecycle operations.  An operation on a
//! directory or archive takes the target's lock before its precondition
//! check and gives it back after its catalog write, so that two operations
//! on one target cannot both pass the check.
use vstd::prelude::*;

verus! {

/// The ids of the targets whose lock is taken.
pub struct TargetLocks {
    held: Vec<u128>,
}

impl View for TargetLocks {
    type V = Set<u128>;

    closed spec fn view(&self) -> Set<u128> {
        Set::new(|id: u128| self.held@.contains(id))
    }
}

impl TargetLocks {
    /// Each id is held at most once.
    pub closed spec fn wf(&self) -> bool {
        self.held@.no_duplicates()
    }

    /// A table with no lock taken.
    pub fn new() -> (r: Self)
        ensures
            r.wf(),
            r@ == Set::<u128>::empty(),
    {
        let r = TargetLocks { held: Vec::new() };
        assert(r@ =~= Set::<u128>::empty());
        r
    }

    fn position(&self, id: u128) -> (r: Option<usize>)
        ensures
            match r {
                Some(i) => i < self.held@.len() && self.held@[i as int] == id,
                None => !self.held@.contains(id),
            },
    {
        let mut i: usize = 0;
        while i < self.held.len()
            invariant
                i <= self.held@.len(),
                forall|j: int| 0 <= j < i ==> self.held@[j] != id,
            decreases self.held@.len() - i,
        {
            if self.held[i] == id {
                return Some(i);
            }
            i = i + 1;
        }
        None
    }

    /// Whether the target's lock is taken.
    pub fn is_held(&self, id: u128) -> (r: bool)
        ensures
            r == self@.contains(id),
    {
        self.position(id).is_some()
    }

    /// Takes the target's lock if it is free.  Returns whether it was taken
    /// by this call; afterwards it is held either way.
    pub fn try_acquire(&mut self, id: u128) -> (r: bool)
        requires
            old(self).wf(),
        ensures
            final(self).wf(),
            r == !old(self)@.contains(id),
            final(self)@ == old(self)@.insert(id),
    {
        if self.position(id).is_some() {
            assert(self@ =~= self@.insert(id));
            return false;
        }
        let ghost before = self.held@;
        self.held.push(id);
        proof {
            assert forall|x: u128| #[trigger] self.held@.contains(x) <==> (before.contains(x) || x == id) by {
                if self.held@.contains(x) {
                    let k = choose|k: int| 0 <= k < self.held@.len() && self.held@[k] == x;
                    if k < before.len() {
                        assert(before[k] == x);
                    }
                }
                if before.contains(x) {
                    let k = choose|k: int| 0 <= k < before.len() && before[k] == x;
                    assert(self.held@[k] == x);
                }
                if x == id {
                    assert(self.held@[before.len() as int] == x);
                }
            }
            assert(self@ =~= Set::new(|x: u128| before.contains(x)).insert(id));
        }
        true
    }

    /// Gives the target's lock back.
    pub fn release(&mut self, id: u128)
        requires
            old(self).wf(),
        ensures
            final(self).wf(),
            final(self)@ == old(self)@.remove(id),
    {
        match self.position(id) {
            None => {
                assert(self@ =~= self@.remove(id));
            },
            Some(i) => {
                let ghost before = self.held@;
                self.held.remove(i);
                proof {
                    let after = self.held@;
                    assert(after == before.remove(i as int));
                    assert forall|x: u128| #[trigger] after.contains(x) <==> (before.contains(x) && x != id) by {
                        if after.contains(x) {
                            let k = choose|k: int| 0 <= k < after.len() && after[k] == x;
                            if k < i {
                                assert(before[k] == x);
                                assert(k != i);
                            } else {
                                assert(before[k + 1] == x);
                            }
                        }
                        if before.contains(x) && x != id {
                            let k = choose|k: int| 0 <= k < before.len() && before[k] == x;
                            assert(k != i);
                            if k < i {
                                assert(after[k] == x);
                            } else {
                                assert(after[k - 1] == x);
                            }
                        }
                    }
                    assert forall|a: int, b: int|
                        0 <= a < after.len() && 0 <= b < after.len() && a != b implies after[a]
                        != after[b] by {
                        let a0 = if a < i { a } else { a + 1 };
                        let b0 = if b < i { b } else { b + 1 };
                        assert(after[a] == before[a0]);
                        assert(after[b] == before[b0]);
                    }
                    assert(self@ =~= Set::new(|x: u128| before.contains(x)).remove(id));
                }
            },
        }
    }
}

} // verus!
