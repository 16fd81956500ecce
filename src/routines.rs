use vstd::prelude::*;

verus! {

/// The handles of the routines that are alive. A routine's adapters keep running only
/// while its handle is here: dropping the handle is how a routine is cancelled.
pub struct Routines {
    pub live: Vec<u64>,
    pub next: u64,
}

impl Routines {
    /// Every live handle was given out before `next`, and none is listed twice.
    pub open spec fn wf(&self) -> bool {
        &&& forall|i: int| 0 <= i < self.live@.len() ==> self.live@[i] < self.next
        &&& forall|i: int, j: int| 0 <= i < j < self.live@.len() ==> self.live@[i] != self.live@[j]
    }

    /// The live handles.
    pub open spec fn view(&self) -> Set<u64> {
        self.live@.to_set()
    }

    /// No routine alive.
    pub fn new() -> (r: Routines)
        ensures
            r.wf(),
            r@ == Set::<u64>::empty(),
            r.next == 0,
    {
        let r = Routines { live: Vec::new(), next: 0 };
        assert(r@ =~= Set::<u64>::empty());
        r
    }

    /// Gives a new routine a handle never given before; `None` once handles run out.
    pub fn spawn(&mut self) -> (r: Option<u64>)
        requires
            old(self).wf(),
        ensures
            final(self).wf(),
            r is None <==> old(self).next == u64::MAX,
            r is None ==> *final(self) == *old(self),
            r matches Some(h) ==> {
                &&& h == old(self).next
                &&& !old(self)@.contains(h)
                &&& final(self)@ == old(self)@.insert(h)
                &&& final(self).next == h + 1
            },
    {
        if self.next == u64::MAX {
            return None;
        }
        let h = self.next;
        let ghost before = self.live@;
        self.live.push(h);
        self.next = h + 1;
        proof {
            assert(self.live@ == before.push(h));
            assert forall|x: u64| #[trigger] self@.contains(x) == (before.to_set().contains(x) || x == h) by {
                if self@.contains(x) {
                    let k = choose|k: int| 0 <= k < self.live@.len() && self.live@[k] == x;
                    if k < before.len() {
                        assert(before[k] == x);
                    }
                }
                if before.to_set().contains(x) {
                    let k = choose|k: int| 0 <= k < before.len() && before[k] == x;
                    assert(self.live@[k] == x);
                }
                if x == h {
                    assert(self.live@[before.len() as int] == h);
                }
            }
            assert(self@ =~= before.to_set().insert(h));
            if before.to_set().contains(h) {
                let k = choose|k: int| 0 <= k < before.len() && before[k] == h;
            }
        }
        Some(h)
    }

    /// Where the handle stands among the live ones, if it is live.
    fn position(&self, handle: u64) -> (r: Option<usize>)
        ensures
            r is None <==> !self@.contains(handle),
            r matches Some(i) ==> i < self.live@.len() && self.live@[i as int] == handle,
    {
        let mut i: usize = 0;
        while i < self.live.len()
            invariant
                i <= self.live@.len(),
                forall|j: int| 0 <= j < i ==> self.live@[j] != handle,
            decreases self.live@.len() - i,
        {
            if self.live[i] == handle {
                assert(self.live@[i as int] == handle);
                return Some(i);
            }
            i = i + 1;
        }
        proof {
            if self@.contains(handle) {
                let k = choose|k: int| 0 <= k < self.live@.len() && self.live@[k] == handle;
            }
        }
        None
    }

    /// Whether the handle belongs to a live routine.
    pub fn is_live(&self, handle: u64) -> (r: bool)
        ensures
            r == self@.contains(handle),
    {
        self.position(handle).is_some()
    }

    /// Drops a routine's handle, because it completed or was cancelled. The result says
    /// whether it was alive.
    pub fn retire(&mut self, handle: u64) -> (r: bool)
        requires
            old(self).wf(),
        ensures
            final(self).wf(),
            r == old(self)@.contains(handle),
            final(self)@ == old(self)@.remove(handle),
            final(self).next == old(self).next,
    {
        match self.position(handle) {
            Some(i) => {
                let ghost before = self.live@;
                self.live.remove(i);
                proof {
                    let after = self.live@;
                    assert forall|k: int| 0 <= k < after.len() implies after[k] == (if k < i {
                        before[k]
                    } else {
                        before[k + 1]
                    }) by {}
                    assert forall|x: u64| #[trigger] after.to_set().contains(x) == (before.to_set().contains(x)
                        && x != handle) by {
                        if before.to_set().contains(x) && x != handle {
                            let k = choose|k: int| 0 <= k < before.len() && before[k] == x;
                            if k < i {
                                assert(after[k] == x);
                            } else {
                                assert(k != i);
                                assert(after[k - 1] == x);
                            }
                        }
                        if after.to_set().contains(x) {
                            let k = choose|k: int| 0 <= k < after.len() && after[k] == x;
                            if k < i {
                                assert(before[k] == x);
                            } else {
                                assert(before[k + 1] == x);
                            }
                        }
                    }
                    assert(self@ =~= before.to_set().remove(handle));
                    assert forall|a: int, b: int| 0 <= a < b < after.len() implies after[a] != after[b] by {
                        let a2 = if a < i { a } else { a + 1 };
                        let b2 = if b < i { b } else { b + 1 };
                        assert(before[a2] != before[b2]);
                    }
                    assert forall|a: int| 0 <= a < after.len() implies after[a] < self.next by {
                        let a2 = if a < i { a } else { a + 1 };
                        assert(before[a2] < self.next);
                    }
                }
                true
            },
            None => {
                assert(self@ =~= self@.remove(handle));
                false
            },
        }
    }
}

} // verus!
