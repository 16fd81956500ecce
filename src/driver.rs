use vstd::prelude::*;

use crate::adapter::Adapter;

verus! {

/// One adapter queued on a phase, with the routine that owns it and what the host
/// keeps beside it to run it (its system and its output sender).
pub struct Runner<T> {
    pub owner: u64,
    pub adapter: Adapter,
    pub payload: T,
}

/// The runners queued on one phase.
pub struct PhaseQueue<T> {
    pub phase: u64,
    pub runners: Vec<Runner<T>>,
}

/// The frame driver's bookkeeping: for each phase used so far, its queue of runners.
/// A phase gets its queue, and the host its per-phase system, the first time an
/// adapter is installed on it, and never again.
pub struct FrameDriver<T> {
    pub queues: Vec<PhaseQueue<T>>,
}

/// Whether a runner still has work to do.
pub open spec fn is_pending<T>(r: Runner<T>) -> bool {
    !r.adapter.done
}

/// The runners of a sequence that still have work to do, in their order.
pub open spec fn pending<T>(s: Seq<Runner<T>>) -> Seq<Runner<T>> {
    s.filter(|r: Runner<T>| is_pending(r))
}

impl<T> FrameDriver<T> {
    /// No phase has two queues.
    pub open spec fn wf(&self) -> bool {
        forall|i: int, j: int|
            0 <= i < j < self.queues@.len() ==> self.queues@[i].phase != self.queues@[j].phase
    }

    /// Whether the phase has its queue.
    pub open spec fn has_phase(&self, phase: u64) -> bool {
        exists|i: int| 0 <= i < self.queues@.len() && self.queues@[i].phase == phase
    }

    /// The runners queued on a phase; none where it has no queue.
    pub open spec fn runners_of(&self, phase: u64) -> Seq<Runner<T>> {
        if self.has_phase(phase) {
            let i = choose|i: int| 0 <= i < self.queues@.len() && self.queues@[i].phase == phase;
            self.queues@[i].runners@
        } else {
            Seq::empty()
        }
    }

    /// The driver as a map from each phase used so far to its queued runners.
    pub open spec fn view(&self) -> Map<u64, Seq<Runner<T>>> {
        Map::new(|p: u64| self.has_phase(p), |p: u64| self.runners_of(p))
    }

    proof fn lemma_runners_at(&self, i: int)
        requires
            self.wf(),
            0 <= i < self.queues@.len(),
        ensures
            self.has_phase(self.queues@[i].phase),
            self.runners_of(self.queues@[i].phase) == self.queues@[i].runners@,
    {
        let p = self.queues@[i].phase;
        assert(self.has_phase(p));
        let j = choose|j: int| 0 <= j < self.queues@.len() && self.queues@[j].phase == p;
        assert(i == j);
    }

    /// A driver with no phase in use.
    pub fn new() -> (r: FrameDriver<T>)
        ensures
            r.wf(),
            r@ == Map::<u64, Seq<Runner<T>>>::empty(),
    {
        let r = FrameDriver { queues: Vec::new() };
        assert(r@ =~= Map::<u64, Seq<Runner<T>>>::empty());
        r
    }

    /// The position of the phase's queue, if it has one.
    pub fn find(&self, phase: u64) -> (r: Option<usize>)
        requires
            self.wf(),
        ensures
            r is None <==> !self.has_phase(phase),
            r matches Some(i) ==> i < self.queues@.len() && self.queues@[i as int].phase == phase,
    {
        let mut i: usize = 0;
        while i < self.queues.len()
            invariant
                i <= self.queues@.len(),
                forall|j: int| 0 <= j < i ==> self.queues@[j].phase != phase,
            decreases self.queues@.len() - i,
        {
            if self.queues[i].phase == phase {
                return Some(i);
            }
            i = i + 1;
        }
        None
    }

    /// Removes and returns the runners queued on a phase; the phase stays in use.
    pub fn take_runners(&mut self, phase: u64) -> (r: Vec<Runner<T>>)
        requires
            old(self).wf(),
        ensures
            final(self).wf(),
            r@ == old(self).runners_of(phase),
            final(self)@ == (if old(self)@.contains_key(phase) {
                old(self)@.insert(phase, Seq::empty())
            } else {
                old(self)@
            }),
    {
        match self.find(phase) {
            Some(i) => {
                let ghost before = *self;
                let mut q = PhaseQueue { phase, runners: Vec::new() };
                self.queues.set_and_swap(i, &mut q);
                proof {
                    before.lemma_runners_at(i as int);
                    self.lemma_same_phases(before, i as int);
                    assert(self@ =~= before@.insert(phase, Seq::empty()));
                }
                q.runners
            },
            None => Vec::new(),
        }
    }

    /// Makes `runners` the whole queue of a phase, taking the phase into use if needed.
    fn put(&mut self, phase: u64, runners: Vec<Runner<T>>)
        requires
            old(self).wf(),
        ensures
            final(self).wf(),
            final(self)@ == old(self)@.insert(phase, runners@),
    {
        let ghost rs = runners@;
        match self.find(phase) {
            Some(i) => {
                let ghost before = *self;
                let mut q = PhaseQueue { phase, runners };
                self.queues.set_and_swap(i, &mut q);
                proof {
                    self.lemma_same_phases(before, i as int);
                    assert(self@ =~= before@.insert(phase, rs));
                }
            },
            None => {
                let ghost before = *self;
                self.queues.push(PhaseQueue { phase, runners });
                proof {
                    let n = before.queues@.len();
                    self.lemma_runners_at(n as int);
                    assert forall|p: u64| #[trigger] self.has_phase(p) == (before.has_phase(p) || p == phase) by {
                        if self.has_phase(p) && p != phase {
                            let j = choose|j: int| 0 <= j < self.queues@.len() && self.queues@[j].phase == p;
                            assert(before.queues@[j].phase == p);
                        }
                        if before.has_phase(p) {
                            let j = choose|j: int| 0 <= j < before.queues@.len() && before.queues@[j].phase == p;
                            assert(self.queues@[j].phase == p);
                        }
                    }
                    assert forall|p: u64| p != phase && #[trigger] before.has_phase(p) implies self.runners_of(p)
                        == before.runners_of(p) by {
                        let j = choose|j: int| 0 <= j < before.queues@.len() && before.queues@[j].phase == p;
                        before.lemma_runners_at(j);
                        self.lemma_runners_at(j);
                    }
                    assert(self@ =~= before@.insert(phase, rs));
                }
            },
        }
    }

    /// After the queue at position `i` alone changed, keeping its phase, the other
    /// phases keep their runners and the changed one shows its new runners.
    proof fn lemma_same_phases(&self, before: FrameDriver<T>, i: int)
        requires
            before.wf(),
            0 <= i < before.queues@.len(),
            self.queues@.len() == before.queues@.len(),
            self.queues@[i].phase == before.queues@[i].phase,
            forall|j: int| 0 <= j < self.queues@.len() && j != i ==> self.queues@[j] == before.queues@[j],
        ensures
            self.wf(),
            forall|p: u64| #[trigger] self.has_phase(p) == before.has_phase(p),
            self.runners_of(self.queues@[i].phase) == self.queues@[i].runners@,
            forall|p: u64| p != self.queues@[i].phase && #[trigger] before.has_phase(p) ==> self.runners_of(p) == before.runners_of(p),
    {
        assert forall|a: int, b: int| 0 <= a < b < self.queues@.len() implies self.queues@[a].phase
            != self.queues@[b].phase by {
            assert(before.queues@[a].phase != before.queues@[b].phase);
        }
        self.lemma_runners_at(i);
        assert forall|p: u64| #[trigger] self.has_phase(p) == before.has_phase(p) by {
            if before.has_phase(p) {
                let j = choose|j: int| 0 <= j < before.queues@.len() && before.queues@[j].phase == p;
                assert(self.queues@[j].phase == p);
            }
            if self.has_phase(p) {
                let j = choose|j: int| 0 <= j < self.queues@.len() && self.queues@[j].phase == p;
                assert(before.queues@[j].phase == p);
            }
        }
        assert forall|p: u64| p != self.queues@[i].phase && #[trigger] before.has_phase(p) implies self.runners_of(p)
            == before.runners_of(p) by {
            let j = choose|j: int| 0 <= j < before.queues@.len() && before.queues@[j].phase == p;
            before.lemma_runners_at(j);
            self.lemma_runners_at(j);
        }
    }

    /// Queues a runner on a phase. The result is true exactly when the phase was not
    /// in use before: the host then adds the phase's runner system, once per phase.
    pub fn install(&mut self, phase: u64, runner: Runner<T>) -> (r: bool)
        requires
            old(self).wf(),
        ensures
            final(self).wf(),
            r == !old(self)@.contains_key(phase),
            final(self)@ == old(self)@.insert(phase, old(self).runners_of(phase).push(runner)),
    {
        let ghost before = *self;
        let first_use = self.find(phase).is_none();
        let mut runners = self.take_runners(phase);
        runners.push(runner);
        self.put(phase, runners);
        proof {
            assert(self@ =~= before@.insert(phase, before.runners_of(phase).push(runner)));
        }
        first_use
    }

    /// Puts back the runners taken from a phase for a tick: those still pending go
    /// first, in their order, before any installed on the phase in the meantime;
    /// finished and evicted ones are dropped.
    pub fn requeue(&mut self, phase: u64, runners: Vec<Runner<T>>)
        requires
            old(self).wf(),
        ensures
            final(self).wf(),
            final(self)@ == old(self)@.insert(phase, pending(runners@) + old(self).runners_of(phase)),
    {
        let ghost before = *self;
        let mut kept = retain_pending(runners);
        let mut later = self.take_runners(phase);
        kept.append(&mut later);
        self.put(phase, kept);
        proof {
            assert(self@ =~= before@.insert(phase, pending(runners@) + before.runners_of(phase)));
        }
    }
}

/// The runners that still have work to do, in their order.
pub fn retain_pending<T>(runners: Vec<Runner<T>>) -> (r: Vec<Runner<T>>)
    ensures
        r@ == pending(runners@),
{
    let ghost all = runners@;
    let n: usize = runners.len();
    let mut rest = runners;
    let mut kept: Vec<Runner<T>> = Vec::new();
    let mut i: usize = 0;
    assert(all.take(0) =~= Seq::<Runner<T>>::empty());
    while rest.len() > 0
        invariant
            i <= all.len(),
            all.len() == n,
            rest@ == all.skip(i as int),
            kept@ == pending(all.take(i as int)),
        decreases rest@.len(),
    {
        let r = rest.remove(0);
        proof {
            assert(all.take(i + 1).drop_last() =~= all.take(i as int));
            assert(all.take(i + 1).last() == r);
            reveal(Seq::filter);
        }
        if !r.adapter.done {
            kept.push(r);
        }
        i = i + 1;
        proof {
            assert(rest@ =~= all.skip(i as int));
        }
    }
    assert(all.take(i as int) =~= all);
    kept
}

} // verus!
