use vstd::prelude::*;

use crate::adapter::{fresh, invokes, poll_spec, tick_spec, wf, Adapter, AdapterKind, Outcome, Repeat, Step, Wait};
use crate::driver::{is_pending, pending, Runner};

verus! {

/// The adapter after a run of ticks on which its awaiting side stayed alive; tick `j`
/// brings the time delta `ticks[j].0` and the system's verdict `ticks[j].1`.
pub open spec fn after(a: Adapter, ticks: Seq<(nat, bool)>) -> Adapter
    decreases ticks.len(),
{
    if ticks.len() == 0 {
        a
    } else {
        tick_spec(after(a, ticks.drop_last()), true, ticks.last().0, ticks.last().1).0
    }
}

/// What tick `i` of such a run comes to.
pub open spec fn outcome_at(a: Adapter, ticks: Seq<(nat, bool)>, i: int) -> Outcome {
    tick_spec(after(a, ticks.take(i)), true, ticks[i].0, ticks[i].1).1
}

/// Whether tick `i` of such a run invokes the wrapped system.
pub open spec fn invoked_at(a: Adapter, ticks: Seq<(nat, bool)>, i: int) -> bool {
    invokes(after(a, ticks.take(i)), true, ticks[i].0)
}

/// The time that passed over the first `i` ticks.
pub open spec fn total(ticks: Seq<(nat, bool)>, i: int) -> nat
    decreases i,
{
    if i <= 0 {
        0
    } else {
        total(ticks, i - 1) + ticks[i - 1].0
    }
}

/// Some tick before tick `i` brought a positive verdict.
pub open spec fn ready_before(ticks: Seq<(nat, bool)>, i: int) -> bool {
    exists|j: int| 0 <= j < i && #[trigger] ticks[j].1
}

proof fn lemma_after_take(a: Adapter, ticks: Seq<(nat, bool)>, i: int)
    requires
        0 <= i < ticks.len(),
    ensures
        after(a, ticks.take(i + 1)) == tick_spec(after(a, ticks.take(i)), true, ticks[i].0, ticks[i].1).0,
{
    assert(ticks.take(i + 1).drop_last() =~= ticks.take(i));
}

proof fn lemma_frame_count_state(kind: AdapterKind, n: nat, ticks: Seq<(nat, bool)>, i: int)
    requires
        0 <= i <= ticks.len(),
        kind is DelayFrame && n == kind->DelayFrame_0 || kind == AdapterKind::Repeat(
            Repeat { limit: Some(n as usize) },
        ) && n <= usize::MAX,
    ensures
        ({
            let s = after(fresh(kind), ticks.take(i));
            &&& wf(s) && !s.awaiting && s.kind == kind
            &&& s.done == (i >= n && i >= 1)
            &&& (!s.done ==> (if kind is DelayFrame { s.frames_seen == i } else { s.runs == i }))
        }),
    decreases i,
{
    if i == 0 {
        assert(ticks.take(0) =~= Seq::<(nat, bool)>::empty());
    } else {
        lemma_frame_count_state(kind, n, ticks, i - 1);
        lemma_after_take(fresh(kind), ticks, i - 1);
    }
}

/// A delay of `n` frames sends exactly one value: on tick `max(n, 1)`, counted from
/// the first tick after installation; earlier ticks keep it waiting and later ones
/// find it gone.
pub proof fn lemma_delay_frame_sends_once(n: usize, ticks: Seq<(nat, bool)>, i: int)
    requires
        0 <= i < ticks.len(),
    ensures
        outcome_at(fresh(AdapterKind::DelayFrame(n)), ticks, i) == (if i + 1 < n {
            Outcome::Continued
        } else if i + 1 == n || (n == 0 && i == 0) {
            Outcome::Finished
        } else {
            Outcome::Evicted
        }),
        !invoked_at(fresh(AdapterKind::DelayFrame(n)), ticks, i),
{
    lemma_frame_count_state(AdapterKind::DelayFrame(n), n as nat, ticks, i);
}

proof fn lemma_time_state(d: u128, ticks: Seq<(nat, bool)>, i: int)
    requires
        0 <= i <= ticks.len(),
    ensures
        ({
            let s = after(fresh(AdapterKind::DelayTime(d)), ticks.take(i));
            &&& wf(s) && !s.awaiting && s.kind == AdapterKind::DelayTime(d)
            &&& s.done == (i >= 1 && total(ticks, i) >= d)
            &&& (!s.done ==> s.elapsed == total(ticks, i))
        }),
    decreases i,
{
    if i == 0 {
        assert(ticks.take(0) =~= Seq::<(nat, bool)>::empty());
    } else {
        lemma_time_state(d, ticks, i - 1);
        lemma_after_take(fresh(AdapterKind::DelayTime(d)), ticks, i - 1);
    }
}

/// A delay of `d` nanoseconds sends on the first tick by which the accumulated time
/// reaches `d`, and on no other: before that tick it waits, after it it is gone.
pub proof fn lemma_delay_time_sends_after(d: u128, ticks: Seq<(nat, bool)>, i: int)
    requires
        0 <= i < ticks.len(),
    ensures
        outcome_at(fresh(AdapterKind::DelayTime(d)), ticks, i) == (if total(ticks, i + 1) < d {
            Outcome::Continued
        } else if i == 0 || total(ticks, i) < d {
            Outcome::Finished
        } else {
            Outcome::Evicted
        }),
        !invoked_at(fresh(AdapterKind::DelayTime(d)), ticks, i),
{
    lemma_time_state(d, ticks, i);
}

proof fn lemma_wait_state(w: Wait, ticks: Seq<(nat, bool)>, i: int)
    requires
        0 <= i <= ticks.len(),
    ensures
        ({
            let s = after(fresh(AdapterKind::Wait(w)), ticks.take(i));
            &&& wf(s) && !s.awaiting && s.kind == AdapterKind::Wait(w)
            &&& s.done == ready_before(ticks, i)
            &&& s.initialized == (i >= 1)
        }),
    decreases i,
{
    if i == 0 {
        assert(ticks.take(0) =~= Seq::<(nat, bool)>::empty());
    } else {
        lemma_wait_state(w, ticks, i - 1);
        lemma_after_take(fresh(AdapterKind::Wait(w)), ticks, i - 1);
        if ticks[i - 1].1 {
            assert(ready_before(ticks, i));
        }
        if ready_before(ticks, i) && !ready_before(ticks, i - 1) {
            let j = choose|j: int| 0 <= j < i && #[trigger] ticks[j].1;
            assert(j == i - 1);
        }
    }
}

/// A waiting adapter runs its system on every tick up to and including the first one
/// whose verdict is positive, sends exactly then, and never runs after.
pub proof fn lemma_wait_sends_on_first_ready(w: Wait, ticks: Seq<(nat, bool)>, i: int)
    requires
        0 <= i < ticks.len(),
    ensures
        invoked_at(fresh(AdapterKind::Wait(w)), ticks, i) == !ready_before(ticks, i),
        outcome_at(fresh(AdapterKind::Wait(w)), ticks, i) == (if ready_before(ticks, i) {
            Outcome::Evicted
        } else if ticks[i].1 {
            Outcome::Finished
        } else {
            Outcome::Continued
        }),
{
    lemma_wait_state(w, ticks, i);
}

/// A waiting adapter initialises its system on the first tick only.
pub proof fn lemma_wait_initializes_once(w: Wait, ticks: Seq<(nat, bool)>, i: int)
    requires
        0 <= i < ticks.len(),
        !ready_before(ticks, i),
    ensures
        poll_spec(after(fresh(AdapterKind::Wait(w)), ticks.take(i)), true, ticks[i].0).1
            == (Step::Run { initialize: i == 0 }),
{
    lemma_wait_state(w, ticks, i);
}

proof fn lemma_once_state(ticks: Seq<(nat, bool)>, i: int)
    requires
        0 <= i <= ticks.len(),
    ensures
        ({
            let s = after(fresh(AdapterKind::Once), ticks.take(i));
            wf(s) && !s.awaiting && s.done == (i >= 1) && s.kind == AdapterKind::Once
        }),
    decreases i,
{
    if i == 0 {
        assert(ticks.take(0) =~= Seq::<(nat, bool)>::empty());
    } else {
        lemma_once_state(ticks, i - 1);
        lemma_after_take(fresh(AdapterKind::Once), ticks, i - 1);
    }
}

/// A one-shot adapter runs its system on the first tick and sends whatever it returned;
/// it never runs again.
pub proof fn lemma_once_runs_once(ticks: Seq<(nat, bool)>, i: int)
    requires
        0 <= i < ticks.len(),
    ensures
        invoked_at(fresh(AdapterKind::Once), ticks, i) == (i == 0),
        outcome_at(fresh(AdapterKind::Once), ticks, i) == (if i == 0 {
            Outcome::Finished
        } else {
            Outcome::Evicted
        }),
{
    lemma_once_state(ticks, i);
}

/// A repeating adapter limited to `k` runs runs its system on each of the first `k`
/// ticks, sends after the `k`-th run (at once when `k` is zero), and never runs again.
pub proof fn lemma_repeat_times(k: usize, ticks: Seq<(nat, bool)>, i: int)
    requires
        0 <= i < ticks.len(),
    ensures
        invoked_at(fresh(AdapterKind::Repeat(Repeat { limit: Some(k) })), ticks, i) == (i < k),
        outcome_at(fresh(AdapterKind::Repeat(Repeat { limit: Some(k) })), ticks, i) == (if i + 1 < k {
            Outcome::Continued
        } else if i + 1 == k || (k == 0 && i == 0) {
            Outcome::Finished
        } else {
            Outcome::Evicted
        }),
{
    lemma_frame_count_state(AdapterKind::Repeat(Repeat { limit: Some(k) }), k as nat, ticks, i);
}

proof fn lemma_forever_state(ticks: Seq<(nat, bool)>, i: int)
    requires
        0 <= i <= ticks.len(),
    ensures
        ({
            let s = after(fresh(AdapterKind::Repeat(Repeat { limit: None })), ticks.take(i));
            wf(s) && !s.awaiting && !s.done && s.kind == AdapterKind::Repeat(Repeat { limit: None })
        }),
    decreases i,
{
    if i == 0 {
        assert(ticks.take(0) =~= Seq::<(nat, bool)>::empty());
    } else {
        lemma_forever_state(ticks, i - 1);
        lemma_after_take(fresh(AdapterKind::Repeat(Repeat { limit: None })), ticks, i - 1);
    }
}

/// A repeating adapter without a limit runs its system on every tick while its
/// keep-alive token is held, and never finishes by itself.
pub proof fn lemma_repeat_forever(ticks: Seq<(nat, bool)>, i: int)
    requires
        0 <= i < ticks.len(),
    ensures
        invoked_at(fresh(AdapterKind::Repeat(Repeat { limit: None })), ticks, i),
        outcome_at(fresh(AdapterKind::Repeat(Repeat { limit: None })), ticks, i) == Outcome::Continued,
{
    lemma_forever_state(ticks, i);
}

/// Once the awaiting side is gone (its routine's handle dropped, or the keep-alive
/// token), the next tick removes the adapter without running or sending, and every
/// later tick finds it gone, whatever it is told.
pub proof fn lemma_cancel_stops(
    a: Adapter,
    delta: nat,
    ready: bool,
    alive2: bool,
    delta2: nat,
    ready2: bool,
)
    requires
        wf(a),
        !a.awaiting,
    ensures
        !invokes(a, false, delta),
        tick_spec(a, false, delta, ready).1 == Outcome::Evicted,
        ({
            let b = tick_spec(a, false, delta, ready).0;
            &&& !invokes(b, alive2, delta2)
            &&& tick_spec(b, alive2, delta2, ready2) == (b, Outcome::Evicted)
        }),
{
}

/// One tick of a phase's runners: runner `k` is ticked with its own `alive[k]`
/// and verdict `ready[k]`, and the shared time delta.
pub open spec fn tick_all<T>(rs: Seq<Runner<T>>, alive: Seq<bool>, delta: nat, ready: Seq<bool>) -> Seq<Runner<T>> {
    Seq::new(
        rs.len(),
        |k: int| Runner { adapter: tick_spec(rs[k].adapter, alive[k], delta, ready[k]).0, ..rs[k] },
    )
}

/// Cancelling one routine (its runner `i` is no longer alive) leaves another routine's
/// runner `j` on the same phase exactly as it would have been: the cancelled one is
/// evicted and dropped from the queue, the other stays queued exactly when its own
/// tick says so.
pub proof fn lemma_cancel_one_leaves_other<T>(
    rs: Seq<Runner<T>>,
    alive: Seq<bool>,
    delta: nat,
    ready: Seq<bool>,
    i: int,
    j: int,
)
    requires
        rs.len() == alive.len() == ready.len(),
        0 <= i < rs.len(),
        0 <= j < rs.len(),
        i != j,
        !rs[i].adapter.awaiting,
        !rs[j].adapter.awaiting,
    ensures
        ({
            let cancelled = alive.update(i, false);
            let before = tick_all(rs, alive, delta, ready);
            let after = tick_all(rs, cancelled, delta, ready);
            &&& after[j] == before[j]
            &&& tick_spec(rs[i].adapter, false, delta, ready[i]).1 == Outcome::Evicted
            &&& !pending(after).contains(after[i])
            &&& pending(after).contains(after[j]) == (tick_spec(rs[j].adapter, alive[j], delta, ready[j]).1
                == Outcome::Continued)
        }),
{
    let cancelled = alive.update(i, false);
    let after = tick_all(rs, cancelled, delta, ready);
    let pred = |r: Runner<T>| is_pending(r);
    if pending(after).contains(after[i]) {
        let k = choose|k: int| 0 <= k < pending(after).len() && pending(after)[k] == after[i];
        after.lemma_filter_pred(pred, k);
    }
    if tick_spec(rs[j].adapter, alive[j], delta, ready[j]).1 == Outcome::Continued {
        after.lemma_filter_contains(pred, j);
    } else if pending(after).contains(after[j]) {
        let k = choose|k: int| 0 <= k < pending(after).len() && pending(after)[k] == after[j];
        after.lemma_filter_pred(pred, k);
    }
}

/// The adapter after a run of ticks; tick `j` says whether the awaiting side is
/// alive (`ticks[j].0`), the time delta (`ticks[j].1`) and the system's verdict (`ticks[j].2`).
pub open spec fn run_ticks(a: Adapter, ticks: Seq<(bool, nat, bool)>) -> Adapter
    decreases ticks.len(),
{
    if ticks.len() == 0 {
        a
    } else {
        tick_spec(run_ticks(a, ticks.drop_last()), ticks.last().0, ticks.last().1, ticks.last().2).0
    }
}

/// What tick `i` of such a run comes to.
pub open spec fn outcome_of(a: Adapter, ticks: Seq<(bool, nat, bool)>, i: int) -> Outcome {
    tick_spec(run_ticks(a, ticks.take(i)), ticks[i].0, ticks[i].1, ticks[i].2).1
}

/// What the driver is told to do at the start of tick `i` of such a run.
pub open spec fn step_of(a: Adapter, ticks: Seq<(bool, nat, bool)>, i: int) -> Step {
    poll_spec(run_ticks(a, ticks.take(i)), ticks[i].0, ticks[i].1).1
}

proof fn lemma_run_ticks_take(a: Adapter, ticks: Seq<(bool, nat, bool)>, i: int)
    requires
        0 <= i < ticks.len(),
    ensures
        run_ticks(a, ticks.take(i + 1)) == tick_spec(
            run_ticks(a, ticks.take(i)),
            ticks[i].0,
            ticks[i].1,
            ticks[i].2,
        ).0,
{
    assert(ticks.take(i + 1).drop_last() =~= ticks.take(i));
}

proof fn lemma_done_stays(a: Adapter, ticks: Seq<(bool, nat, bool)>, i: int, j: int)
    requires
        0 <= i <= j <= ticks.len(),
        run_ticks(a, ticks.take(i)).done,
        !run_ticks(a, ticks.take(i)).awaiting,
    ensures
        run_ticks(a, ticks.take(j)) == run_ticks(a, ticks.take(i)),
    decreases j - i,
{
    if j > i {
        lemma_done_stays(a, ticks, i, j - 1);
        lemma_run_ticks_take(a, ticks, j - 1);
    }
}

/// An adapter sends at most one value: after the tick on which it finishes or is
/// evicted, every later tick finds it gone, runs nothing and sends nothing, whatever
/// those ticks bring.
pub proof fn lemma_terminal_is_final(a: Adapter, ticks: Seq<(bool, nat, bool)>, i: int, j: int)
    requires
        0 <= i < j < ticks.len(),
        outcome_of(a, ticks, i) != Outcome::Continued,
    ensures
        outcome_of(a, ticks, j) == Outcome::Evicted,
        step_of(a, ticks, j) == Step::Evict,
{
    lemma_run_ticks_take(a, ticks, i);
    lemma_done_stays(a, ticks, i + 1, j);
}

proof fn lemma_initialized_iff_ran(kind: AdapterKind, ticks: Seq<(bool, nat, bool)>, j: int)
    requires
        0 <= j <= ticks.len(),
    ensures
        run_ticks(fresh(kind), ticks.take(j)).initialized == exists|i: int|
            0 <= i < j && #[trigger] step_of(fresh(kind), ticks, i) is Run,
    decreases j,
{
    if j == 0 {
        assert(ticks.take(0) =~= Seq::<(bool, nat, bool)>::empty());
    } else {
        lemma_initialized_iff_ran(kind, ticks, j - 1);
        lemma_run_ticks_take(fresh(kind), ticks, j - 1);
        if step_of(fresh(kind), ticks, j - 1) is Run {
            assert(exists|i: int| 0 <= i < j && #[trigger] step_of(fresh(kind), ticks, i) is Run);
        }
        if exists|i: int| 0 <= i < j && #[trigger] step_of(fresh(kind), ticks, i) is Run {
            let i = choose|i: int| 0 <= i < j && #[trigger] step_of(fresh(kind), ticks, i) is Run;
            if i < j - 1 {
                assert(exists|i: int| 0 <= i < j - 1 && #[trigger] step_of(fresh(kind), ticks, i) is Run);
            }
        }
    }
}

/// A fresh adapter asks for its system to be initialised on its first run and on no
/// later one, whatever the ticks bring.
pub proof fn lemma_initialize_on_first_run(kind: AdapterKind, ticks: Seq<(bool, nat, bool)>, j: int)
    requires
        0 <= j < ticks.len(),
        step_of(fresh(kind), ticks, j) is Run,
    ensures
        step_of(fresh(kind), ticks, j) == (Step::Run {
            initialize: !exists|i: int| 0 <= i < j && #[trigger] step_of(fresh(kind), ticks, i) is Run,
        }),
{
    lemma_initialized_iff_ran(kind, ticks, j);
}

} // verus!
