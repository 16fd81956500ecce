use vstd::prelude::*;

verus! {

/// How a waiting adapter hands back its result.
#[derive(Clone, Copy, Debug, PartialEq, Eq, Structural)]
pub struct Wait {
    /// The emitted value is the system's output (`Some` of an optional output,
    /// or a clone of the awaited event); otherwise the adapter emits unit.
    pub yields_value: bool,
}

/// How many times a repeating adapter runs its system.
#[derive(Clone, Copy, Debug, PartialEq, Eq, Structural)]
pub struct Repeat {
    /// `Some(n)`: exactly `n` runs, one per tick; `None`: every tick until cancelled.
    pub limit: Option<usize>,
}

/// The closed set of adapter kinds: each decides when repeated ticks turn into one result.
#[derive(Clone, Copy, Debug, PartialEq, Eq, Structural)]
pub enum AdapterKind {
    /// Runs the system once and emits its output.
    Once,
    /// Runs the system each tick until it reports readiness.
    Wait(Wait),
    /// Emits unit on the tick where the count of ticks reaches the given number.
    DelayFrame(usize),
    /// Emits unit once the accumulated tick deltas (nanoseconds) reach the given duration.
    DelayTime(u128),
    /// Runs the system on consecutive ticks, a fixed number of times or forever.
    Repeat(Repeat),
}

/// What the frame driver does with an adapter on this tick.
#[derive(Clone, Copy, Debug, PartialEq, Eq, Structural)]
pub enum Step {
    /// Remove the adapter without running anything or sending anything.
    Evict,
    /// Keep the adapter queued; nothing runs this tick.
    Wait,
    /// Send the adapter's result, close the output channel and remove the adapter.
    Finish,
    /// Run the wrapped system, initialising it against the world first when asked,
    /// then report its result through `Adapter::observe`.
    Run { initialize: bool },
}

/// The progress of one scheduled unit of work.
#[derive(Clone, Copy, Debug)]
pub struct Adapter {
    pub kind: AdapterKind,
    /// Ticks counted by a frame delay.
    pub frames_seen: usize,
    /// Time accumulated by a time delay, in nanoseconds; never above its duration.
    pub elapsed: u128,
    /// Runs of the wrapped system so far.
    pub runs: usize,
    /// The wrapped system has been initialised against the world.
    pub initialized: bool,
    /// The system was asked to run and its result is still to be observed.
    pub awaiting: bool,
    /// A terminal decision was reached: the adapter never runs or sends again.
    pub done: bool,
}

/// The well-formedness of an adapter's progress.
pub open spec fn wf(a: Adapter) -> bool {
    &&& !(a.awaiting && a.done)
    &&& (a.awaiting ==> a.initialized)
    &&& (a.runs > 0 ==> a.initialized)
    &&& match a.kind {
        AdapterKind::Once => a.runs == 0 && (a.awaiting ==> !a.done),
        AdapterKind::Wait(_) => a.runs == 0,
        AdapterKind::DelayFrame(n) => !a.initialized && a.runs == 0 && a.frames_seen <= n,
        AdapterKind::DelayTime(d) => !a.initialized && a.runs == 0 && a.elapsed <= d,
        AdapterKind::Repeat(r) => match r.limit {
            Some(k) => a.runs <= k && (a.awaiting ==> a.runs < k),
            None => a.runs == 0,
        },
    }
}

/// A fresh adapter of the given kind: nothing counted, nothing run.
pub open spec fn fresh(kind: AdapterKind) -> Adapter {
    Adapter {
        kind,
        frames_seen: 0,
        elapsed: 0,
        runs: 0,
        initialized: false,
        awaiting: false,
        done: false,
    }
}

/// The adapter after it reaches a terminal decision.
pub open spec fn retired(a: Adapter) -> Adapter {
    Adapter { awaiting: false, done: true, ..a }
}

/// The start of a tick: `alive` is false once the awaiting side is gone (the
/// receiver was dropped, or the keep-alive token of a repeating adapter), and
/// `delta` is the time that passed since the previous tick, in nanoseconds.
pub open spec fn poll_spec(a: Adapter, alive: bool, delta: nat) -> (Adapter, Step) {
    if a.done || !alive {
        (retired(a), Step::Evict)
    } else {
        match a.kind {
            AdapterKind::DelayFrame(n) => if a.frames_seen + 1 >= n {
                (retired(Adapter { frames_seen: n, ..a }), Step::Finish)
            } else {
                (Adapter { frames_seen: (a.frames_seen + 1) as usize, ..a }, Step::Wait)
            },
            AdapterKind::DelayTime(d) => if a.elapsed + delta >= d {
                (retired(Adapter { elapsed: d, ..a }), Step::Finish)
            } else {
                (Adapter { elapsed: (a.elapsed + delta) as u128, ..a }, Step::Wait)
            },
            AdapterKind::Repeat(Repeat { limit: Some(k) }) if a.runs >= k => (retired(a), Step::Finish),
            _ => (
                Adapter { awaiting: true, initialized: true, ..a },
                Step::Run { initialize: !a.initialized },
            ),
        }
    }
}

/// The end of a tick on which the system ran: `ready` is the system's verdict for a
/// waiting adapter (its boolean, or whether its optional output is present).
/// The result says whether the adapter finished, and so sends its result now.
pub open spec fn observe_spec(a: Adapter, ready: bool) -> (Adapter, bool) {
    match a.kind {
        AdapterKind::Once => (retired(a), true),
        AdapterKind::Wait(_) => if ready {
            (retired(a), true)
        } else {
            (Adapter { awaiting: false, ..a }, false)
        },
        AdapterKind::Repeat(Repeat { limit: Some(k) }) => if a.runs + 1 >= k {
            (retired(Adapter { runs: k, ..a }), true)
        } else {
            (Adapter { runs: (a.runs + 1) as usize, awaiting: false, ..a }, false)
        },
        _ => (Adapter { awaiting: false, ..a }, false),
    }
}

/// What a whole tick comes to.
#[derive(Clone, Copy, Debug, PartialEq, Eq, Structural)]
pub enum Outcome {
    /// The adapter was removed without running or sending.
    Evicted,
    /// The adapter stays queued for the next tick.
    Continued,
    /// The adapter sent its one result and was removed.
    Finished,
}

/// A whole tick: the poll, then, where it asks for a run, the system's verdict `ready`.
pub open spec fn tick_spec(a: Adapter, alive: bool, delta: nat, ready: bool) -> (Adapter, Outcome) {
    let (b, step) = poll_spec(a, alive, delta);
    match step {
        Step::Evict => (b, Outcome::Evicted),
        Step::Wait => (b, Outcome::Continued),
        Step::Finish => (b, Outcome::Finished),
        Step::Run { .. } => {
            let (c, fin) = observe_spec(b, ready);
            (c, if fin { Outcome::Finished } else { Outcome::Continued })
        },
    }
}

/// Whether the wrapped system runs on this tick.
pub open spec fn invokes(a: Adapter, alive: bool, delta: nat) -> bool {
    poll_spec(a, alive, delta).1 is Run
}

impl Wait {
    /// Runs the system every tick until it returns true; emits unit.
    pub fn until() -> (r: Adapter)
        ensures
            r == fresh(AdapterKind::Wait(Wait { yields_value: false })),
    {
        Adapter::new(AdapterKind::Wait(Wait { yields_value: false }))
    }

    /// Runs the system every tick until its optional output is present; emits that output.
    pub fn output() -> (r: Adapter)
        ensures
            r == fresh(AdapterKind::Wait(Wait { yields_value: true })),
    {
        Adapter::new(AdapterKind::Wait(Wait { yields_value: true }))
    }
}

/// Runs the system once and emits its output.
pub fn once() -> (r: Adapter)
    ensures
        r == fresh(AdapterKind::Once),
{
    Adapter::new(AdapterKind::Once)
}

/// Emits unit on the `n`-th tick after installation (on the first when `n` is zero).
pub fn frames(n: usize) -> (r: Adapter)
    ensures
        r == fresh(AdapterKind::DelayFrame(n)),
{
    Adapter::new(AdapterKind::DelayFrame(n))
}

/// Emits unit once `nanos` nanoseconds of tick deltas have accumulated.
pub fn timer(nanos: u128) -> (r: Adapter)
    ensures
        r == fresh(AdapterKind::DelayTime(nanos)),
{
    Adapter::new(AdapterKind::DelayTime(nanos))
}

/// Runs the system on `num` consecutive ticks, then emits unit.
pub fn times(num: usize) -> (r: Adapter)
    ensures
        r == fresh(AdapterKind::Repeat(Repeat { limit: Some(num) })),
{
    Adapter::new(AdapterKind::Repeat(Repeat { limit: Some(num) }))
}

/// Runs the system on every tick until its keep-alive token is dropped; never emits.
pub fn forever() -> (r: Adapter)
    ensures
        r == fresh(AdapterKind::Repeat(Repeat { limit: None })),
{
    Adapter::new(AdapterKind::Repeat(Repeat { limit: None }))
}

impl Adapter {
    /// A fresh adapter of the given kind.
    pub fn new(kind: AdapterKind) -> (r: Adapter)
        ensures
            r == fresh(kind),
            wf(r),
    {
        Adapter {
            kind,
            frames_seen: 0,
            elapsed: 0,
            runs: 0,
            initialized: false,
            awaiting: false,
            done: false,
        }
    }

    /// Whether the adapter reached a terminal decision.
    pub fn is_done(&self) -> (r: bool)
        ensures
            r == self.done,
    {
        self.done
    }

    /// Whether a run was asked for and its result is still to be observed.
    pub fn is_awaiting(&self) -> (r: bool)
        ensures
            r == self.awaiting,
    {
        self.awaiting
    }

    /// Starts a tick; see `poll_spec`.
    pub fn poll(&mut self, alive: bool, delta: u128) -> (r: Step)
        requires
            !old(self).awaiting,
        ensures
            (*final(self), r) == poll_spec(*old(self), alive, delta as nat),
            wf(*old(self)) ==> wf(*final(self)),
    {
        if self.done || !alive {
            self.awaiting = false;
            self.done = true;
            return Step::Evict;
        }
        match self.kind {
            AdapterKind::DelayFrame(n) => {
                if self.frames_seen >= n || n - self.frames_seen <= 1 {
                    self.frames_seen = n;
                    self.done = true;
                    Step::Finish
                } else {
                    self.frames_seen = self.frames_seen + 1;
                    Step::Wait
                }
            },
            AdapterKind::DelayTime(d) => {
                if self.elapsed >= d || delta >= d - self.elapsed {
                    self.elapsed = d;
                    self.done = true;
                    Step::Finish
                } else {
                    self.elapsed = self.elapsed + delta;
                    Step::Wait
                }
            },
            AdapterKind::Repeat(Repeat { limit: Some(k) }) if self.runs >= k => {
                self.done = true;
                Step::Finish
            },
            _ => {
                let initialize = !self.initialized;
                self.initialized = true;
                self.awaiting = true;
                Step::Run { initialize }
            },
        }
    }

    /// Ends a tick on which the system ran; see `observe_spec`.
    pub fn observe(&mut self, ready: bool) -> (r: bool)
        requires
            old(self).awaiting,
        ensures
            (*final(self), r) == observe_spec(*old(self), ready),
            wf(*old(self)) ==> wf(*final(self)),
    {
        match self.kind {
            AdapterKind::Once => {
                self.awaiting = false;
                self.done = true;
                true
            },
            AdapterKind::Wait(_) => {
                self.awaiting = false;
                if ready {
                    self.done = true;
                }
                ready
            },
            AdapterKind::Repeat(Repeat { limit: Some(k) }) => {
                self.awaiting = false;
                if self.runs >= k || k - self.runs <= 1 {
                    self.runs = k;
                    self.done = true;
                    true
                } else {
                    self.runs = self.runs + 1;
                    false
                }
            },
            _ => {
                self.awaiting = false;
                false
            },
        }
    }
}

} // verus!
