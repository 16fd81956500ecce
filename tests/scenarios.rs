use std::collections::VecDeque;

use bevy_async_system::adapter::{frames, once, timer, Adapter, Step, Wait};
use bevy_async_system::driver::{FrameDriver, Runner};
use bevy_async_system::routines::Routines;
use bevy_async_system::AsyncSystemPlugin;

const PRE_UPDATE: u64 = 1;
const UPDATE: u64 = 2;

/// What a scheduled system does when it runs against the simulated world.
#[derive(Clone, Copy, Debug)]
enum Work {
    /// No system of its own (delays).
    Nothing,
    /// Sends the first event; its verdict is unit.
    SendEvent,
    /// Sets the test state to finished.
    SetState,
    /// Returns whether the frame count equals the value.
    FrameIs(u64),
    /// Panics once the frame count reaches the first value; otherwise returns
    /// whether it equals the second.
    PanicFrom(u64, u64),
    /// Always returns false.
    Never,
}

/// A routine body: the adapters it awaits in turn, each on its phase.
type Script = VecDeque<(u64, Adapter, Work)>;

/// A small host: the frame driver, the routines, and the world the systems touch.
struct Host {
    driver: FrameDriver<Work>,
    routines: Routines,
    scripts: Vec<(u64, Script)>,
    commands: Vec<(u64, Runner<Work>)>,
    frame_count: u64,
    delta: u128,
    events: usize,
    state_finished: bool,
    completed: Vec<u64>,
}

impl Host {
    fn new() -> Host {
        Host {
            driver: AsyncSystemPlugin.driver(),
            routines: Routines::new(),
            scripts: Vec::new(),
            commands: Vec::new(),
            frame_count: 0,
            delta: 0,
            events: 0,
            state_finished: false,
            completed: Vec::new(),
        }
    }

    /// Spawns a routine; it sends its first request at once.
    fn spawn(&mut self, script: Script) -> u64 {
        let id = self.routines.spawn().unwrap();
        self.scripts.push((id, script));
        self.resume(id);
        id
    }

    /// The routine's awaited adapter finished: it sends its next request, or completes.
    fn resume(&mut self, id: u64) {
        let script = &mut self.scripts.iter_mut().find(|(o, _)| *o == id).unwrap().1;
        match script.pop_front() {
            Some((phase, adapter, work)) => self.commands.push((phase, Runner { owner: id, adapter, payload: work })),
            None => {
                self.routines.retire(id);
                self.completed.push(id);
            }
        }
    }

    fn run_system(&mut self, work: Work) -> bool {
        match work {
            Work::Nothing => true,
            Work::SendEvent => {
                self.events += 1;
                true
            }
            Work::SetState => {
                self.state_finished = true;
                true
            }
            Work::FrameIs(n) => self.frame_count == n,
            Work::PanicFrom(from, n) => {
                if from <= self.frame_count {
                    panic!("must not be called");
                }
                self.frame_count == n
            }
            Work::Never => false,
        }
    }

    fn run_phase(&mut self, phase: u64) {
        let mut runners = self.driver.take_runners(phase);
        let mut finished = Vec::new();
        for r in runners.iter_mut() {
            if r.adapter.is_awaiting() {
                continue;
            }
            let alive = self.routines.is_live(r.owner);
            let done = match r.adapter.poll(alive, self.delta) {
                Step::Run { .. } => {
                    let ready = self.run_system(r.payload);
                    r.adapter.observe(ready)
                }
                Step::Finish => true,
                Step::Wait | Step::Evict => false,
            };
            if done {
                finished.push(r.owner);
            }
        }
        self.driver.requeue(phase, runners);
        for id in finished {
            self.resume(id);
        }
    }

    /// One frame: install what was requested, run the phases, advance the frame count.
    fn update(&mut self) {
        for (phase, runner) in std::mem::take(&mut self.commands) {
            self.driver.install(phase, runner);
        }
        self.run_phase(PRE_UPDATE);
        self.run_phase(UPDATE);
        self.frame_count += 1;
    }

    /// Whether events came since the last look.
    fn event_came(&mut self) -> bool {
        let came = self.events > 0;
        self.events = 0;
        came
    }
}

fn script(steps: Vec<(u64, Adapter, Work)>) -> Script {
    steps.into_iter().collect()
}

#[test]
fn delay_3frames() {
    let mut host = Host::new();
    host.spawn(script(vec![(UPDATE, frames(3), Work::Nothing), (UPDATE, once(), Work::SendEvent)]));
    host.update();
    assert!(!host.event_came());
    host.update();
    assert!(!host.event_came());
    host.update();
    assert!(!host.event_came());
    host.update();
    assert!(host.event_came());
    for _ in 0..100 {
        host.update();
        assert!(!host.event_came());
    }
}

#[test]
fn delay_frames() {
    let mut host = Host::new();
    host.spawn(script(vec![(UPDATE, frames(3), Work::Nothing), (UPDATE, once(), Work::SendEvent)]));
    host.update();
    host.update();
    host.update();
    host.update();
    assert!(host.event_came());
}

#[test]
fn delay_time() {
    let mut host = Host::new();
    host.spawn(script(vec![(UPDATE, timer(0), Work::Nothing), (UPDATE, once(), Work::SendEvent)]));
    // tick
    host.update();
    // send event
    host.update();
    assert!(host.event_came());
}

#[test]
fn delay_time_follows_accumulated_deltas() {
    let mut host = Host::new();
    host.delta = 4;
    host.spawn(script(vec![(UPDATE, timer(10), Work::Nothing), (UPDATE, once(), Work::SendEvent)]));
    host.update();
    host.update();
    assert!(!host.event_came());
    // 12 nanoseconds have passed: the delay fires, the event follows a frame later
    host.update();
    assert!(!host.event_came());
    host.update();
    assert!(host.event_came());
}

#[test]
fn set_state() {
    let mut host = Host::new();
    host.spawn(script(vec![(PRE_UPDATE, once(), Work::SetState)]));
    host.update();
    host.update();
    host.update();
    host.update();
    assert!(host.state_finished);
}

#[test]
fn send_event() {
    let mut host = Host::new();
    host.spawn(script(vec![(UPDATE, once(), Work::SendEvent)]));
    host.update();
    assert!(host.event_came());
}

#[test]
fn until() {
    let mut host = Host::new();
    host.spawn(script(vec![(UPDATE, Wait::until(), Work::FrameIs(2)), (UPDATE, once(), Work::SendEvent)]));
    host.update();
    host.update();
    host.update();
    // send event
    host.update();
    assert!(host.event_came());
}

#[test]
fn until_event_comes_right_after_predicate_holds() {
    let mut host = Host::new();
    host.spawn(script(vec![(UPDATE, Wait::until(), Work::FrameIs(2)), (UPDATE, once(), Work::SendEvent)]));
    // the predicate sees frame counts 0, 1, 2 on the first three updates
    for _ in 0..3 {
        host.update();
        assert!(!host.event_came());
    }
    host.update();
    assert!(host.event_came());
    for _ in 0..50 {
        host.update();
        assert!(!host.event_came());
    }
}

#[test]
fn never_again() {
    let mut host = Host::new();
    host.spawn(script(vec![(UPDATE, Wait::until(), Work::PanicFrom(2, 1)), (UPDATE, Wait::until(), Work::Never)]));
    for _ in 0..100 {
        host.update();
    }
}

#[test]
fn cancelling_one_routine_leaves_the_other() {
    let mut host = Host::new();
    let a = host.spawn(script(vec![(UPDATE, Wait::until(), Work::FrameIs(3)), (UPDATE, once(), Work::SendEvent)]));
    let b = host.spawn(script(vec![(UPDATE, Wait::until(), Work::FrameIs(3)), (UPDATE, once(), Work::SetState)]));
    host.update();
    // the first routine's handle is dropped before its adapter completes
    assert!(host.routines.retire(a));
    for _ in 0..10 {
        host.update();
    }
    assert!(!host.event_came());
    assert!(host.state_finished);
    assert_eq!(host.completed, vec![b]);
}

#[test]
fn cancelled_routine_stops_within_one_tick() {
    let mut host = Host::new();
    let a = host.spawn(script(vec![(UPDATE, Wait::until(), Work::Never)]));
    host.update();
    assert_eq!(host.driver.queues[0].runners.len(), 1);
    host.routines.retire(a);
    host.update();
    assert!(host.driver.queues.iter().all(|q| q.runners.is_empty()));
}
