use bevy_async_system::adapter::{forever, frames, once, timer, times, Adapter, AdapterKind, Repeat, Step, Wait};

fn tick(a: &mut Adapter, alive: bool, delta: u128, ready: bool) -> (Step, bool) {
    let step = a.poll(alive, delta);
    let finished = match step {
        Step::Run { .. } => a.observe(ready),
        Step::Finish => true,
        _ => false,
    };
    (step, finished)
}

#[test]
fn delay_frames_sends_on_nth_tick_only() {
    let mut a = frames(3);
    assert_eq!(a.poll(true, 0), Step::Wait);
    assert_eq!(a.poll(true, 0), Step::Wait);
    assert_eq!(a.poll(true, 0), Step::Finish);
    assert!(a.is_done());
    for _ in 0..100 {
        assert_eq!(a.poll(true, 0), Step::Evict);
    }
}

#[test]
fn delay_zero_frames_sends_on_first_tick() {
    let mut a = frames(0);
    assert_eq!(a.poll(true, 0), Step::Finish);
    assert_eq!(a.poll(true, 0), Step::Evict);
}

#[test]
fn delay_time_waits_for_accumulated_time() {
    let mut a = timer(10);
    assert_eq!(a.poll(true, 4), Step::Wait);
    assert_eq!(a.elapsed, 4);
    assert_eq!(a.poll(true, 4), Step::Wait);
    assert_eq!(a.elapsed, 8);
    assert_eq!(a.poll(true, 4), Step::Finish);
    assert_eq!(a.elapsed, 10);
    assert_eq!(a.poll(true, 4), Step::Evict);
}

#[test]
fn delay_time_exact_boundary_and_zero() {
    let mut a = timer(10);
    assert_eq!(a.poll(true, 9), Step::Wait);
    assert_eq!(a.poll(true, 1), Step::Finish);
    let mut z = timer(0);
    assert_eq!(z.poll(true, 0), Step::Finish);
    let mut big = timer(u128::MAX);
    assert_eq!(big.poll(true, u128::MAX - 1), Step::Wait);
    assert_eq!(big.poll(true, u128::MAX), Step::Finish);
}

#[test]
fn until_runs_each_tick_until_true() {
    let mut a = Wait::until();
    assert_eq!(tick(&mut a, true, 0, false), (Step::Run { initialize: true }, false));
    assert_eq!(tick(&mut a, true, 0, false), (Step::Run { initialize: false }, false));
    assert_eq!(tick(&mut a, true, 0, true), (Step::Run { initialize: false }, true));
    assert_eq!(tick(&mut a, true, 0, true), (Step::Evict, false));
    assert_eq!(a.kind, AdapterKind::Wait(Wait { yields_value: false }));
}

#[test]
fn output_adapter_waits_for_presence() {
    let mut a = Wait::output();
    assert_eq!(a.kind, AdapterKind::Wait(Wait { yields_value: true }));
    assert_eq!(tick(&mut a, true, 0, false), (Step::Run { initialize: true }, false));
    assert_eq!(tick(&mut a, true, 0, true), (Step::Run { initialize: false }, true));
    assert!(a.is_done());
}

#[test]
fn once_finishes_after_one_run_whatever_it_returns() {
    for ready in [false, true] {
        let mut a = once();
        assert_eq!(tick(&mut a, true, 0, ready), (Step::Run { initialize: true }, true));
        assert_eq!(tick(&mut a, true, 0, ready), (Step::Evict, false));
    }
}

#[test]
fn repeat_times_runs_k_times() {
    let mut a = times(3);
    let mut runs = 0;
    let mut finished_at = None;
    for i in 0..10 {
        let (step, fin) = tick(&mut a, true, 0, false);
        if let Step::Run { .. } = step {
            runs += 1;
        }
        if fin {
            assert!(finished_at.is_none());
            finished_at = Some(i);
        }
    }
    assert_eq!(runs, 3);
    assert_eq!(finished_at, Some(2));
    assert_eq!(a.runs, 3);
}

#[test]
fn repeat_zero_times_finishes_without_running() {
    let mut a = times(0);
    assert_eq!(a.poll(true, 0), Step::Finish);
    assert_eq!(a.runs, 0);
}

#[test]
fn repeat_forever_stops_when_token_dropped() {
    let mut a = forever();
    assert_eq!(a.kind, AdapterKind::Repeat(Repeat { limit: None }));
    for i in 0..50 {
        let (step, fin) = tick(&mut a, true, 0, true);
        assert_eq!(step, Step::Run { initialize: i == 0 });
        assert!(!fin);
    }
    assert_eq!(a.poll(false, 0), Step::Evict);
    for _ in 0..10 {
        assert_eq!(a.poll(true, 0), Step::Evict);
    }
}

#[test]
fn cancelled_adapter_never_runs_again() {
    let kinds = [once(), Wait::until(), frames(5), timer(7), times(4), forever()];
    for mut a in kinds {
        assert_eq!(a.poll(false, 3), Step::Evict);
        assert!(a.is_done());
        assert_eq!(a.poll(true, 3), Step::Evict);
    }
}

#[test]
fn new_adapter_is_fresh() {
    let a = Adapter::new(AdapterKind::DelayFrame(2));
    assert_eq!(a.frames_seen, 0);
    assert!(!a.is_done());
    assert!(!a.is_awaiting());
    let mut b = Wait::until();
    let _ = b.poll(true, 0);
    assert!(b.is_awaiting());
}
