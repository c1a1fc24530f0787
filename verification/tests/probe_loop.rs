use fps_monitor::manager::{AttachOutcome, DetachOutcome, ProbeSymbol};
use fps_monitor::probe_loop::{Action, Event, LoopStep, Notice, ProbeLoop};

type Loop = ProbeLoop<u64>;
type Answer = Event<u64, &'static str>;
type Step = LoopStep<u64, &'static str>;

fn record(pid: u32, ktime_ns: u64) -> Vec<u8> {
    let mut bytes = pid.to_le_bytes().to_vec();
    bytes.extend_from_slice(&[0; 4]);
    bytes.extend_from_slice(&ktime_ns.to_le_bytes());
    bytes
}

fn step(state: &mut Loop, event: Answer) -> Step {
    assert!(state.awaits(&event));
    state.step(event)
}

/// A loop that probes process 10 and is about to look for a new process.
fn probing() -> Loop {
    let (mut state, action) = Loop::start(10);
    assert!(matches!(action, Action::Load));
    step(&mut state, Event::Loaded(Ok(())));
    step(&mut state, Event::Attached(AttachOutcome::Linked(1)));
    step(&mut state, Event::Registered);
    state
}

#[test]
fn starts_by_attaching_to_the_foreground_process() {
    let (mut state, action) = Loop::start(10);
    assert!(matches!(action, Action::Load));
    let next = step(&mut state, Event::Loaded(Ok(())));
    assert!(next.notice.is_none());
    assert!(matches!(next.action, Action::Attach { pid: 10, symbol: ProbeSymbol::Short }));
    let next = step(&mut state, Event::Attached(AttachOutcome::Linked(1)));
    assert!(matches!(next.notice, Some(Notice::Attached { pid: 10 })));
    assert!(matches!(next.action, Action::Register));
    let next = step(&mut state, Event::Registered);
    assert!(matches!(next.action, Action::CheckPid));
}

#[test]
fn starts_without_a_foreground_process() {
    for initial in [0, -1] {
        let (mut state, _) = Loop::start(initial);
        let next = step(&mut state, Event::Loaded(Ok(())));
        assert!(matches!(next.notice, Some(Notice::NoInitialProcess)));
        assert!(matches!(next.action, Action::Register));
        let next = step(&mut state, Event::Registered);
        assert!(next.notice.is_none());
        assert!(matches!(next.action, Action::CheckPid));
        let next = step(&mut state, Event::PidChecked(None));
        assert!(matches!(next.action, Action::Poll { timeout_ms: 500 }));
    }
}

#[test]
fn failed_load_stops_the_loop() {
    let (mut state, _) = Loop::start(10);
    let next = step(&mut state, Event::Loaded(Err("no program")));
    assert!(matches!(next.notice, Some(Notice::InitialAttachFailed { error: "no program" })));
    assert!(matches!(next.action, Action::Stop));
    assert!(!state.awaits::<&str>(&Event::PidChecked(None)));
    assert!(!state.awaits::<&str>(&Event::Loaded(Ok(()))));
}

#[test]
fn failed_attach_at_start_up_is_survived() {
    let (mut state, _) = Loop::start(10);
    step(&mut state, Event::Loaded(Ok(())));
    let next = step(&mut state, Event::Attached(AttachOutcome::Refused("short")));
    assert!(next.notice.is_none());
    assert!(matches!(next.action, Action::Attach { pid: 10, symbol: ProbeSymbol::Long }));
    let next = step(&mut state, Event::Attached(AttachOutcome::Refused("long")));
    assert!(matches!(next.notice, Some(Notice::InitialAttachFailed { error: "long" })));
    assert!(matches!(next.action, Action::Register));
    let next = step(&mut state, Event::Registered);
    assert!(matches!(next.action, Action::CheckPid));
    let next = step(&mut state, Event::PidChecked(Some(10)));
    assert!(matches!(next.action, Action::Attach { pid: 10, symbol: ProbeSymbol::Short }));
    let next = step(&mut state, Event::Attached(AttachOutcome::Linked(1)));
    assert!(matches!(next.notice, Some(Notice::Attached { pid: 10 })));
    assert!(matches!(next.action, Action::Poll { timeout_ms: 100 }));
}

#[test]
fn polls_shortly_while_probing() {
    let mut state = probing();
    let next = step(&mut state, Event::PidChecked(None));
    assert!(matches!(next.action, Action::Poll { timeout_ms: 100 }));
}

#[test]
fn published_process_is_switched_to() {
    let mut state = probing();
    let next = step(&mut state, Event::PidChecked(Some(20)));
    assert!(matches!(next.action, Action::Detach { link: 1 }));
    let next = step(&mut state, Event::Detached(DetachOutcome::Refused));
    assert!(matches!(next.action, Action::Attach { pid: 20, symbol: ProbeSymbol::Short }));
    let next = step(&mut state, Event::Attached(AttachOutcome::Linked(2)));
    assert!(matches!(next.notice, Some(Notice::Attached { pid: 20 })));
    assert!(matches!(next.action, Action::Poll { timeout_ms: 100 }));
}

#[test]
fn same_process_goes_straight_to_polling() {
    let mut state = probing();
    let next = step(&mut state, Event::PidChecked(Some(10)));
    assert!(next.notice.is_none());
    assert!(matches!(next.action, Action::Poll { timeout_ms: 100 }));
}

#[test]
fn failed_switch_is_reported_and_survived() {
    let mut state = probing();
    step(&mut state, Event::PidChecked(Some(20)));
    let next = step(&mut state, Event::Detached(DetachOutcome::NoProgram("gone")));
    assert!(matches!(next.notice, Some(Notice::SwitchFailed { error: "gone" })));
    assert!(matches!(next.action, Action::Poll { timeout_ms: 100 }));
    step(&mut state, Event::Polled(true));
    step(&mut state, Event::Drained(Vec::new()));
    step(&mut state, Event::PidChecked(Some(30)));
    step(&mut state, Event::Attached(AttachOutcome::Refused("short")));
    let next = step(&mut state, Event::Attached(AttachOutcome::NoProgram("later")));
    assert!(matches!(next.notice, Some(Notice::SwitchFailed { error: "later" })));
    assert!(matches!(next.action, Action::Poll { timeout_ms: 100 }));
}

#[test]
fn zero_cannot_replace_a_process() {
    let state = probing();
    assert!(!state.awaits::<&str>(&Event::PidChecked(Some(0))));
    assert!(state.awaits::<&str>(&Event::PidChecked(Some(1))));
}

#[test]
fn zero_is_no_change_without_a_process() {
    let (mut state, _) = Loop::start(0);
    step(&mut state, Event::Loaded(Ok(())));
    step(&mut state, Event::Registered);
    let next = step(&mut state, Event::PidChecked(Some(0)));
    assert!(matches!(next.action, Action::Poll { timeout_ms: 500 }));
}

#[test]
fn interrupted_poll_rests_and_starts_over() {
    let mut state = probing();
    step(&mut state, Event::PidChecked(None));
    let next = step(&mut state, Event::Polled(false));
    assert!(matches!(next.action, Action::Sleep { duration_ms: 10 }));
    let next = step(&mut state, Event::Slept);
    assert!(matches!(next.action, Action::CheckPid));
}

#[test]
fn newest_frametime_is_sent_again_until_it_changes() {
    let mut state = probing();
    step(&mut state, Event::PidChecked(None));
    let next = step(&mut state, Event::Polled(true));
    assert!(matches!(next.action, Action::Drain));
    let records = vec![record(10, 0), record(10, 16_000_000), record(10, 24_000_000)];
    let next = step(&mut state, Event::Drained(records));
    assert!(matches!(next.action, Action::Send { frame_delta_ns: 8_000_000 }));
    let next = step(&mut state, Event::Sent(true));
    assert!(matches!(next.action, Action::CheckPid));
    step(&mut state, Event::PidChecked(None));
    step(&mut state, Event::Polled(true));
    let next = step(&mut state, Event::Drained(Vec::new()));
    assert!(matches!(next.action, Action::Send { frame_delta_ns: 8_000_000 }));
    step(&mut state, Event::Sent(true));
    step(&mut state, Event::PidChecked(None));
    step(&mut state, Event::Polled(true));
    let next = step(&mut state, Event::Drained(vec![record(10, 35_000_000)]));
    assert!(matches!(next.action, Action::Send { frame_delta_ns: 11_000_000 }));
}

#[test]
fn nothing_is_sent_without_a_frametime() {
    let mut state = probing();
    step(&mut state, Event::PidChecked(None));
    step(&mut state, Event::Polled(true));
    let next = step(&mut state, Event::Drained(vec![record(10, 0), record(77, 5_000_000)]));
    assert!(matches!(next.action, Action::CheckPid));
}

#[test]
fn lost_receiver_stops_the_loop() {
    let mut state = probing();
    step(&mut state, Event::PidChecked(None));
    step(&mut state, Event::Polled(true));
    step(&mut state, Event::Drained(vec![record(10, 0), record(10, 2_000_000)]));
    let next = step(&mut state, Event::Sent(false));
    assert!(next.notice.is_none());
    assert!(matches!(next.action, Action::Stop));
}

#[test]
fn ring_buffer_is_registered_once() {
    let mut state = probing();
    for pid in [20, 30, 10, 20] {
        let mut next = step(&mut state, Event::PidChecked(Some(pid)));
        assert!(matches!(next.action, Action::Detach { .. }));
        next = step(&mut state, Event::Detached(DetachOutcome::Detached));
        assert!(matches!(next.action, Action::Attach { .. }));
        next = step(&mut state, Event::Attached(AttachOutcome::Linked(9)));
        assert!(matches!(next.action, Action::Poll { .. }));
        step(&mut state, Event::Polled(true));
        next = step(&mut state, Event::Drained(Vec::new()));
        assert!(matches!(next.action, Action::CheckPid));
    }
}

#[test]
fn ring_buffer_is_registered_once_without_a_process_at_start_up() {
    let (mut state, _) = Loop::start(0);
    let next = step(&mut state, Event::Loaded(Ok(())));
    assert!(matches!(next.action, Action::Register));
    step(&mut state, Event::Registered);
    let next = step(&mut state, Event::PidChecked(Some(10)));
    assert!(matches!(next.action, Action::Attach { pid: 10, symbol: ProbeSymbol::Short }));
    let next = step(&mut state, Event::Attached(AttachOutcome::Linked(1)));
    assert!(matches!(next.notice, Some(Notice::Attached { pid: 10 })));
    assert!(matches!(next.action, Action::Poll { timeout_ms: 100 }));
}

#[test]
fn only_the_answer_to_the_last_action_is_awaited() {
    let (state, _) = Loop::start(10);
    assert!(state.awaits::<&str>(&Event::Loaded(Ok(()))));
    assert!(!state.awaits::<&str>(&Event::Registered));
    assert!(!state.awaits::<&str>(&Event::Slept));
    assert!(!state.awaits::<&str>(&Event::Polled(true)));
    assert!(!state.awaits::<&str>(&Event::Drained(Vec::new())));
    assert!(!state.awaits::<&str>(&Event::Sent(true)));
    assert!(!state.awaits::<&str>(&Event::Attached(AttachOutcome::Linked(1))));
    assert!(!state.awaits::<&str>(&Event::Detached(DetachOutcome::Detached)));
}

#[test]
fn process_id_is_taken_bit_by_bit() {
    let mut state = probing();
    step(&mut state, Event::PidChecked(Some(-1)));
    let next = step(&mut state, Event::Detached(DetachOutcome::Detached));
    assert!(matches!(next.action, Action::Attach { pid: u32::MAX, symbol: ProbeSymbol::Short }));
}

#[test]
fn reported_frametime_is_measured_since_the_switch() {
    let mut state = probing();
    step(&mut state, Event::PidChecked(None));
    step(&mut state, Event::Polled(true));
    step(&mut state, Event::Drained(vec![record(10, 0), record(10, 4_000_000)]));
    step(&mut state, Event::Sent(true));
    for (pid, link) in [(20, 2), (10, 3)] {
        step(&mut state, Event::PidChecked(Some(pid)));
        step(&mut state, Event::Detached(DetachOutcome::Detached));
        step(&mut state, Event::Attached(AttachOutcome::Linked(link)));
        step(&mut state, Event::Polled(true));
        let next = step(&mut state, Event::Drained(vec![record(20, 1), record(10, 11_000_000)]));
        assert!(matches!(next.action, Action::CheckPid));
    }
    step(&mut state, Event::PidChecked(None));
    step(&mut state, Event::Polled(true));
    let next = step(&mut state, Event::Drained(vec![record(20, 2), record(10, 14_000_000)]));
    assert!(matches!(next.action, Action::Send { frame_delta_ns: 3_000_000 }));
}

#[test]
fn process_that_lost_its_probe_is_attached_again() {
    let mut state = probing();
    step(&mut state, Event::PidChecked(Some(20)));
    step(&mut state, Event::Detached(DetachOutcome::Detached));
    step(&mut state, Event::Attached(AttachOutcome::Refused("short")));
    step(&mut state, Event::Attached(AttachOutcome::Refused("long")));
    step(&mut state, Event::Polled(true));
    step(&mut state, Event::Drained(Vec::new()));
    let next = step(&mut state, Event::PidChecked(Some(10)));
    assert!(matches!(next.action, Action::Attach { pid: 10, symbol: ProbeSymbol::Short }));
    let next = step(&mut state, Event::Attached(AttachOutcome::Linked(4)));
    assert!(matches!(next.notice, Some(Notice::Attached { pid: 10 })));
    assert!(matches!(next.action, Action::Poll { timeout_ms: 100 }));
}
