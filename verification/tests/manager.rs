use fps_monitor::manager::{
    AttachOutcome, DetachOutcome, FpsManager, ProbeSymbol, SwitchStep, LIBGUI_PATH,
};

type Manager = FpsManager<u64>;
type Step = SwitchStep<u64, &'static str>;

fn record(pid: u32, ktime_ns: u64) -> Vec<u8> {
    let mut bytes = pid.to_le_bytes().to_vec();
    bytes.extend_from_slice(&[0; 4]);
    bytes.extend_from_slice(&ktime_ns.to_le_bytes());
    bytes
}

/// Switches to `pid` with a probe that attaches at once.
fn switch(manager: &mut Manager, pid: u32, link: u64) {
    let step: Step = manager.switch_pid(pid);
    let step: Step = match step {
        SwitchStep::Detach { pid, .. } => manager.detached(pid, DetachOutcome::Detached),
        other => other,
    };
    match step {
        SwitchStep::Attach { pid, symbol } => {
            let step: Step = manager.attached(pid, symbol, AttachOutcome::Linked(link));
            assert!(matches!(step, SwitchStep::Switched { .. }));
        }
        other => panic!("{:?}", other),
    }
}

#[test]
fn new_manager_has_nothing() {
    let manager = Manager::new();
    assert!(!manager.has_active_probe());
    assert_eq!(manager.latest_frametime(), None);
}

#[test]
fn symbols_have_their_exported_names() {
    assert_eq!(
        ProbeSymbol::Short.name(),
        "_ZN7android7Surface11queueBufferEONS_2spINS_13GraphicBufferEEEiPNS_24SurfaceQueueBufferOutputE"
    );
    assert_eq!(
        ProbeSymbol::Long.name(),
        "_ZN7android7Surface11queueBufferERKNS_2spINS_13GraphicBufferEEERKNS1_INS_5FenceEEEPNS_24SurfaceQueueBufferOutputE"
    );
    assert_eq!(LIBGUI_PATH, "/system/lib64/libgui.so");
}

#[test]
fn first_switch_attaches_under_the_short_symbol() {
    let mut manager = Manager::new();
    let step: Step = manager.switch_pid(10);
    assert!(matches!(step, SwitchStep::Attach { pid: 10, symbol: ProbeSymbol::Short }));
    assert!(!manager.has_active_probe());
    let step: Step = manager.attached(10, ProbeSymbol::Short, AttachOutcome::Linked(1));
    assert!(matches!(step, SwitchStep::Switched { pid: 10 }));
    assert!(manager.has_active_probe());
}

#[test]
fn switch_to_the_probed_process_does_nothing() {
    let mut manager = Manager::new();
    let step: Step = manager.switch_pid(0);
    assert!(matches!(step, SwitchStep::Unchanged));
    switch(&mut manager, 10, 1);
    let step: Step = manager.switch_pid(10);
    assert!(matches!(step, SwitchStep::Unchanged));
    let step: Step = manager.switch_pid(11);
    assert!(matches!(step, SwitchStep::Detach { link: 1, pid: 11 }));
}

#[test]
fn refused_short_symbol_falls_back_to_the_long_one() {
    let mut manager = Manager::new();
    let _: Step = manager.switch_pid(10);
    let step: Step = manager.attached(10, ProbeSymbol::Short, AttachOutcome::Refused("short"));
    assert!(matches!(step, SwitchStep::Attach { pid: 10, symbol: ProbeSymbol::Long }));
    let step: Step = manager.attached(10, ProbeSymbol::Long, AttachOutcome::Linked(3));
    assert!(matches!(step, SwitchStep::Switched { pid: 10 }));
    let step: Step = manager.switch_pid(11);
    assert!(matches!(step, SwitchStep::Detach { link: 3, pid: 11 }));
}

#[test]
fn switch_fails_with_the_error_of_the_long_symbol() {
    let mut manager = Manager::new();
    let _: Step = manager.switch_pid(10);
    let _: Step = manager.attached(10, ProbeSymbol::Short, AttachOutcome::Refused("short"));
    let step: Step = manager.attached(10, ProbeSymbol::Long, AttachOutcome::Refused("long"));
    assert!(matches!(step, SwitchStep::Failed { error: "long" }));
    assert!(!manager.has_active_probe());
}

#[test]
fn missing_program_fails_without_fallback() {
    let mut manager = Manager::new();
    let _: Step = manager.switch_pid(10);
    let step: Step = manager.attached(10, ProbeSymbol::Short, AttachOutcome::NoProgram("gone"));
    assert!(matches!(step, SwitchStep::Failed { error: "gone" }));
    let step: Step = manager.attached(10, ProbeSymbol::Long, AttachOutcome::NoProgram("gone"));
    assert!(matches!(step, SwitchStep::Failed { error: "gone" }));
}

#[test]
fn missing_program_stops_a_switch_at_the_detach() {
    let mut manager = Manager::new();
    switch(&mut manager, 10, 1);
    let _: Step = manager.switch_pid(20);
    let step: Step = manager.detached(20, DetachOutcome::NoProgram("gone"));
    assert!(matches!(step, SwitchStep::Failed { error: "gone" }));
    assert!(manager.has_active_probe());
    let step: Step = manager.switch_pid(20);
    assert!(matches!(step, SwitchStep::Attach { pid: 20, symbol: ProbeSymbol::Short }));
}

#[test]
fn probe_that_cannot_be_detached_does_not_stop_a_switch() {
    let mut manager = Manager::new();
    switch(&mut manager, 10, 1);
    let _: Step = manager.switch_pid(20);
    let step: Step = manager.detached(20, DetachOutcome::Refused);
    assert!(matches!(step, SwitchStep::Attach { pid: 20, symbol: ProbeSymbol::Short }));
}

#[test]
fn failed_switch_keeps_the_current_process_without_a_probe() {
    let mut manager = Manager::new();
    switch(&mut manager, 10, 1);
    manager.poll_frames(&vec![record(10, 0), record(10, 9_000_000)]);
    let _: Step = manager.switch_pid(20);
    let _: Step = manager.detached(20, DetachOutcome::Detached);
    let _: Step = manager.attached(20, ProbeSymbol::Short, AttachOutcome::Refused("a"));
    let _: Step = manager.attached(20, ProbeSymbol::Long, AttachOutcome::Refused("b"));
    assert!(manager.has_active_probe());
    assert_eq!(manager.latest_frametime(), Some(9_000_000));
    let step: Step = manager.switch_pid(20);
    assert!(matches!(step, SwitchStep::Attach { pid: 20, symbol: ProbeSymbol::Short }));
}

#[test]
fn switch_back_after_a_failed_switch_attaches_again() {
    let mut manager = Manager::new();
    switch(&mut manager, 10, 1);
    manager.poll_frames(&vec![record(10, 0), record(10, 9_000_000)]);
    let _: Step = manager.switch_pid(20);
    let _: Step = manager.detached(20, DetachOutcome::Detached);
    let _: Step = manager.attached(20, ProbeSymbol::Short, AttachOutcome::Refused("a"));
    let _: Step = manager.attached(20, ProbeSymbol::Long, AttachOutcome::Refused("b"));
    let step: Step = manager.switch_pid(10);
    assert!(matches!(step, SwitchStep::Attach { pid: 10, symbol: ProbeSymbol::Short }));
    let step: Step = manager.attached(10, ProbeSymbol::Short, AttachOutcome::Linked(2));
    assert!(matches!(step, SwitchStep::Switched { pid: 10 }));
    assert_eq!(manager.latest_frametime(), Some(9_000_000));
    let step: Step = manager.switch_pid(10);
    assert!(matches!(step, SwitchStep::Unchanged));
    let step: Step = manager.switch_pid(30);
    assert!(matches!(step, SwitchStep::Detach { link: 2, pid: 30 }));
}

#[test]
fn records_reach_their_process() {
    let mut manager = Manager::new();
    switch(&mut manager, 10, 1);
    switch(&mut manager, 20, 2);
    manager.poll_frames(&vec![
        record(10, 0),
        record(20, 1_000),
        record(10, 16_000_000),
        record(20, 8_001_000),
        record(10, 33_000_000),
    ]);
    assert_eq!(manager.latest_frametime(), Some(8_000_000));
    switch(&mut manager, 10, 3);
    assert_eq!(manager.latest_frametime(), None);
}

#[test]
fn statistics_are_dropped_with_the_switch_to_another_process() {
    let mut manager = Manager::new();
    switch(&mut manager, 10, 1);
    manager.poll_frames(&vec![record(10, 0), record(10, 5_000_000)]);
    switch(&mut manager, 20, 2);
    assert_eq!(manager.latest_frametime(), None);
    manager.poll_frames(&vec![record(10, 9_000_000)]);
    switch(&mut manager, 10, 3);
    assert_eq!(manager.latest_frametime(), None);
    manager.poll_frames(&vec![record(10, 11_000_000)]);
    assert_eq!(manager.latest_frametime(), None);
    manager.poll_frames(&vec![record(10, 18_000_000)]);
    assert_eq!(manager.latest_frametime(), Some(7_000_000));
}

#[test]
fn stray_records_are_dropped() {
    let mut manager = Manager::new();
    manager.poll_frames(&vec![record(10, 0), record(0, 0), record(0, 5_000_000)]);
    assert_eq!(manager.latest_frametime(), None);
    switch(&mut manager, 10, 1);
    manager.poll_frames(&vec![record(10, 5_000_000), record(99, 1), Vec::new(), vec![1, 2, 3]]);
    assert_eq!(manager.latest_frametime(), None);
    manager.dispatch(&record(10, 9_000_000)[..15]);
    assert_eq!(manager.latest_frametime(), None);
    manager.dispatch(&record(10, 9_000_000));
    assert_eq!(manager.latest_frametime(), Some(4_000_000));
}

#[test]
fn batches_add_up() {
    let records: Vec<Vec<u8>> = (0..10u64).map(|i| record(10, i * i * 1_000_000)).collect();
    let mut whole = Manager::new();
    switch(&mut whole, 10, 1);
    whole.poll_frames(&records);
    let mut parts = Manager::new();
    switch(&mut parts, 10, 1);
    parts.poll_frames(&records[..4].to_vec());
    parts.poll_frames(&Vec::new());
    parts.poll_frames(&records[4..].to_vec());
    assert_eq!(whole.latest_frametime(), Some(17_000_000));
    assert_eq!(parts.latest_frametime(), whole.latest_frametime());
}
