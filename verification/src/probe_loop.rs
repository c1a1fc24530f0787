//! The loop that follows the foreground process and reports its frame times.
//!
//! The loop itself does no outside work. [`ProbeLoop::start`] and
//! [`ProbeLoop::step`] say which action has to be performed next; the caller
//! performs it and hands the result to [`ProbeLoop::step`] as an event, until
//! the action is [`Action::Stop`].

use vstd::prelude::*;

use crate::manager::{
    AttachOutcome, DetachOutcome, FpsManager, ManagerModel, ProbeSymbol, SwitchStep,
};
use crate::probe::ProbeModel;

verus! {

/// How long, in milliseconds, to wait for records while a process is probed.
pub const ACTIVE_POLL_MS: u64 = 100;

/// How long, in milliseconds, to wait for records while none is.
pub const IDLE_POLL_MS: u64 = 500;

/// How long, in milliseconds, to rest after waiting was interrupted.
pub const RETRY_SLEEP_MS: u64 = 10;

/// What the caller has to do next.
#[derive(Debug)]
pub enum Action<L> {
    /// Load the probe program; answered by [`Event::Loaded`].
    Load,
    /// Detach a probe; answered by [`Event::Detached`].
    Detach { link: L },
    /// Attach a probe to a process; answered by [`Event::Attached`].
    Attach { pid: u32, symbol: ProbeSymbol },
    /// Register the ring buffer for polling; answered by [`Event::Registered`].
    Register,
    /// Look for a newly published process; answered by [`Event::PidChecked`].
    CheckPid,
    /// Wait for records; answered by [`Event::Polled`].
    Poll { timeout_ms: u64 },
    /// Rest; answered by [`Event::Slept`].
    Sleep { duration_ms: u64 },
    /// Take all records out of the ring buffer; answered by [`Event::Drained`].
    Drain,
    /// Send a frame update; answered by [`Event::Sent`].
    Send { frame_delta_ns: u64 },
    /// Leave the loop.
    Stop,
}

/// What came of an action.
#[derive(Debug)]
pub enum Event<L, E> {
    /// The probe program was loaded, or not.
    Loaded(Result<(), E>),
    /// A probe was detached, or not.
    Detached(DetachOutcome<E>),
    /// A probe was attached, or not.
    Attached(AttachOutcome<L, E>),
    /// The ring buffer is registered for polling.
    Registered,
    /// The process that was published since the last look, if there is one.
    PidChecked(Option<i32>),
    /// Whether the wait ended in order, with records or at the time limit.
    Polled(bool),
    /// The rest is over.
    Slept,
    /// The records that were in the ring buffer, oldest first.
    Drained(Vec<Vec<u8>>),
    /// Whether there still was a receiver.
    Sent(bool),
}

/// Something worth telling the user.
#[derive(Debug)]
pub enum Notice<E> {
    /// There is no foreground process to start with.
    NoInitialProcess,
    /// The program could not be loaded, or the probe at start-up not be
    /// attached.
    InitialAttachFailed { error: E },
    /// A probe is attached.
    Attached { pid: u32 },
    /// The probe could not be moved to another process.
    SwitchFailed { error: E },
}

/// The next action, and a notice that goes with it.
#[derive(Debug)]
pub struct LoopStep<L, E> {
    pub notice: Option<Notice<E>>,
    pub action: Action<L>,
}

/// Which action the loop is waiting for. `initial` tells the switch at start-up,
/// to the process that is in the foreground then, from later ones.
#[derive(Clone, Copy, Debug, PartialEq, Eq, Structural)]
pub enum Phase {
    Loading,
    Detaching { initial: bool, pid: u32 },
    Attaching { initial: bool, pid: u32, symbol: ProbeSymbol },
    Registering,
    CheckingPid,
    Polling,
    Sleeping,
    Draining,
    Sending,
    Stopped,
}

/// What the state of the loop amounts to.
#[verifier::ext_equal]
#[verifier::reject_recursive_types(L)]
pub struct LoopModel<L> {
    pub manager: ManagerModel<L>,
    pub initial_pid: i32,
    pub phase: Phase,
}

impl<L> LoopModel<L> {
    /// The loop before the program is loaded.
    pub open spec fn initial(initial_pid: i32) -> Self {
        LoopModel { manager: ManagerModel::empty(), initial_pid, phase: Phase::Loading }
    }

    /// In the middle of a switch to a process no probe is attached, and the
    /// process is a real one. There is no current one during the switch at
    /// start-up.
    pub open spec fn mid_switch(self, initial: bool, pid: u32) -> bool {
        &&& self.manager.unlinked()
        &&& pid > 0
        &&& initial ==> !self.manager.has_active_probe()
    }

    /// The book-keeping is in order, nothing is probed before the program is
    /// loaded, and no two probes overlap in a switch.
    pub open spec fn wf(self) -> bool {
        &&& self.manager.wf()
        &&& match self.phase {
            Phase::Loading => self.manager == ManagerModel::<L>::empty(),
            Phase::Detaching { initial, pid } => self.mid_switch(initial, pid),
            Phase::Attaching { initial, pid, symbol } => self.mid_switch(initial, pid),
            _ => true,
        }
    }

    /// Whether an event answers the action that the loop is waiting for. A
    /// process id of zero cannot take the place of a real one.
    pub open spec fn awaits<E>(self, event: Event<L, E>) -> bool {
        match event {
            Event::Loaded(_) => self.phase is Loading,
            Event::Detached(_) => self.phase is Detaching,
            Event::Attached(_) => self.phase is Attaching,
            Event::Registered => self.phase is Registering,
            Event::PidChecked(Some(pid)) => self.phase is CheckingPid && (pid != 0
                || !self.manager.has_active_probe()),
            Event::PidChecked(None) => self.phase is CheckingPid,
            Event::Polled(_) => self.phase is Polling,
            Event::Slept => self.phase is Sleeping,
            Event::Drained(_) => self.phase is Draining,
            Event::Sent(_) => self.phase is Sending,
        }
    }

    /// Goes on in another phase, with the action that belongs to it.
    pub open spec fn go<E>(
        self,
        phase: Phase,
        notice: Option<Notice<E>>,
        action: Action<L>,
    ) -> (Self, LoopStep<L, E>) {
        (LoopModel { phase, ..self }, LoopStep { notice, action })
    }

    /// Begins a round by looking for a new process.
    pub open spec fn check_pid<E>(self) -> (Self, LoopStep<L, E>) {
        self.go(Phase::CheckingPid, None, Action::CheckPid)
    }

    /// Waits for records, longer while nothing is probed.
    pub open spec fn poll<E>(self, notice: Option<Notice<E>>) -> (Self, LoopStep<L, E>) {
        self.go(
            Phase::Polling,
            notice,
            Action::Poll {
                timeout_ms: if self.manager.has_active_probe() {
                    ACTIVE_POLL_MS
                } else {
                    IDLE_POLL_MS
                },
            },
        )
    }

    /// Goes on once a switch is over, or there is none to make. At start-up the
    /// ring buffer is registered and the rounds begin; later on the round goes
    /// on.
    pub open spec fn settled<E>(
        self,
        initial: bool,
        notice: Option<Notice<E>>,
    ) -> (Self, LoopStep<L, E>) {
        if !initial {
            self.poll(notice)
        } else {
            self.go(Phase::Registering, notice, Action::Register)
        }
    }

    /// Goes on with a switch.
    pub open spec fn switching<E>(
        self,
        initial: bool,
        manager: ManagerModel<L>,
        step: SwitchStep<L, E>,
    ) -> (Self, LoopStep<L, E>) {
        let next = LoopModel { manager, ..self };
        match step {
            SwitchStep::Unchanged => next.settled(initial, None),
            SwitchStep::Detach { link, pid } => next.go(
                Phase::Detaching { initial, pid },
                None,
                Action::Detach { link },
            ),
            SwitchStep::Attach { pid, symbol } => next.go(
                Phase::Attaching { initial, pid, symbol },
                None,
                Action::Attach { pid, symbol },
            ),
            SwitchStep::Switched { pid } => next.settled(initial, Some(Notice::Attached { pid })),
            SwitchStep::Failed { error } => next.settled(
                initial,
                if initial {
                    Some(Notice::InitialAttachFailed { error })
                } else {
                    Some(Notice::SwitchFailed { error })
                },
            ),
        }
    }

    /// Starts to switch to a process.
    pub open spec fn begin_switch<E>(self, initial: bool, new_pid: u32) -> (
        Self,
        LoopStep<L, E>,
    ) {
        let (manager, step) = self.manager.switch_pid::<E>(new_pid);
        self.switching(initial, manager, step)
    }

    /// What follows an event.
    pub open spec fn next<E>(self, event: Event<L, E>) -> (Self, LoopStep<L, E>) {
        match event {
            Event::Loaded(Err(error)) => self.go(
                Phase::Stopped,
                Some(Notice::InitialAttachFailed { error }),
                Action::Stop,
            ),
            Event::Loaded(Ok(_)) => if self.initial_pid > 0 {
                self.begin_switch(true, self.initial_pid as u32)
            } else {
                self.settled(true, Some(Notice::NoInitialProcess))
            },
            Event::Detached(outcome) => match self.phase {
                Phase::Detaching { initial, pid } => self.switching(
                    initial,
                    self.manager,
                    self.manager.detached(pid, outcome),
                ),
                _ => arbitrary(),
            },
            Event::Attached(outcome) => match self.phase {
                Phase::Attaching { initial, pid, symbol } => {
                    let (manager, step) = self.manager.attached(pid, symbol, outcome);
                    self.switching(initial, manager, step)
                },
                _ => arbitrary(),
            },
            Event::Registered => self.check_pid(),
            Event::PidChecked(Some(pid)) => self.begin_switch(false, pid as u32),
            Event::PidChecked(None) => self.poll(None),
            Event::Polled(true) => self.go(Phase::Draining, None, Action::Drain),
            Event::Polled(false) => self.go(
                Phase::Sleeping,
                None,
                Action::Sleep { duration_ms: RETRY_SLEEP_MS },
            ),
            Event::Slept => self.check_pid(),
            Event::Drained(records) => {
                let next = LoopModel {
                    manager: self.manager.poll_frames(crate::manager::record_bytes(records@)),
                    ..self
                };
                match next.manager.latest() {
                    Some(frame_delta_ns) => next.go(
                        Phase::Sending,
                        None,
                        Action::Send { frame_delta_ns },
                    ),
                    None => next.check_pid(),
                }
            },
            Event::Sent(true) => self.check_pid(),
            Event::Sent(false) => self.go(Phase::Stopped, None, Action::Stop),
        }
    }
}

/// The loop that follows the foreground process and reports its frame times.
#[verifier::reject_recursive_types(L)]
pub struct ProbeLoop<L> {
    manager: FpsManager<L>,
    initial_pid: i32,
    phase: Phase,
}

impl<L> View for ProbeLoop<L> {
    type V = LoopModel<L>;

    closed spec fn view(&self) -> LoopModel<L> {
        LoopModel { manager: self.manager@, initial_pid: self.initial_pid, phase: self.phase }
    }
}

impl<L> ProbeLoop<L> {
    pub open spec fn wf(&self) -> bool {
        self@.wf()
    }

    /// Starts the loop with the process that is in the foreground; not positive
    /// if there is none.
    pub fn start(initial_pid: i32) -> (started: (Self, Action<L>))
        ensures
            started.0.wf(),
            started.0@ == LoopModel::<L>::initial(initial_pid),
            started.1 == Action::<L>::Load,
    {
        let start = ProbeLoop { manager: FpsManager::new(), initial_pid, phase: Phase::Loading };
        (start, Action::Load)
    }

    /// Whether an event answers the action that was asked for last.
    pub fn awaits<E>(&self, event: &Event<L, E>) -> (awaited: bool)
        ensures
            awaited == self@.awaits(*event),
    {
        match event {
            Event::Loaded(_) => matches!(self.phase, Phase::Loading),
            Event::Detached(_) => matches!(self.phase, Phase::Detaching { .. }),
            Event::Attached(_) => matches!(self.phase, Phase::Attaching { .. }),
            Event::Registered => matches!(self.phase, Phase::Registering),
            Event::PidChecked(Some(pid)) => matches!(self.phase, Phase::CheckingPid) && (*pid != 0
                || !self.manager.has_active_probe()),
            Event::PidChecked(None) => matches!(self.phase, Phase::CheckingPid),
            Event::Polled(_) => matches!(self.phase, Phase::Polling),
            Event::Slept => matches!(self.phase, Phase::Sleeping),
            Event::Drained(_) => matches!(self.phase, Phase::Draining),
            Event::Sent(_) => matches!(self.phase, Phase::Sending),
        }
    }

    /// Takes in what came of the last action and says what to do next.
    pub fn step<E>(&mut self, event: Event<L, E>) -> (step: LoopStep<L, E>)
        requires
            old(self).wf(),
            old(self)@.awaits(event),
        ensures
            final(self).wf(),
            (final(self)@, step) == old(self)@.next(event),
    {
        match event {
            Event::Loaded(Err(error)) => {
                self.go(
                    Phase::Stopped,
                    Some(Notice::InitialAttachFailed { error }),
                    Action::Stop,
                )
            },
            Event::Loaded(Ok(_)) => {
                if self.initial_pid > 0 {
                    self.begin_switch(true, self.initial_pid as u32)
                } else {
                    self.settled(true, Some(Notice::NoInitialProcess))
                }
            },
            Event::Detached(outcome) => match self.phase {
                Phase::Detaching { initial, pid } => {
                    let step = self.manager.detached(pid, outcome);
                    self.switching(initial, step)
                },
                _ => vstd::pervasive::unreached(),
            },
            Event::Attached(outcome) => match self.phase {
                Phase::Attaching { initial, pid, symbol } => {
                    let step = self.manager.attached(pid, symbol, outcome);
                    self.switching(initial, step)
                },
                _ => vstd::pervasive::unreached(),
            },
            Event::Registered => self.check_pid(),
            Event::PidChecked(Some(pid)) => {
                assert(pid != 0 ==> (pid as u32) != 0) by (bit_vector);
                self.begin_switch(false, pid as u32)
            },
            Event::PidChecked(None) => self.poll(None),
            Event::Polled(true) => self.go(Phase::Draining, None, Action::Drain),
            Event::Polled(false) => {
                self.go(Phase::Sleeping, None, Action::Sleep { duration_ms: RETRY_SLEEP_MS })
            },
            Event::Slept => self.check_pid(),
            Event::Drained(records) => {
                self.manager.poll_frames(&records);
                match self.manager.latest_frametime() {
                    Some(frame_delta_ns) => {
                        self.go(Phase::Sending, None, Action::Send { frame_delta_ns })
                    },
                    None => self.check_pid(),
                }
            },
            Event::Sent(true) => self.check_pid(),
            Event::Sent(false) => self.go(Phase::Stopped, None, Action::Stop),
        }
    }

    fn go<E>(&mut self, phase: Phase, notice: Option<Notice<E>>, action: Action<L>) -> (step:
        LoopStep<L, E>)
        ensures
            (final(self)@, step) == old(self)@.go(phase, notice, action),
    {
        self.phase = phase;
        LoopStep { notice, action }
    }

    fn check_pid<E>(&mut self) -> (step: LoopStep<L, E>)
        ensures
            (final(self)@, step) == old(self)@.check_pid::<E>(),
    {
        self.go(Phase::CheckingPid, None, Action::CheckPid)
    }

    fn poll<E>(&mut self, notice: Option<Notice<E>>) -> (step: LoopStep<L, E>)
        ensures
            (final(self)@, step) == old(self)@.poll(notice),
    {
        let timeout_ms: u64 = if self.manager.has_active_probe() {
            ACTIVE_POLL_MS
        } else {
            IDLE_POLL_MS
        };
        self.go(Phase::Polling, notice, Action::Poll { timeout_ms })
    }

    fn settled<E>(&mut self, initial: bool, notice: Option<Notice<E>>) -> (step: LoopStep<L, E>)
        ensures
            (final(self)@, step) == old(self)@.settled(initial, notice),
    {
        if !initial {
            self.poll(notice)
        } else {
            self.go(Phase::Registering, notice, Action::Register)
        }
    }

    fn switching<E>(&mut self, initial: bool, switch: SwitchStep<L, E>) -> (step: LoopStep<L, E>)
        ensures
            (final(self)@, step) == old(self)@.switching(initial, old(self)@.manager, switch),
    {
        match switch {
            SwitchStep::Unchanged => self.settled(initial, None),
            SwitchStep::Detach { link, pid } => {
                self.go(Phase::Detaching { initial, pid }, None, Action::Detach { link })
            },
            SwitchStep::Attach { pid, symbol } => {
                self.go(
                    Phase::Attaching { initial, pid, symbol },
                    None,
                    Action::Attach { pid, symbol },
                )
            },
            SwitchStep::Switched { pid } => {
                self.settled(initial, Some(Notice::Attached { pid }))
            },
            SwitchStep::Failed { error } => {
                if initial {
                    self.settled(initial, Some(Notice::InitialAttachFailed { error }))
                } else {
                    self.settled(initial, Some(Notice::SwitchFailed { error }))
                }
            },
        }
    }

    fn begin_switch<E>(&mut self, initial: bool, new_pid: u32) -> (step: LoopStep<L, E>)
        requires
            old(self)@.manager.wf(),
            new_pid > 0 || !old(self)@.manager.has_active_probe(),
        ensures
            final(self)@.manager.wf(),
            (final(self)@, step) == old(self)@.begin_switch::<E>(initial, new_pid),
    {
        let switch = self.manager.switch_pid(new_pid);
        self.switching(initial, switch)
    }
}

/// Whether an event answers an action.
pub open spec fn answers<L, E>(action: Action<L>, event: Event<L, E>) -> bool {
    match action {
        Action::Load => event is Loaded,
        Action::Detach { link } => event is Detached,
        Action::Attach { pid, symbol } => event is Attached,
        Action::Register => event is Registered,
        Action::CheckPid => event is PidChecked,
        Action::Poll { timeout_ms } => event is Polled,
        Action::Sleep { duration_ms } => event is Slept,
        Action::Drain => event is Drained,
        Action::Send { frame_delta_ns } => event is Sent,
        Action::Stop => false,
    }
}

/// The loop after a run of events.
pub open spec fn after<L, E>(state: LoopModel<L>, events: Seq<Event<L, E>>) -> LoopModel<L>
    decreases events.len(),
{
    if events.len() == 0 {
        state
    } else {
        after(state, events.drop_last()).next(events.last()).0
    }
}

/// Whether every event of a run answers what the loop asked for.
pub open spec fn answered<L, E>(state: LoopModel<L>, events: Seq<Event<L, E>>) -> bool
    decreases events.len(),
{
    events.len() > 0 ==> {
        &&& answered(state, events.drop_last())
        &&& after(state, events.drop_last()).awaits(events.last())
    }
}

/// How often a run asks for the ring buffer to be registered.
pub open spec fn registrations<L, E>(state: LoopModel<L>, events: Seq<Event<L, E>>) -> nat
    decreases events.len(),
{
    if events.len() == 0 {
        0
    } else {
        let earlier = registrations(state, events.drop_last());
        if after(state, events.drop_last()).next(events.last()).1.action is Register {
            earlier + 1
        } else {
            earlier
        }
    }
}

/// The records that an event takes out of the ring buffer, oldest first.
pub open spec fn drained_by<L, E>(event: Event<L, E>) -> Seq<Seq<u8>> {
    match event {
        Event::Drained(records) => crate::manager::record_bytes(records@),
        _ => Seq::empty(),
    }
}

/// All records that a run takes out of the ring buffer, oldest first.
pub open spec fn drained<L, E>(events: Seq<Event<L, E>>) -> Seq<Seq<u8>>
    decreases events.len(),
{
    if events.len() == 0 {
        Seq::empty()
    } else {
        drained(events.drop_last()) + drained_by(events.last())
    }
}

/// The phases up to the end of the switch at start-up.
pub open spec fn starting_up(phase: Phase) -> bool {
    match phase {
        Phase::Loading => true,
        Phase::Detaching { initial, pid } => initial,
        Phase::Attaching { initial, pid, symbol } => initial,
        _ => false,
    }
}

/// Every step keeps the state of the loop in order, and with it the bounds on
/// the frame statistics and the rule of at most one probe.
pub proof fn law_step_keeps_wf<L, E>(state: LoopModel<L>, event: Event<L, E>)
    requires
        state.wf(),
        state.awaits(event),
    ensures
        state.next(event).0.wf(),
{
    match event {
        Event::Drained(records) => crate::manager::law_poll_keeps_wf(state.manager, crate::manager::record_bytes(records@)),
        Event::PidChecked(Some(pid)) => {
            assert(pid != 0 ==> (pid as u32) != 0) by (bit_vector);
        },
        _ => {},
    }
}

/// The same for a whole run from the start.
pub proof fn law_run_keeps_wf<L, E>(initial_pid: i32, events: Seq<Event<L, E>>)
    requires
        answered(LoopModel::<L>::initial(initial_pid), events),
    ensures
        after(LoopModel::<L>::initial(initial_pid), events).wf(),
    decreases events.len(),
{
    if events.len() > 0 {
        law_run_keeps_wf(initial_pid, events.drop_last());
        law_step_keeps_wf(
            after(LoopModel::<L>::initial(initial_pid), events.drop_last()),
            events.last(),
        );
    }
}

/// The loop always waits for an answer to the action that it asked for last, and
/// for nothing else. The one answer it does not take is a process id of zero in
/// place of a real one. After [`Action::Stop`] it waits for nothing.
pub proof fn law_awaits_what_it_asked_for<L, E>(
    state: LoopModel<L>,
    event: Event<L, E>,
    answer: Event<L, E>,
)
    requires
        state.wf(),
        state.awaits(event),
    ensures
        ({
            let (next, step) = state.next(event);
            next.awaits(answer) <==> answers(step.action, answer) && (answer matches
                Event::PidChecked(Some(pid)) ==> pid != 0 || !next.manager.has_active_probe())
        }),
{
}

/// A process that the watcher publishes is always taken.
pub proof fn law_published_pid_is_accepted<L, E>(state: LoopModel<L>, last_pid: i32, pid: i32)
    requires
        state.phase is CheckingPid,
        crate::pid_watch::change(last_pid, pid) is Some,
    ensures
        state.awaits(Event::<L, E>::PidChecked(Some(pid))),
        pid as u32 == pid,
{
}

/// The ring buffer is registered at most once, however often the process
/// changes.
pub proof fn law_registered_at_most_once<L, E>(initial_pid: i32, events: Seq<Event<L, E>>)
    requires
        answered(LoopModel::<L>::initial(initial_pid), events),
    ensures
        registrations(LoopModel::<L>::initial(initial_pid), events) <= 1,
        starting_up(after(LoopModel::<L>::initial(initial_pid), events).phase) ==> registrations(
            LoopModel::<L>::initial(initial_pid),
            events,
        ) == 0,
    decreases events.len(),
{
    if events.len() > 0 {
        law_registered_at_most_once(initial_pid, events.drop_last());
    }
}

/// Once the program is loaded the ring buffer is registered exactly once: at the
/// end of start-up, whether or not a process is probed by then, so before any
/// look for a new process, and never again.
pub proof fn law_registered_exactly_once<L, E>(initial_pid: i32, events: Seq<Event<L, E>>)
    requires
        answered(LoopModel::<L>::initial(initial_pid), events),
        events.len() > 0,
        events[0] matches Event::Loaded(Ok(_)),
    ensures
        registrations(LoopModel::<L>::initial(initial_pid), events) == if starting_up(
            after(LoopModel::<L>::initial(initial_pid), events).phase,
        ) {
            0nat
        } else {
            1nat
        },
        !(after(LoopModel::<L>::initial(initial_pid), events).phase is Loading),
    decreases events.len(),
{
    let start = LoopModel::<L>::initial(initial_pid);
    let front = events.drop_last();
    if front.len() == 0 {
        assert(after(start, front) == start);
        assert(registrations(start, front) == 0);
        assert(events.last() == events[0]);
    } else {
        law_registered_exactly_once(initial_pid, front);
    }
}

/// Only two things end the loop: the program cannot be loaded, or nobody
/// receives the updates any more. No failed switch and no interrupted wait does.
pub proof fn law_what_stops_the_loop<L, E>(state: LoopModel<L>, event: Event<L, E>)
    requires
        state.wf(),
        state.awaits(event),
    ensures
        state.next(event).1.action is Stop <==> {
            ||| event matches Event::Loaded(Err(_))
            ||| event matches Event::Sent(false)
        },
        state.next(event).0.phase is Stopped <==> state.next(event).1.action is Stop,
{
}

/// Every update that is sent is the newest frame time of the current process,
/// after all records at hand, and a plausible one; it is sent whenever there is
/// such a frame time.
pub proof fn law_update_is_newest_frametime<L, E>(state: LoopModel<L>, event: Event<L, E>)
    requires
        state.wf(),
        state.awaits(event),
    ensures
        ({
            let (next, step) = state.next(event);
            &&& step.action is Send <==> event is Drained && next.manager.latest() is Some
            &&& step.action matches Action::Send { frame_delta_ns } ==> {
                &&& next.manager.latest() == Some(frame_delta_ns)
                &&& next.manager.has_active_probe()
                &&& crate::probe::is_frametime(frame_delta_ns)
            }
        }),
{
    law_step_keeps_wf(state, event);
}

/// The loop waits for records for a shorter time while a process is probed.
pub proof fn law_poll_timeout<L, E>(state: LoopModel<L>, event: Event<L, E>)
    requires
        state.wf(),
        state.awaits(event),
    ensures
        ({
            let (next, step) = state.next(event);
            step.action matches Action::Poll { timeout_ms } ==> timeout_ms
                == if next.manager.has_active_probe() {
                ACTIVE_POLL_MS
            } else {
                IDLE_POLL_MS
            }
        }),
{
}

/// A wait that was interrupted is followed by a rest and a new round, and
/// changes nothing.
pub proof fn law_interrupted_poll_is_retried<L, E>(state: LoopModel<L>)
    requires
        state.wf(),
        state.phase is Polling,
    ensures
        ({
            let (rest, rest_step) = state.next(Event::<L, E>::Polled(false));
            let (next, next_step) = rest.next(Event::<L, E>::Slept);
            &&& rest_step.action == (Action::<L>::Sleep { duration_ms: RETRY_SLEEP_MS })
            &&& next_step.action == Action::<L>::CheckPid
            &&& next.manager == state.manager
        }),
{
}

/// With a process in the foreground the loop starts by attaching to it; without
/// one it says so and goes on to register the ring buffer.
pub proof fn law_startup<L, E>(initial_pid: i32)
    ensures
        ({
            let (next, step) = LoopModel::<L>::initial(initial_pid).next(Event::<L, E>::Loaded(Ok(())));
            if initial_pid > 0 {
                &&& step.notice is None
                &&& step.action == (Action::<L>::Attach {
                    pid: initial_pid as u32,
                    symbol: ProbeSymbol::Short,
                })
            } else {
                &&& step.notice == Some(Notice::<E>::NoInitialProcess)
                &&& step.action == Action::<L>::Register
            }
        }),
{
}

/// While a process stays the current one, its frame statistics follow its own
/// timestamps and nothing else.
pub proof fn law_statistics_follow_step<L, E>(state: LoopModel<L>, event: Event<L, E>, pid: u32)
    requires
        state.wf(),
        state.awaits(event),
        pid > 0,
        state.manager.current_pid == pid,
        state.next(event).0.manager.current_pid == pid,
    ensures
        state.next(event).0.manager.states.contains_key(pid),
        state.next(event).0.manager.states[pid] == state.manager.states[pid].ingest_all(
            crate::manager::timestamps_of(drained_by(event), pid),
        ),
{
    match event {
        Event::Drained(records) => {
            crate::manager::law_records_reach_their_process(
                state.manager,
                crate::manager::record_bytes(records@),
                pid,
            );
        },
        _ => {},
    }
}

/// The process whose probe was attached last in a run; zero if none was.
pub open spec fn last_attached<L, E>(state: LoopModel<L>, events: Seq<Event<L, E>>) -> u32
    decreases events.len(),
{
    if events.len() == 0 {
        0
    } else {
        match after(state, events.drop_last()).next(events.last()).1.notice {
            Some(Notice::Attached { pid }) => pid,
            _ => last_attached(state, events.drop_last()),
        }
    }
}

/// The current process is the one whose probe was attached last.
pub proof fn law_current_process_was_attached_last<L, E>(
    initial_pid: i32,
    events: Seq<Event<L, E>>,
)
    requires
        answered(LoopModel::<L>::initial(initial_pid), events),
    ensures
        after(LoopModel::<L>::initial(initial_pid), events).manager.current_pid == last_attached(
            LoopModel::<L>::initial(initial_pid),
            events,
        ),
    decreases events.len(),
{
    if events.len() > 0 {
        let before = after(LoopModel::<L>::initial(initial_pid), events.drop_last());
        law_current_process_was_attached_last(initial_pid, events.drop_last());
        match events.last() {
            Event::Drained(records) => {
                crate::manager::law_records_reach_their_process(
                    before.manager,
                    crate::manager::record_bytes(records@),
                    0,
                );
            },
            _ => {},
        }
    }
}

/// The program is loaded once: no step asks for it again.
pub proof fn law_loaded_once<L, E>(state: LoopModel<L>, event: Event<L, E>)
    requires
        state.wf(),
        state.awaits(event),
    ensures
        !(state.next(event).1.action is Load),
        !(state.next(event).0.phase is Loading),
{
}

/// A switch whose last attempt fails is reported with the error, leaves the
/// current process and all statistics as they are, and the loop goes on.
pub proof fn law_failed_switch_is_survived<L, E>(
    state: LoopModel<L>,
    initial: bool,
    pid: u32,
    error: E,
)
    requires
        state.wf(),
        state.phase == (Phase::Attaching { initial, pid, symbol: ProbeSymbol::Long }),
    ensures
        ({
            let (next, step) = state.next(
                Event::<L, E>::Attached(AttachOutcome::Refused(error)),
            );
            &&& next.manager == state.manager
            &&& step.notice == if initial {
                Some(Notice::InitialAttachFailed { error })
            } else {
                Some(Notice::SwitchFailed { error })
            }
            &&& if initial {
                step.action is Register
            } else {
                step.action is Poll
            }
        }),
{
}

/// A probe is only ever attached to a real process, and only while no other
/// probe is attached.
pub proof fn law_attaches_one_probe_at_a_time<L, E>(state: LoopModel<L>, event: Event<L, E>)
    requires
        state.wf(),
        state.awaits(event),
    ensures
        ({
            let (next, step) = state.next(event);
            step.action matches Action::Attach { pid, symbol } ==> {
                &&& pid > 0
                &&& next.manager.unlinked()
            }
        }),
{
    law_step_keeps_wf(state, event);
}

/// The events since the current process last changed; all of them if it never
/// did.
pub open spec fn since_change<L, E>(state: LoopModel<L>, events: Seq<Event<L, E>>) -> Seq<
    Event<L, E>,
>
    decreases events.len(),
{
    if events.len() == 0 {
        Seq::empty()
    } else {
        let before = after(state, events.drop_last());
        if after(state, events).manager.current_pid != before.manager.current_pid {
            Seq::empty()
        } else {
            since_change(state, events.drop_last()).push(events.last())
        }
    }
}

/// What the loop reports is measured, and only from the current process's own
/// records: over any run from the start, the frame statistics are those that
/// the timestamps give which the ring buffer gave for the current process since
/// it became the current one, and the frame time to report is the last plausible
/// interval between neighbours among these.
pub proof fn law_reported_frametime_is_measured<L, E>(initial_pid: i32, events: Seq<Event<L, E>>)
    requires
        answered(LoopModel::<L>::initial(initial_pid), events),
    ensures
        ({
            let start = LoopModel::<L>::initial(initial_pid);
            let manager = after(start, events).manager;
            let ktimes = crate::manager::timestamps_of(
                drained(since_change(start, events)),
                manager.current_pid,
            );
            let measured = crate::probe::frametimes_between(ktimes);
            if manager.has_active_probe() {
                &&& manager.states[manager.current_pid] == ProbeModel::empty().ingest_all(ktimes)
                &&& manager.latest() == if measured.len() == 0 {
                    None
                } else {
                    Some(measured.last())
                }
            } else {
                manager.latest() is None
            }
        }),
    decreases events.len(),
{
    let start = LoopModel::<L>::initial(initial_pid);
    let manager = after(start, events).manager;
    let pid = manager.current_pid;
    let recent = since_change(start, events);
    let ktimes = crate::manager::timestamps_of(drained(recent), pid);
    law_run_keeps_wf(initial_pid, events);
    if events.len() > 0 {
        let before = after(start, events.drop_last());
        law_reported_frametime_is_measured(initial_pid, events.drop_last());
        law_run_keeps_wf(initial_pid, events.drop_last());
        crate::manager::law_records_reach_their_process(
            before.manager,
            drained_by(events.last()),
            pid,
        );
        if pid == before.manager.current_pid && pid > 0 {
            let earlier = since_change(start, events.drop_last());
            assert(recent.drop_last() =~= earlier);
            law_statistics_follow_step(before, events.last(), pid);
            let batch = drained_by(events.last());
            crate::manager::law_timestamps_of_joined_records(drained(earlier), batch, pid);
            crate::probe::law_ingest_in_batches(
                ProbeModel::empty(),
                crate::manager::timestamps_of(drained(earlier), pid),
                crate::manager::timestamps_of(batch, pid),
            );
        }
    }
    if pid > 0 {
        crate::probe::law_window_is_recent_history(ktimes);
    }
}

/// The loop starts with nothing probed and waits for the program to be loaded.
pub proof fn law_initial_state<L, E>(initial_pid: i32, event: Event<L, E>, pid: u32)
    ensures
        ({
            let start = LoopModel::<L>::initial(initial_pid);
            &&& start.wf()
            &&& start.initial_pid == initial_pid
            &&& start.manager.current_pid == 0
            &&& !start.manager.links.contains_key(pid)
            &&& !start.manager.states.contains_key(pid)
            &&& start.awaits(event) <==> event is Loaded
        }),
{
}

/// After the program is loaded, a process in the foreground is attached under
/// the short symbol, as the switch at start-up; without one the ring buffer is
/// registered next. If the program cannot be loaded, the error is reported and
/// the loop ends.
pub proof fn law_after_loading<L, E>(state: LoopModel<L>, error: E)
    requires
        state.wf(),
        state.phase is Loading,
    ensures
        ({
            let (next, step) = state.next(Event::<L, E>::Loaded(Ok(())));
            let pid = state.initial_pid as u32;
            if state.initial_pid > 0 {
                &&& pid == state.initial_pid
                &&& next == LoopModel {
                    phase: Phase::Attaching { initial: true, pid, symbol: ProbeSymbol::Short },
                    ..state
                }
                &&& step.action == Action::<L>::Attach { pid, symbol: ProbeSymbol::Short }
                &&& step.notice is None
            } else {
                &&& next == LoopModel { phase: Phase::Registering, ..state }
                &&& step.action == Action::<L>::Register
                &&& step.notice == Some(Notice::<E>::NoInitialProcess)
            }
        }),
        ({
            let (next, step) = state.next(Event::<L, E>::Loaded(Err(error)));
            &&& next == LoopModel { phase: Phase::Stopped, ..state }
            &&& step.action == Action::<L>::Stop
            &&& step.notice == Some(Notice::InitialAttachFailed { error })
        }),
{
}

/// Every look that finds a process sets the switch to it going: straight to the
/// wait if the process is current and probed, by detaching the probe of another
/// process, which is then no longer held, or else by attaching under the short
/// symbol. Neither the current process nor any statistics change yet. An id that
/// is negative is taken for the unsigned number with the same bits.
pub proof fn law_published_process_is_switched_to<L, E>(state: LoopModel<L>, pid: i32)
    requires
        state.wf(),
        state.phase is CheckingPid,
        pid != 0,
    ensures
        ({
            let (next, step) = state.next(Event::<L, E>::PidChecked(Some(pid)));
            let new_pid = pid as u32;
            let current = state.manager.current_pid;
            let held = state.manager.links.contains_key(current);
            &&& new_pid == if pid > 0 {
                pid as int
            } else {
                pid + 0x1_0000_0000
            }
            &&& step.notice is None
            &&& next.initial_pid == state.initial_pid
            &&& next.manager.current_pid == current
            &&& next.manager.states == state.manager.states
            &&& if held && new_pid == current {
                &&& step.action is Poll
                &&& next.phase is Polling
                &&& next.manager.links == state.manager.links
            } else {
                &&& forall|other: u32| !#[trigger] next.manager.links.contains_key(other)
                &&& if held {
                    &&& step.action == Action::<L>::Detach { link: state.manager.links[current] }
                    &&& next.phase == Phase::Detaching { initial: false, pid: new_pid }
                } else {
                    &&& step.action == Action::<L>::Attach {
                        pid: new_pid,
                        symbol: ProbeSymbol::Short,
                    }
                    &&& next.phase == Phase::Attaching {
                        initial: false,
                        pid: new_pid,
                        symbol: ProbeSymbol::Short,
                    }
                }
            }
        }),
{
    assert(pid < 0 ==> (pid as u32) == pid + 0x1_0000_0000) by (bit_vector);
}

/// While there is no process, an id of zero is no news: the wait follows, and
/// nothing else changes.
pub proof fn law_zero_is_no_news<L, E>(state: LoopModel<L>)
    requires
        state.wf(),
        state.phase is CheckingPid,
        state.manager.current_pid == 0,
    ensures
        ({
            let (next, step) = state.next(Event::<L, E>::PidChecked(Some(0)));
            &&& next == LoopModel { phase: Phase::Polling, ..state }
            &&& step.action is Poll
            &&& step.notice is None
        }),
{
}

/// A look that finds no new process is followed by the wait, and changes
/// nothing.
pub proof fn law_no_news_is_followed_by_the_wait<L, E>(state: LoopModel<L>)
    requires
        state.wf(),
        state.phase is CheckingPid,
    ensures
        ({
            let (next, step) = state.next(Event::<L, E>::PidChecked(None));
            &&& next == LoopModel { phase: Phase::Polling, ..state }
            &&& step.action is Poll
            &&& step.notice is None
        }),
{
}

/// The wait lasts as long as the current process asks for: a short time if there
/// is one, a long time if there is none.
pub proof fn law_wait_by_current_process<L, E>(state: LoopModel<L>, event: Event<L, E>)
    requires
        state.wf(),
        state.awaits(event),
    ensures
        ({
            let (next, step) = state.next(event);
            step.action matches Action::Poll { timeout_ms } ==> {
                &&& next.manager.current_pid != 0 ==> timeout_ms == 100
                &&& next.manager.current_pid == 0 ==> timeout_ms == 500
            }
        }),
{
}

/// A detach, done or refused, is followed by attaching the process that the
/// switch is for, under the short symbol; nothing else changes.
pub proof fn law_detached_process_makes_room<L, E>(
    state: LoopModel<L>,
    initial: bool,
    pid: u32,
    outcome: DetachOutcome<E>,
)
    requires
        state.wf(),
        state.phase == (Phase::Detaching { initial, pid }),
        !(outcome is NoProgram),
    ensures
        ({
            let (next, step) = state.next(Event::<L, E>::Detached(outcome));
            &&& next == LoopModel {
                phase: Phase::Attaching { initial, pid, symbol: ProbeSymbol::Short },
                ..state
            }
            &&& step.action == Action::<L>::Attach { pid, symbol: ProbeSymbol::Short }
            &&& step.notice is None
        }),
{
}

/// A refused short symbol is followed by the long one, for the same process and
/// in the same switch; nothing else changes.
pub proof fn law_long_symbol_is_the_fallback<L, E>(
    state: LoopModel<L>,
    initial: bool,
    pid: u32,
    error: E,
)
    requires
        state.wf(),
        state.phase == (Phase::Attaching { initial, pid, symbol: ProbeSymbol::Short }),
    ensures
        ({
            let (next, step) = state.next(Event::<L, E>::Attached(AttachOutcome::Refused(error)));
            &&& next == LoopModel {
                phase: Phase::Attaching { initial, pid, symbol: ProbeSymbol::Long },
                ..state
            }
            &&& step.action == Action::<L>::Attach { pid, symbol: ProbeSymbol::Long }
            &&& step.notice is None
        }),
{
}

/// The loop keeps in mind what it asks to be attached: the process and the
/// symbol of the action are those whose outcome it then waits for.
pub proof fn law_attach_is_kept_in_mind<L, E>(state: LoopModel<L>, event: Event<L, E>)
    requires
        state.wf(),
        state.awaits(event),
    ensures
        ({
            let (next, step) = state.next(event);
            &&& step.action matches Action::Attach { pid, symbol } ==> {
                &&& next.phase matches Phase::Attaching { initial, pid: kept, symbol: tried }
                &&& kept == pid
                &&& tried == symbol
                &&& initial <==> starting_up(state.phase)
            }
            &&& next.phase is Attaching <==> step.action is Attach
            &&& next.phase is Detaching <==> step.action is Detach
        }),
{
}

/// A probe that could be attached, under either symbol, makes its process the
/// current one, with the only link and the only statistics, and is reported. At
/// start-up the ring buffer is registered next; later on the wait follows.
pub proof fn law_attached_process_is_followed<L, E>(
    state: LoopModel<L>,
    initial: bool,
    pid: u32,
    symbol: ProbeSymbol,
    link: L,
)
    requires
        state.wf(),
        state.phase == (Phase::Attaching { initial, pid, symbol }),
    ensures
        ({
            let (next, step) = state.next(Event::<L, E>::Attached(AttachOutcome::Linked(link)));
            &&& step.notice == Some(Notice::<E>::Attached { pid })
            &&& next.initial_pid == state.initial_pid
            &&& next.manager.current_pid == pid
            &&& next.manager.links == Map::<u32, L>::empty().insert(pid, link)
            &&& forall|other: u32| #[trigger]
                next.manager.states.contains_key(other) <==> other == pid
            &&& state.manager.current_pid == pid ==> next.manager.states[pid]
                == state.manager.states[pid]
            &&& state.manager.current_pid != pid ==> {
                &&& next.manager.states[pid].last_ktime_ns is None
                &&& next.manager.states[pid].frametimes.len() == 0
            }
            &&& if initial {
                step.action == Action::<L>::Register && next.phase is Registering
            } else {
                step.action is Poll && next.phase is Polling
            }
        }),
{
    crate::manager::law_attached_process_is_current::<L, E>(state.manager, pid, symbol, link);
}

/// Whatever ends a switch in failure, the refusal of the long symbol or a
/// missing program at any point, the error is reported, at start-up as such, and
/// nothing but the phase changes. At start-up the ring buffer is registered
/// next; later on the wait follows.
pub proof fn law_failure_ends_the_switch<L, E>(
    state: LoopModel<L>,
    initial: bool,
    pid: u32,
    event: Event<L, E>,
    error: E,
)
    requires
        state.wf(),
        ({
            ||| state.phase == (Phase::Detaching { initial, pid }) && event == Event::<
                L,
                E,
            >::Detached(DetachOutcome::NoProgram(error))
            ||| state.phase == (Phase::Attaching { initial, pid, symbol: ProbeSymbol::Short })
                && event == Event::<L, E>::Attached(AttachOutcome::NoProgram(error))
            ||| state.phase == (Phase::Attaching { initial, pid, symbol: ProbeSymbol::Long })
                && event == Event::<L, E>::Attached(AttachOutcome::NoProgram(error))
            ||| state.phase == (Phase::Attaching { initial, pid, symbol: ProbeSymbol::Long })
                && event == Event::<L, E>::Attached(AttachOutcome::Refused(error))
        }),
    ensures
        ({
            let (next, step) = state.next(event);
            if initial {
                &&& next == LoopModel { phase: Phase::Registering, ..state }
                &&& step.action == Action::<L>::Register
                &&& step.notice == Some(Notice::InitialAttachFailed { error })
            } else {
                &&& next == LoopModel { phase: Phase::Polling, ..state }
                &&& step.action is Poll
                &&& step.notice == Some(Notice::SwitchFailed { error })
            }
        }),
{
}

/// A wait that ended in order is followed by draining the ring buffer, whatever
/// is probed and however the loop was started; nothing else changes.
pub proof fn law_wait_is_followed_by_draining<L, E>(state: LoopModel<L>)
    requires
        state.wf(),
        state.phase is Polling,
    ensures
        ({
            let (next, step) = state.next(Event::<L, E>::Polled(true));
            &&& next == LoopModel { phase: Phase::Draining, ..state }
            &&& step.action == Action::<L>::Drain
            &&& step.notice is None
        }),
{
}

/// An interrupted wait is followed by a short rest; nothing else changes.
pub proof fn law_interrupted_wait_is_followed_by_rest<L, E>(state: LoopModel<L>)
    requires
        state.wf(),
        state.phase is Polling,
    ensures
        ({
            let (next, step) = state.next(Event::<L, E>::Polled(false));
            &&& next == LoopModel { phase: Phase::Sleeping, ..state }
            &&& step.action == (Action::<L>::Sleep { duration_ms: 10 })
            &&& step.notice is None
        }),
{
}

/// Draining gives every record to the statistics of its process and changes
/// nothing else in the book-keeping. Then the front of the current process's
/// window is sent, if it has one, and otherwise the round is over and the next
/// one begins with a look for a new process.
pub proof fn law_drained_records_are_counted_and_sent<L, E>(
    state: LoopModel<L>,
    records: Vec<Vec<u8>>,
    pid: u32,
)
    requires
        state.wf(),
        state.phase is Draining,
    ensures
        ({
            let (next, step) = state.next(Event::<L, E>::Drained(records));
            let bytes = Seq::new(records@.len(), |i: int| records@[i]@);
            let current = next.manager.current_pid;
            let window = next.manager.states[current].frametimes;
            &&& step.notice is None
            &&& next.initial_pid == state.initial_pid
            &&& current == state.manager.current_pid
            &&& next.manager.links == state.manager.links
            &&& next.manager.states.contains_key(pid) <==> state.manager.states.contains_key(pid)
            &&& state.manager.states.contains_key(pid) ==> next.manager.states[pid]
                == state.manager.states[pid].ingest_all(crate::manager::timestamps_of(bytes, pid))
            &&& if current != 0 && window.len() > 0 {
                &&& step.action == Action::<L>::Send { frame_delta_ns: window[0] }
                &&& next.phase is Sending
            } else {
                &&& step.action == Action::<L>::CheckPid
                &&& next.phase is CheckingPid
            }
        }),
{
    let bytes = Seq::new(records@.len(), |i: int| records@[i]@);
    assert(crate::manager::record_bytes(records@) =~= bytes);
    crate::manager::law_records_reach_their_process(state.manager, bytes, pid);
    crate::manager::law_records_reach_their_process(
        state.manager,
        bytes,
        state.manager.current_pid,
    );
    law_step_keeps_wf(state, Event::<L, E>::Drained(records));
}

/// Every round, and start-up too, ends in a look for a new process: after the
/// registration, after a rest and after an update that found its receiver. These
/// change nothing else.
pub proof fn law_rounds_begin_with_a_look<L, E>(state: LoopModel<L>, event: Event<L, E>)
    requires
        state.wf(),
        ({
            ||| state.phase is Registering && event is Registered
            ||| state.phase is Sleeping && event is Slept
            ||| state.phase is Sending && event == Event::<L, E>::Sent(true)
        }),
    ensures
        ({
            let (next, step) = state.next(event);
            &&& next == LoopModel { phase: Phase::CheckingPid, ..state }
            &&& step.action == Action::<L>::CheckPid
            &&& step.notice is None
        }),
{
}

/// A lost receiver ends the loop, and nothing is reported.
pub proof fn law_lost_receiver_ends_the_loop<L, E>(state: LoopModel<L>)
    requires
        state.wf(),
        state.phase is Sending,
    ensures
        ({
            let (next, step) = state.next(Event::<L, E>::Sent(false));
            &&& next == LoopModel { phase: Phase::Stopped, ..state }
            &&& step.action == Action::<L>::Stop
            &&& step.notice is None
        }),
{
}

/// The statistics and the link change in draining and attaching only, and the
/// current process in attaching only.
pub proof fn law_what_changes_the_book_keeping<L, E>(state: LoopModel<L>, event: Event<L, E>)
    requires
        state.wf(),
        state.awaits(event),
    ensures
        ({
            let next = state.next(event).0;
            let linked = event matches Event::Attached(AttachOutcome::Linked(_));
            &&& !linked ==> next.manager.current_pid == state.manager.current_pid
            &&& !linked && !(event is Drained) ==> next.manager.states == state.manager.states
            &&& !linked && !(event is PidChecked) ==> next.manager.links == state.manager.links
            &&& next.initial_pid == state.initial_pid
        }),
{
    match event {
        Event::Drained(records) => {
            crate::manager::law_records_reach_their_process(
                state.manager,
                crate::manager::record_bytes(records@),
                0,
            );
        },
        _ => {},
    }
}

/// How many actions are left at most until the next look for a new process, or
/// the end.
pub open spec fn actions_to_look(phase: Phase) -> nat {
    match phase {
        Phase::Stopped => 0,
        Phase::Registering => 1,
        Phase::Sleeping => 1,
        Phase::Sending => 1,
        Phase::Draining => 2,
        Phase::Polling => 3,
        Phase::Attaching { initial, pid, symbol: ProbeSymbol::Long } => 4,
        Phase::Attaching { initial, pid, symbol: ProbeSymbol::Short } => 5,
        Phase::Detaching { initial, pid } => 6,
        Phase::CheckingPid => 7,
        Phase::Loading => 7,
    }
}

/// The loop never loses sight of the foreground: every step either asks for a
/// look for a new process or brings the next one closer.
pub proof fn law_next_look_comes_closer<L, E>(state: LoopModel<L>, event: Event<L, E>)
    requires
        state.wf(),
        state.awaits(event),
    ensures
        state.next(event).1.action is CheckPid || actions_to_look(state.next(event).0.phase)
            < actions_to_look(state.phase),
{
}

/// The actions that a run asks for, one for each event.
pub open spec fn actions<L, E>(state: LoopModel<L>, events: Seq<Event<L, E>>) -> Seq<Action<L>>
    decreases events.len(),
{
    if events.len() == 0 {
        Seq::empty()
    } else {
        actions(state, events.drop_last()).push(
            after(state, events.drop_last()).next(events.last()).1.action,
        )
    }
}

/// Whether some action between two places of a run is a look for a new process.
pub open spec fn looks_between<L>(asked: Seq<Action<L>>, from: int, to: int) -> bool {
    exists|k: int| from < k < to && #[trigger] asked[k] is CheckPid
}

proof fn lemma_looks_kept<L>(asked: Seq<Action<L>>, action: Action<L>, from: int, to: int)
    requires
        looks_between(asked, from, to),
        0 <= from < to <= asked.len(),
    ensures
        looks_between(asked.push(action), from, to),
        looks_between(asked.push(action), from, to + 1),
{
    let k = choose|k: int| from < k < to && #[trigger] asked[k] is CheckPid;
    assert(asked.push(action)[k] is CheckPid);
}

/// Between any two waits of a run there is a look for a new process. After a
/// look has been asked for, that also holds between the last wait and whatever
/// comes next, up to the next wait.
pub proof fn law_look_between_two_waits<L, E>(initial_pid: i32, events: Seq<Event<L, E>>)
    requires
        answered(LoopModel::<L>::initial(initial_pid), events),
    ensures
        ({
            let start = LoopModel::<L>::initial(initial_pid);
            let asked = actions(start, events);
            &&& asked.len() == events.len()
            &&& forall|i: int, j: int|
                0 <= i < j < asked.len() && #[trigger] asked[i] is Poll && #[trigger] asked[j] is Poll
                    ==> looks_between(asked, i, j)
            &&& match after(start, events).phase {
                Phase::Polling | Phase::Sleeping | Phase::Draining | Phase::Sending
                | Phase::Stopped => true,
                _ => forall|i: int|
                    0 <= i < asked.len() && #[trigger] asked[i] is Poll ==> looks_between(
                        asked,
                        i,
                        asked.len() as int,
                    ),
            }
        }),
    decreases events.len(),
{
    if events.len() > 0 {
        let start = LoopModel::<L>::initial(initial_pid);
        let front = events.drop_last();
        let before = actions(start, front);
        let asked = actions(start, events);
        let last = events.len() - 1;
        law_look_between_two_waits(initial_pid, front);
        assert(asked =~= before.push(asked[last]));
        assert forall|i: int, j: int|
            0 <= i < j < asked.len() && #[trigger] asked[i] is Poll && #[trigger] asked[j]
                is Poll implies looks_between(asked, i, j) by {
            assert(before[i] is Poll);
            if j < last {
                assert(before[j] is Poll);
                lemma_looks_kept(before, asked[last], i, j);
            } else {
                lemma_looks_kept(before, asked[last], i, last);
            }
        }
        assert forall|i: int|
            0 <= i < asked.len() && #[trigger] asked[i] is Poll && !(after(start, events).phase
                is Polling) && !(after(start, events).phase is Sleeping) && !(after(
                start,
                events,
            ).phase is Draining) && !(after(start, events).phase is Sending) && !(after(
                start,
                events,
            ).phase is Stopped) implies looks_between(asked, i, asked.len() as int) by {
            assert(i < last);
            assert(before[i] is Poll);
            if asked[last] is CheckPid {
                assert(asked[last] is CheckPid);
            } else {
                lemma_looks_kept(before, asked[last], i, last);
            }
        }
    }
}

} // verus!
