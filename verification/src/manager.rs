//! Which process is probed, and its frame statistics.
//!
//! A switch from one process to another takes outside work: the old probe is
//! detached and a new one attached, first under one symbol of the graphics
//! library and, where that is refused, under another. [`FpsManager::switch_pid`]
//! starts a switch; it and the two functions that take the outcomes of the
//! outside work say what has to be done next.

use std::collections::hash_map::Entry;
use std::collections::HashMap;
use vstd::prelude::*;

use crate::event::FrameTimestampEvent;
use crate::probe::{ProbeModel, ProbeState};

verus! {

broadcast use vstd::std_specs::hash::group_hash_axioms;

/// The library that the probes are attached to.
pub const LIBGUI_PATH: &'static str = "/system/lib64/libgui.so";

/// The probed function under its current signature.
pub const SYMBOL_SHORT: &'static str =
    "_ZN7android7Surface11queueBufferEONS_2spINS_13GraphicBufferEEEiPNS_24SurfaceQueueBufferOutputE";

/// The probed function under the signature to fall back to.
pub const SYMBOL_LONG: &'static str =
    "_ZN7android7Surface11queueBufferERKNS_2spINS_13GraphicBufferEEERKNS1_INS_5FenceEEEPNS_24SurfaceQueueBufferOutputE";

/// The signatures under which the probed function may be exported.
#[derive(Clone, Copy, Debug, PartialEq, Eq, Structural)]
pub enum ProbeSymbol {
    Short,
    Long,
}

impl ProbeSymbol {
    /// The exported name.
    pub fn name(self) -> (name: &'static str)
        ensures
            name@ == match self {
                ProbeSymbol::Short => SYMBOL_SHORT@,
                ProbeSymbol::Long => SYMBOL_LONG@,
            },
    {
        match self {
            ProbeSymbol::Short => SYMBOL_SHORT,
            ProbeSymbol::Long => SYMBOL_LONG,
        }
    }
}

/// What came of detaching a probe.
#[derive(Debug)]
pub enum DetachOutcome<E> {
    /// The probe is detached.
    Detached,
    /// The probe could not be detached.
    Refused,
    /// The probe program could not be reached at all.
    NoProgram(E),
}

/// What came of attaching a probe.
#[derive(Debug)]
pub enum AttachOutcome<L, E> {
    /// The probe is attached; the link detaches it again.
    Linked(L),
    /// The probe could not be attached under the symbol that was asked for.
    Refused(E),
    /// The probe program could not be reached at all.
    NoProgram(E),
}

/// Where a switch to another process stands.
#[derive(Debug)]
pub enum SwitchStep<L, E> {
    /// The process is the current one and probed already, or there is none and
    /// none is asked for; there is nothing to do.
    Unchanged,
    /// Detach the old probe, then report to [`FpsManager::detached`].
    Detach { link: L, pid: u32 },
    /// Attach a probe, then report to [`FpsManager::attached`].
    Attach { pid: u32, symbol: ProbeSymbol },
    /// The process is now the current one.
    Switched { pid: u32 },
    /// The switch failed; the current process stays what it was.
    Failed { error: E },
}

/// What the book-keeping amounts to.
#[verifier::ext_equal]
#[verifier::reject_recursive_types(L)]
pub struct ManagerModel<L> {
    /// The attached probes by process.
    pub links: Map<u32, L>,
    /// The frame statistics of the current process.
    pub states: Map<u32, ProbeModel>,
    /// The process of interest; zero until there is one.
    pub current_pid: u32,
}

impl<L> ManagerModel<L> {
    /// Nothing probed yet.
    pub open spec fn empty() -> Self {
        ManagerModel { links: Map::empty(), states: Map::empty(), current_pid: 0 }
    }

    /// Only the current process can have a probe and frame statistics. If there
    /// is a current process, it has frame statistics, and they are in order. It
    /// is without a probe only after a switch away from it has failed.
    pub open spec fn wf(self) -> bool {
        &&& forall|pid: u32| #[trigger]
            self.links.contains_key(pid) ==> pid == self.current_pid && pid > 0
        &&& forall|pid: u32| #[trigger]
            self.states.contains_key(pid) ==> {
                &&& pid == self.current_pid
                &&& pid > 0
                &&& self.states[pid].wf()
            }
        &&& self.current_pid > 0 ==> self.states.contains_key(self.current_pid)
    }

    /// No probe is attached, as it is in the middle of a switch.
    pub open spec fn unlinked(self) -> bool {
        forall|pid: u32| !#[trigger] self.links.contains_key(pid)
    }

    pub open spec fn has_active_probe(self) -> bool {
        self.current_pid > 0
    }

    /// The newest frame time of the current process.
    pub open spec fn latest(self) -> Option<u64> {
        if self.states.contains_key(self.current_pid) {
            self.states[self.current_pid].latest()
        } else {
            None
        }
    }

    /// Whether a process is the current one and needs no attaching. No process
    /// at all, written as zero, never does.
    pub open spec fn settled_on(self, pid: u32) -> bool {
        pid == self.current_pid && (pid == 0 || self.links.contains_key(pid))
    }

    /// The start of a switch: the link of the current process, if there is one,
    /// is given up for detaching. A current process that has lost its probe is
    /// attached again.
    pub open spec fn switch_pid<E>(self, new_pid: u32) -> (Self, SwitchStep<L, E>) {
        if self.settled_on(new_pid) {
            (self, SwitchStep::Unchanged)
        } else if self.current_pid > 0 && self.links.contains_key(self.current_pid) {
            (
                ManagerModel { links: self.links.remove(self.current_pid), ..self },
                SwitchStep::Detach { link: self.links[self.current_pid], pid: new_pid },
            )
        } else {
            (self, SwitchStep::Attach { pid: new_pid, symbol: ProbeSymbol::Short })
        }
    }

    /// The step after detaching. A probe that cannot be detached does not stop
    /// the switch.
    pub open spec fn detached<E>(self, pid: u32, outcome: DetachOutcome<E>) -> SwitchStep<L, E> {
        match outcome {
            DetachOutcome::NoProgram(error) => SwitchStep::Failed { error },
            _ => SwitchStep::Attach { pid, symbol: ProbeSymbol::Short },
        }
    }

    /// The book-keeping once a probe is attached to a process. The frame
    /// statistics of the process that was current before are dropped, and the
    /// new one starts without any; a process that is attached again keeps its
    /// own.
    pub open spec fn linked(self, pid: u32, link: L) -> Self {
        let kept = if pid != self.current_pid {
            self.states.remove(self.current_pid)
        } else {
            self.states
        };
        ManagerModel {
            links: self.links.insert(pid, link),
            states: if kept.contains_key(pid) {
                kept
            } else {
                kept.insert(pid, ProbeModel::empty())
            },
            current_pid: pid,
        }
    }

    /// The step after attaching: the second symbol is tried when the first one
    /// is refused, and only then.
    pub open spec fn attached<E>(
        self,
        pid: u32,
        symbol: ProbeSymbol,
        outcome: AttachOutcome<L, E>,
    ) -> (Self, SwitchStep<L, E>) {
        match outcome {
            AttachOutcome::Linked(link) => (self.linked(pid, link), SwitchStep::Switched { pid }),
            AttachOutcome::NoProgram(error) => (self, SwitchStep::Failed { error }),
            AttachOutcome::Refused(error) => match symbol {
                ProbeSymbol::Short => (
                    self,
                    SwitchStep::Attach { pid, symbol: ProbeSymbol::Long },
                ),
                ProbeSymbol::Long => (self, SwitchStep::Failed { error }),
            },
        }
    }

    /// The effect of one record: the timestamp goes to the process that the
    /// record names, if statistics are held of it.
    pub open spec fn dispatch(self, record: Seq<u8>) -> Self {
        match crate::event::decoded(record) {
            Some(event) => if self.states.contains_key(event.pid) {
                ManagerModel {
                    states: self.states.insert(
                        event.pid,
                        self.states[event.pid].ingest(event.ktime_ns),
                    ),
                    ..self
                }
            } else {
                self
            },
            None => self,
        }
    }

    /// The effect of a run of records, oldest first.
    pub open spec fn poll_frames(self, records: Seq<Seq<u8>>) -> Self
        decreases records.len(),
    {
        if records.len() == 0 {
            self
        } else {
            self.poll_frames(records.drop_last()).dispatch(records.last())
        }
    }
}

/// What a list of records holds, byte by byte.
pub open spec fn record_bytes(records: Seq<Vec<u8>>) -> Seq<Seq<u8>> {
    records.map_values(|record: Vec<u8>| record@)
}

/// The book-keeping of probes and frame statistics. `L` is the handle by which
/// an attached probe is detached again.
#[verifier::reject_recursive_types(L)]
pub struct FpsManager<L> {
    links: HashMap<u32, L>,
    states: HashMap<u32, ProbeState>,
    current_pid: u32,
}

impl<L> View for FpsManager<L> {
    type V = ManagerModel<L>;

    closed spec fn view(&self) -> ManagerModel<L> {
        ManagerModel {
            links: self.links@,
            states: self.states@.map_values(|state: ProbeState| state@),
            current_pid: self.current_pid,
        }
    }
}

impl<L> FpsManager<L> {
    pub open spec fn wf(&self) -> bool {
        self@.wf()
    }

    /// Nothing probed yet.
    pub fn new() -> (manager: Self)
        ensures
            manager.wf(),
            manager@ == ManagerModel::<L>::empty(),
    {
        let manager = FpsManager { links: HashMap::new(), states: HashMap::new(), current_pid: 0 };
        assert(manager@ =~= ManagerModel::<L>::empty());
        manager
    }

    /// Starts to switch to a process: the old one is detached and the new one
    /// attached. Nothing has to be done for a process that is current and probed
    /// already. A process id of zero is accepted only while there is no current
    /// process.
    pub fn switch_pid<E>(&mut self, new_pid: u32) -> (step: SwitchStep<L, E>)
        requires
            old(self).wf(),
            new_pid > 0 || old(self)@.current_pid == 0,
        ensures
            final(self).wf(),
            (final(self)@, step) == old(self)@.switch_pid::<E>(new_pid),
    {
        if new_pid == self.current_pid && (new_pid == 0 || self.links.contains_key(&new_pid)) {
            return SwitchStep::Unchanged;
        }
        if self.current_pid > 0 {
            if let Some(link) = self.links.remove(&self.current_pid) {
                assert(self@ =~= old(self)@.switch_pid::<E>(new_pid).0);
                return SwitchStep::Detach { link, pid: new_pid };
            }
        }
        SwitchStep::Attach { pid: new_pid, symbol: ProbeSymbol::Short }
    }

    /// Goes on after the old probe was, or was not, detached.
    pub fn detached<E>(&self, pid: u32, outcome: DetachOutcome<E>) -> (step: SwitchStep<L, E>)
        ensures
            step == self@.detached(pid, outcome),
    {
        match outcome {
            DetachOutcome::NoProgram(error) => SwitchStep::Failed { error },
            _ => SwitchStep::Attach { pid, symbol: ProbeSymbol::Short },
        }
    }

    /// Goes on after a probe was, or was not, attached.
    pub fn attached<E>(
        &mut self,
        pid: u32,
        symbol: ProbeSymbol,
        outcome: AttachOutcome<L, E>,
    ) -> (step: SwitchStep<L, E>)
        requires
            old(self).wf(),
            pid > 0,
            old(self)@.unlinked(),
        ensures
            final(self).wf(),
            (final(self)@, step) == old(self)@.attached(pid, symbol, outcome),
    {
        match outcome {
            AttachOutcome::Linked(link) => {
                self.links.insert(pid, link);
                if pid != self.current_pid {
                    self.states.remove(&self.current_pid);
                }
                self.states.entry(pid).or_insert(ProbeState::new());
                self.current_pid = pid;
                assert(self@ =~= old(self)@.linked(pid, link));
                SwitchStep::Switched { pid }
            },
            AttachOutcome::NoProgram(error) => SwitchStep::Failed { error },
            AttachOutcome::Refused(error) => match symbol {
                ProbeSymbol::Short => SwitchStep::Attach { pid, symbol: ProbeSymbol::Long },
                ProbeSymbol::Long => SwitchStep::Failed { error },
            },
        }
    }

    /// Takes in one record. Records that are too short and records of other
    /// processes than the current one are dropped.
    pub fn dispatch(&mut self, data: &[u8])
        requires
            old(self).wf(),
        ensures
            final(self).wf(),
            final(self)@ == old(self)@.dispatch(data@),
    {
        let event = match FrameTimestampEvent::from_record(data) {
            Some(event) => event,
            None => return,
        };
        assert(self.states@.contains_key(event.pid) ==> {
            &&& self@.states.contains_key(event.pid)
            &&& self@.states[event.pid] == self.states@[event.pid]@
        });
        match self.states.entry(event.pid) {
            Entry::Occupied(entry) => {
                entry.into_mut().ingest(event.ktime_ns);
            },
            Entry::Vacant(_) => {},
        }
        assert(self@ =~= old(self)@.dispatch(data@));
    }

    /// Takes in a batch of records, oldest first.
    pub fn poll_frames(&mut self, records: &Vec<Vec<u8>>)
        requires
            old(self).wf(),
        ensures
            final(self).wf(),
            final(self)@ == old(self)@.poll_frames(record_bytes(records@)),
    {
        let ghost all = record_bytes(records@);
        let mut i: usize = 0;
        while i < records.len()
            invariant
                i <= records.len(),
                all == record_bytes(records@),
                self.wf(),
                self@ == old(self)@.poll_frames(all.take(i as int)),
            decreases records.len() - i,
        {
            self.dispatch(records[i].as_slice());
            proof {
                assert(all.take(i + 1).drop_last() =~= all.take(i as int));
                assert(all.take(i + 1).last() == records@[i as int]@);
            }
            i = i + 1;
        }
        assert(all.take(i as int) =~= all);
    }

    /// The newest frame time of the current process in nanoseconds.
    pub fn latest_frametime(&self) -> (latest: Option<u64>)
        ensures
            latest == self@.latest(),
    {
        match self.states.get(&self.current_pid) {
            Some(state) => state.latest_frametime(),
            None => None,
        }
    }

    /// Whether there is a process of interest.
    pub fn has_active_probe(&self) -> (active: bool)
        ensures
            active == self@.has_active_probe(),
    {
        self.current_pid > 0
    }
}

/// The timestamps, oldest first, that a run of records holds for one process.
pub open spec fn timestamps_of(records: Seq<Seq<u8>>, pid: u32) -> Seq<u64>
    decreases records.len(),
{
    if records.len() == 0 {
        Seq::empty()
    } else {
        let earlier = timestamps_of(records.drop_last(), pid);
        match crate::event::decoded(records.last()) {
            Some(event) => if event.pid == pid {
                earlier.push(event.ktime_ns)
            } else {
                earlier
            },
            None => earlier,
        }
    }
}

/// What the attempts at the two symbols come to: the link, or the error that
/// ends the switch.
pub open spec fn attach_result<L, E>(
    short: AttachOutcome<L, E>,
    long: AttachOutcome<L, E>,
) -> Result<L, E> {
    match short {
        AttachOutcome::Linked(link) => Ok(link),
        AttachOutcome::NoProgram(error) => Err(error),
        AttachOutcome::Refused(_) => match long {
            AttachOutcome::Linked(link) => Ok(link),
            AttachOutcome::NoProgram(error) => Err(error),
            AttachOutcome::Refused(error) => Err(error),
        },
    }
}

/// A whole switch: every step that is asked for is carried out, with the given
/// outcomes, and reported back.
pub open spec fn whole_switch<L, E>(
    manager: ManagerModel<L>,
    new_pid: u32,
    detach: DetachOutcome<E>,
    short: AttachOutcome<L, E>,
    long: AttachOutcome<L, E>,
) -> (ManagerModel<L>, SwitchStep<L, E>) {
    let (m1, step1) = manager.switch_pid::<E>(new_pid);
    let (m2, step2) = match step1 {
        SwitchStep::Detach { link, pid } => (m1, m1.detached(pid, detach)),
        _ => (m1, step1),
    };
    let (m3, step3) = match step2 {
        SwitchStep::Attach { pid, symbol } => m2.attached(pid, symbol, short),
        _ => (m2, step2),
    };
    match step3 {
        SwitchStep::Attach { pid, symbol } => m3.attached(pid, symbol, long),
        _ => (m3, step3),
    }
}

/// What a switch comes to, whatever the outcomes of the outside work. Switching
/// to a process that is current and probed changes nothing. Otherwise the old
/// probe is given up in any case; then either the new process becomes the
/// current one, with the only probe and the only statistics, or the switch fails
/// with the error of the last attempt and the current process stays. A probe
/// that cannot be detached changes none of this. A switch that does not fail
/// leaves its process attached.
pub proof fn law_switch_outcome<L, E>(
    manager: ManagerModel<L>,
    new_pid: u32,
    detach: DetachOutcome<E>,
    short: AttachOutcome<L, E>,
    long: AttachOutcome<L, E>,
)
    requires
        manager.wf(),
        new_pid > 0,
    ensures
        ({
            let (after, step) = whole_switch(manager, new_pid, detach, short, long);
            let given_up = ManagerModel { links: Map::empty(), ..manager };
            &&& after.wf()
            &&& !(step is Failed) ==> {
                &&& after.current_pid == new_pid
                &&& after.links.contains_key(new_pid)
            }
            &&& if new_pid == manager.current_pid && manager.links.contains_key(new_pid) {
                after == manager && step == SwitchStep::<L, E>::Unchanged
            } else if manager.links.contains_key(manager.current_pid) && detach is NoProgram {
                after == given_up && step == (SwitchStep::<L, E>::Failed {
                    error: detach->NoProgram_0,
                })
            } else {
                match attach_result(short, long) {
                    Ok(link) => {
                        &&& step == SwitchStep::<L, E>::Switched { pid: new_pid }
                        &&& after.current_pid == new_pid
                        &&& after.links == Map::<u32, L>::empty().insert(new_pid, link)
                        &&& if new_pid == manager.current_pid {
                            after.states == manager.states
                        } else {
                            &&& !after.states.contains_key(manager.current_pid)
                            &&& after.states == Map::<u32, ProbeModel>::empty().insert(
                                new_pid,
                                ProbeModel::empty(),
                            )
                        }
                    },
                    Err(error) => after == given_up && step == SwitchStep::<L, E>::Failed {
                        error,
                    },
                }
            }
        }),
{
    let (m1, step1) = manager.switch_pid::<E>(new_pid);
    if !manager.settled_on(new_pid) {
        assert(m1.links =~= Map::empty());
        assert(new_pid != manager.current_pid ==> m1.states.remove(m1.current_pid)
            =~= Map::empty());
    }
}

/// A switch that fails keeps the frame statistics, and so does one that attaches
/// the current process again or finds it attached.
pub proof fn law_statistics_kept_without_change<L, E>(
    manager: ManagerModel<L>,
    new_pid: u32,
    detach: DetachOutcome<E>,
    short: AttachOutcome<L, E>,
    long: AttachOutcome<L, E>,
)
    requires
        manager.wf(),
        new_pid > 0,
        new_pid == manager.current_pid || whole_switch(
            manager,
            new_pid,
            detach,
            short,
            long,
        ).1 is Failed,
    ensures
        whole_switch(manager, new_pid, detach, short, long).0.states == manager.states,
        whole_switch(manager, new_pid, detach, short, long).0.latest() == manager.latest(),
{
    law_switch_outcome(manager, new_pid, detach, short, long);
}

/// A process that becomes the current one starts afresh: no frame time from an
/// earlier stay, or from an earlier bearer of its id, is reported.
pub proof fn law_new_process_starts_afresh<L, E>(
    manager: ManagerModel<L>,
    new_pid: u32,
    detach: DetachOutcome<E>,
    short: AttachOutcome<L, E>,
    long: AttachOutcome<L, E>,
)
    requires
        manager.wf(),
        new_pid > 0,
        new_pid != manager.current_pid,
        whole_switch(manager, new_pid, detach, short, long).1 is Switched,
    ensures
        whole_switch(manager, new_pid, detach, short, long).0.states[new_pid]
            == ProbeModel::empty(),
        whole_switch(manager, new_pid, detach, short, long).0.latest() is None,
{
    law_switch_outcome(manager, new_pid, detach, short, long);
}

/// After a failed switch away from a process, a switch back to it that does not
/// fail attaches it again.
pub proof fn law_switch_back_attaches_again<L, E>(
    manager: ManagerModel<L>,
    detach: DetachOutcome<E>,
    short: AttachOutcome<L, E>,
    long: AttachOutcome<L, E>,
)
    requires
        manager.wf(),
        manager.has_active_probe(),
        !manager.links.contains_key(manager.current_pid),
    ensures
        manager.switch_pid::<E>(manager.current_pid).1 == (SwitchStep::<L, E>::Attach {
            pid: manager.current_pid,
            symbol: ProbeSymbol::Short,
        }),
        ({
            let (after, step) = whole_switch(manager, manager.current_pid, detach, short, long);
            !(step is Failed) ==> after.links.contains_key(manager.current_pid)
        }),
{
    law_switch_outcome(manager, manager.current_pid, detach, short, long);
}

/// There is never more than one probe, and it belongs to the current process.
pub proof fn law_at_most_one_probe<L>(manager: ManagerModel<L>, a: u32, b: u32)
    requires
        manager.wf(),
        manager.links.contains_key(a),
        manager.links.contains_key(b),
    ensures
        a == b,
        a == manager.current_pid,
        manager.has_active_probe(),
{
}

/// Frame statistics are held of the current process and of no other.
pub proof fn law_statistics_of_current_process_only<L>(manager: ManagerModel<L>, pid: u32)
    requires
        manager.wf(),
    ensures
        manager.states.contains_key(pid) <==> pid == manager.current_pid && pid > 0,
{
}

/// Without a process of interest there is no frame time; and every frame time
/// that is reported is a plausible one.
pub proof fn law_reported_frametime_is_plausible<L>(manager: ManagerModel<L>)
    requires
        manager.wf(),
    ensures
        manager.latest() matches Some(delta_ns) ==> {
            &&& manager.has_active_probe()
            &&& crate::probe::is_frametime(delta_ns)
        },
{
}

/// A record that is too short, or that names a process of which no statistics
/// are held, changes nothing.
pub proof fn law_stray_record_is_dropped<L>(manager: ManagerModel<L>, record: Seq<u8>)
    requires
        record.len() < crate::event::EVENT_SIZE || (crate::event::decoded(record) matches Some(
            event,
        ) && !manager.states.contains_key(event.pid)),
    ensures
        manager.dispatch(record) == manager,
{
}

/// Records are told apart by process: after a batch, the statistics of each
/// process that has any are those that its own timestamps give, in order, and
/// nothing else has changed.
pub proof fn law_records_reach_their_process<L>(
    manager: ManagerModel<L>,
    records: Seq<Seq<u8>>,
    pid: u32,
)
    ensures
        manager.poll_frames(records).links == manager.links,
        manager.poll_frames(records).current_pid == manager.current_pid,
        manager.poll_frames(records).states.contains_key(pid) == manager.states.contains_key(pid),
        manager.states.contains_key(pid) ==> manager.poll_frames(records).states[pid]
            == manager.states[pid].ingest_all(timestamps_of(records, pid)),
    decreases records.len(),
{
    if records.len() > 0 {
        law_records_reach_their_process(manager, records.drop_last(), pid);
        match crate::event::decoded(records.last()) {
            Some(event) => {
                let earlier = timestamps_of(records.drop_last(), pid);
                law_records_reach_their_process(manager, records.drop_last(), event.pid);
                assert(earlier.push(event.ktime_ns).drop_last() =~= earlier);
            },
            None => {},
        }
    }
}

/// Two batches one after the other have the effect of the joined batch.
pub proof fn law_poll_in_batches<L>(
    manager: ManagerModel<L>,
    first: Seq<Seq<u8>>,
    second: Seq<Seq<u8>>,
)
    ensures
        manager.poll_frames(first + second) == manager.poll_frames(first).poll_frames(second),
    decreases second.len(),
{
    if second.len() == 0 {
        assert(first + second =~= first);
    } else {
        law_poll_in_batches(manager, first, second.drop_last());
        assert((first + second).drop_last() =~= first + second.drop_last());
    }
}

/// Batches of records keep the book-keeping in order.
pub proof fn law_poll_keeps_wf<L>(manager: ManagerModel<L>, records: Seq<Seq<u8>>)
    requires
        manager.wf(),
    ensures
        manager.poll_frames(records).wf(),
    decreases records.len(),
{
    if records.len() > 0 {
        law_poll_keeps_wf(manager, records.drop_last());
    }
}

/// The timestamps of a joined run of records are the joined timestamps.
pub proof fn law_timestamps_of_joined_records(
    first: Seq<Seq<u8>>,
    second: Seq<Seq<u8>>,
    pid: u32,
)
    ensures
        timestamps_of(first + second, pid) == timestamps_of(first, pid) + timestamps_of(
            second,
            pid,
        ),
    decreases second.len(),
{
    if second.len() == 0 {
        assert(first + second =~= first);
    } else {
        law_timestamps_of_joined_records(first, second.drop_last(), pid);
        assert((first + second).drop_last() =~= first + second.drop_last());
        assert(timestamps_of(first + second, pid) =~= timestamps_of(first, pid) + timestamps_of(
            second,
            pid,
        ));
    }
}

/// The book-keeping starts with nothing.
pub proof fn law_manager_starts_with_nothing<L>(pid: u32)
    ensures
        ManagerModel::<L>::empty().current_pid == 0,
        !ManagerModel::<L>::empty().links.contains_key(pid),
        !ManagerModel::<L>::empty().states.contains_key(pid),
{
}

/// There is a process of interest exactly when its id is not zero.
pub proof fn law_active_means_current_process<L>(manager: ManagerModel<L>)
    ensures
        manager.has_active_probe() <==> manager.current_pid != 0,
{
}

/// The frame time that is reported stands at the front of the current process's
/// window, and one is reported exactly when that window holds any.
pub proof fn law_reports_front_of_current_window<L>(manager: ManagerModel<L>)
    requires
        manager.wf(),
    ensures
        manager.latest() is Some <==> manager.current_pid != 0
            && manager.states[manager.current_pid].frametimes.len() > 0,
        manager.latest() matches Some(delta_ns) ==> delta_ns
            == manager.states[manager.current_pid].frametimes[0],
{
}

/// What the start of a switch asks for. A process that is current and probed
/// asks for nothing; a probe of another process is handed out for detaching and
/// is then no longer held; and without any probe the process is attached under
/// the short symbol. The current process and the statistics stay.
pub proof fn law_start_of_switch<L, E>(manager: ManagerModel<L>, new_pid: u32)
    requires
        manager.wf(),
        new_pid > 0,
    ensures
        ({
            let (next, step) = manager.switch_pid::<E>(new_pid);
            let held = manager.links.contains_key(manager.current_pid);
            &&& next.current_pid == manager.current_pid
            &&& next.states == manager.states
            &&& step is Unchanged <==> held && new_pid == manager.current_pid
            &&& step is Unchanged ==> next.links == manager.links
            &&& held && new_pid != manager.current_pid ==> step == SwitchStep::<L, E>::Detach {
                link: manager.links[manager.current_pid],
                pid: new_pid,
            }
            &&& !held ==> step == SwitchStep::<L, E>::Attach {
                pid: new_pid,
                symbol: ProbeSymbol::Short,
            }
            &&& !(step is Unchanged) ==> forall|pid: u32| !next.links.contains_key(pid)
        }),
{
}

/// While there is no current process, asking for none asks for nothing.
pub proof fn law_no_process_asks_for_nothing<L, E>(manager: ManagerModel<L>)
    requires
        manager.current_pid == 0,
    ensures
        manager.switch_pid::<E>(0) == (manager, SwitchStep::<L, E>::Unchanged),
{
}

/// After a detach, done or refused, the process that the switch is for is
/// attached under the short symbol; a missing program ends the switch with its
/// error.
pub proof fn law_detach_is_followed_by_attach<L, E>(manager: ManagerModel<L>, pid: u32, error: E)
    ensures
        manager.detached(pid, DetachOutcome::<E>::Detached) == (SwitchStep::<L, E>::Attach {
            pid,
            symbol: ProbeSymbol::Short,
        }),
        manager.detached(pid, DetachOutcome::<E>::Refused) == (SwitchStep::<L, E>::Attach {
            pid,
            symbol: ProbeSymbol::Short,
        }),
        manager.detached(pid, DetachOutcome::NoProgram(error)) == (SwitchStep::<L, E>::Failed {
            error,
        }),
{
}

/// A probe that could be attached, under either symbol, makes its process the
/// current one: its link is the only one held, and its statistics are the only
/// ones. They are kept if the process was current before and empty otherwise.
pub proof fn law_attached_process_is_current<L, E>(
    manager: ManagerModel<L>,
    pid: u32,
    symbol: ProbeSymbol,
    link: L,
)
    requires
        manager.wf(),
        forall|other: u32| !#[trigger] manager.links.contains_key(other),
        pid > 0,
    ensures
        ({
            let (next, step) = manager.attached(pid, symbol, AttachOutcome::<L, E>::Linked(link));
            &&& step == SwitchStep::<L, E>::Switched { pid }
            &&& next.current_pid == pid
            &&& next.links == Map::<u32, L>::empty().insert(pid, link)
            &&& forall|other: u32| #[trigger] next.states.contains_key(other) <==> other == pid
            &&& manager.current_pid == pid ==> next.states[pid] == manager.states[pid]
            &&& manager.current_pid != pid ==> {
                &&& next.states[pid].last_ktime_ns is None
                &&& next.states[pid].frametimes.len() == 0
            }
        }),
{
    assert(manager.links =~= Map::empty());
}

/// An attempt that failed changes nothing. A refused short symbol is followed by
/// the long one for the same process; anything else ends the switch with the
/// error of the attempt.
pub proof fn law_failed_attempt<L, E>(manager: ManagerModel<L>, pid: u32, error: E)
    ensures
        manager.attached(pid, ProbeSymbol::Short, AttachOutcome::<L, E>::Refused(error)) == (
            manager,
            SwitchStep::<L, E>::Attach { pid, symbol: ProbeSymbol::Long },
        ),
        manager.attached(pid, ProbeSymbol::Long, AttachOutcome::<L, E>::Refused(error)) == (
            manager,
            SwitchStep::<L, E>::Failed { error },
        ),
        forall|symbol: ProbeSymbol| #[trigger]
            manager.attached(pid, symbol, AttachOutcome::<L, E>::NoProgram(error)) == (
                manager,
                SwitchStep::<L, E>::Failed { error },
            ),
{
}

/// A record of the current process moves its window on by the record's
/// timestamp: a plausible interval since the timestamp before goes to the front,
/// any other leaves the window alone, and the timestamp is remembered. The
/// record changes nothing else.
pub proof fn law_record_moves_the_window<L>(
    manager: ManagerModel<L>,
    event: FrameTimestampEvent,
    padding: Seq<u8>,
    rest: Seq<u8>,
)
    requires
        manager.wf(),
        manager.current_pid == event.pid,
        event.pid > 0,
        padding.len() == 4,
    ensures
        ({
            let before = manager.states[event.pid];
            let next = manager.dispatch(crate::event::encoded(event, padding, rest));
            let now = next.states[event.pid];
            &&& next.links == manager.links
            &&& next.current_pid == manager.current_pid
            &&& next.states.dom() == manager.states.dom()
            &&& now.last_ktime_ns == Some(event.ktime_ns)
            &&& match before.last_ktime_ns {
                Some(last) => if last + crate::probe::MIN_FRAME_NS <= event.ktime_ns <= last
                    + crate::probe::MAX_FRAME_NS {
                    next.latest() == Some((event.ktime_ns - last) as u64)
                } else {
                    now.frametimes == before.frametimes
                },
                None => now.frametimes == before.frametimes,
            }
        }),
{
    crate::event::law_decode_inverts_encode(event, padding, rest);
    let next = manager.dispatch(crate::event::encoded(event, padding, rest));
    assert(next.states.dom() =~= manager.states.dom());
}

/// A batch of one record has the effect of the record, and an empty batch has
/// none.
pub proof fn law_batch_of_one<L>(manager: ManagerModel<L>, record: Seq<u8>)
    ensures
        manager.poll_frames(seq![record]) == manager.dispatch(record),
        manager.poll_frames(Seq::empty()) == manager,
{
    reveal_with_fuel(ManagerModel::poll_frames, 2);
    assert(seq![record].drop_last() =~= Seq::empty());
}

/// Every record of a batch is read, whole and in its place.
pub proof fn law_every_record_is_read(records: Seq<Vec<u8>>)
    ensures
        record_bytes(records).len() == records.len(),
        forall|i: int|
            0 <= i < records.len() ==> #[trigger] record_bytes(records)[i] == records[i]@,
{
}

} // verus!
