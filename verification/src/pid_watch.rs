//! Watching which process is in the foreground.

use vstd::prelude::*;

verus! {

/// Time in milliseconds between two looks at the foreground process.
pub const PID_WATCH_INTERVAL_MS: u64 = 500;

/// A change of the foreground process that is to be published.
#[derive(Clone, Copy, Debug, PartialEq, Eq, Structural)]
pub struct PidChange {
    pub old: i32,
    pub new: i32,
}

/// The change that a look at the foreground process amounts to: none while the
/// process stays the same, and none while there is no process.
pub open spec fn change(last_pid: i32, pid: i32) -> Option<PidChange> {
    if pid != last_pid && pid > 0 {
        Some(PidChange { old: last_pid, new: pid })
    } else {
        None
    }
}

/// The process that is remembered after a look at the foreground process.
pub open spec fn remembered(last_pid: i32, pid: i32) -> i32 {
    if pid > 0 {
        pid
    } else {
        last_pid
    }
}

/// The process that is remembered after a run of looks.
pub open spec fn remembered_after(initial_pid: i32, looks: Seq<i32>) -> i32
    decreases looks.len(),
{
    if looks.len() == 0 {
        initial_pid
    } else {
        remembered(remembered_after(initial_pid, looks.drop_last()), looks.last())
    }
}

/// The processes that are published in the course of a run of looks.
pub open spec fn published(initial_pid: i32, looks: Seq<i32>) -> Seq<i32>
    decreases looks.len(),
{
    if looks.len() == 0 {
        Seq::empty()
    } else {
        let earlier = published(initial_pid, looks.drop_last());
        match change(remembered_after(initial_pid, looks.drop_last()), looks.last()) {
            Some(change) => earlier.push(change.new),
            None => earlier,
        }
    }
}

/// Remembers the foreground process and tells when it changes.
pub struct PidWatcher {
    last_pid: i32,
}

impl View for PidWatcher {
    type V = i32;

    closed spec fn view(&self) -> i32 {
        self.last_pid
    }
}

impl PidWatcher {
    /// Starts from the process that is in the foreground now; not positive if
    /// there is none.
    pub fn new(initial_pid: i32) -> (watcher: Self)
        ensures
            watcher@ == initial_pid,
    {
        PidWatcher { last_pid: initial_pid }
    }

    /// Takes in a look at the foreground process.
    pub fn observe(&mut self, pid: i32) -> (result: Option<PidChange>)
        ensures
            result == change(old(self)@, pid),
            final(self)@ == remembered(old(self)@, pid),
    {
        if pid != self.last_pid && pid > 0 {
            let old_pid: i32 = self.last_pid;
            self.last_pid = pid;
            Some(PidChange { old: old_pid, new: pid })
        } else {
            None
        }
    }
}

/// Only real processes are published, and never the one that was published just
/// before. The one that was in the foreground at the start counts as published.
pub proof fn law_published_pids_are_real_changes(initial_pid: i32, looks: Seq<i32>)
    ensures
        forall|i: int|
            0 <= i < published(initial_pid, looks).len() ==> #[trigger] published(
                initial_pid,
                looks,
            )[i] > 0,
        forall|i: int|
            #![trigger published(initial_pid, looks)[i]]
            1 <= i < published(initial_pid, looks).len() ==> published(initial_pid, looks)[i]
                != published(initial_pid, looks)[i - 1],
        published(initial_pid, looks).len() > 0 ==> published(initial_pid, looks)[0]
            != initial_pid,
    decreases looks.len(),
{
    if looks.len() > 0 {
        law_published_pids_are_real_changes(initial_pid, looks.drop_last());
        law_last_published_pid_is_current(initial_pid, looks.drop_last());
    }
}

/// Nothing is missed: the process that was published last, or the one from the
/// start if none was, is the last real process that a look has found.
pub proof fn law_last_published_pid_is_current(initial_pid: i32, looks: Seq<i32>)
    ensures
        remembered_after(initial_pid, looks) == if published(initial_pid, looks).len() == 0 {
            initial_pid
        } else {
            published(initial_pid, looks).last()
        },
        looks.len() > 0 && looks.last() > 0 ==> remembered_after(initial_pid, looks)
            == looks.last(),
    decreases looks.len(),
{
    if looks.len() > 0 {
        law_last_published_pid_is_current(initial_pid, looks.drop_last());
    }
}

/// A look publishes a change exactly when it finds a real process that is not
/// the remembered one, and the change names both.
pub proof fn law_change_names_both_processes(last_pid: i32, pid: i32)
    ensures
        change(last_pid, pid) is Some <==> pid > 0 && pid != last_pid,
        change(last_pid, pid) matches Some(change) ==> {
            &&& change.old == last_pid
            &&& change.new == pid
        },
{
}

/// What is remembered changes with what is published, and only then.
pub proof fn law_remembers_what_it_published(last_pid: i32, pid: i32)
    ensures
        change(last_pid, pid) is Some ==> remembered(last_pid, pid) == pid,
        change(last_pid, pid) is None ==> remembered(last_pid, pid) == last_pid,
{
}

/// Looking twice at the same process publishes it once at most, and a look that
/// finds no process in between makes no difference.
pub proof fn law_second_look_is_silent(last_pid: i32, pid: i32, none: i32)
    requires
        none <= 0,
    ensures
        change(remembered(last_pid, pid), pid) is None,
        change(remembered(last_pid, none), pid) == change(last_pid, pid),
{
}

} // verus!
