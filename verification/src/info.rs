//! The shared runtime snapshot of the supervised child.

use vstd::prelude::*;

verus! {

/// Point-in-time status of the supervised child, shared with concurrent
/// readers (a status endpoint) while the restart loop is the only writer.
///
/// `pid` and `start_time` are meaningful only while `up` is true; `restarts`
/// counts completed restart cycles (not the initial launch); `hostname` is
/// set once at construction and never changes afterwards.
#[derive(Clone, Debug)]
pub struct RuntimeInfo {
    /// Name of the machine running the supervisor; immutable after construction.
    pub hostname: String,
    /// OS process id of the supervised child (the supervisor's own id before
    /// the first spawn).
    pub pid: u32,
    /// True while the current child is running.
    pub up: bool,
    /// Milliseconds since epoch of the most recent child spawn.
    pub start_time: u64,
    /// Milliseconds since epoch of the most recent child exit.
    pub last_restart: u64,
    /// Number of completed restarts; never incremented on the initial launch.
    pub restarts: u32,
}

impl RuntimeInfo {
    /// The snapshot as created at supervisor startup: no child yet,
    /// no restarts, the supervisor's own pid on record.
    pub fn new(hostname: String, own_pid: u32) -> (r: RuntimeInfo)
        ensures
            r.hostname == hostname,
            r.pid == own_pid,
            !r.up,
            r.start_time == 0,
            r.last_restart == 0,
            r.restarts == 0,
    {
        RuntimeInfo { hostname, pid: own_pid, up: false, start_time: 0, last_restart: 0, restarts: 0 }
    }

    /// Record a successful child spawn: the child's pid, `up`, and the spawn
    /// time change together; everything else is untouched.
    pub fn record_spawn(&mut self, child_pid: u32, now: u64)
        ensures
            final(self).pid == child_pid,
            final(self).up,
            final(self).start_time == now,
            final(self).hostname == old(self).hostname,
            final(self).last_restart == old(self).last_restart,
            final(self).restarts == old(self).restarts,
    {
        self.pid = child_pid;
        self.up = true;
        self.start_time = now;
    }

    /// Record a child exit: `up` falls and the exit time is kept; the pid and
    /// spawn time of the finished cycle stay readable, everything else is
    /// untouched.
    pub fn record_exit(&mut self, now: u64)
        ensures
            !final(self).up,
            final(self).last_restart == now,
            final(self).hostname == old(self).hostname,
            final(self).pid == old(self).pid,
            final(self).start_time == old(self).start_time,
            final(self).restarts == old(self).restarts,
    {
        self.up = false;
        self.last_restart = now;
    }

    /// Count one completed restart; nothing else changes.
    pub fn record_restart(&mut self)
        requires
            old(self).restarts < u32::MAX,
        ensures
            final(self).restarts == old(self).restarts + 1,
            final(self).hostname == old(self).hostname,
            final(self).pid == old(self).pid,
            final(self).up == old(self).up,
            final(self).start_time == old(self).start_time,
            final(self).last_restart == old(self).last_restart,
    {
        self.restarts = self.restarts + 1;
    }
}

} // verus!
