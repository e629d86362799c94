//! The restart-loop state machine.
//!
//! The supervisor owns the loop `spawn -> wait for exit -> (restart | stop)`.
//! The outside loop performs the blocking work (spawning, waiting, reading
//! the shared stop flag, appending the restart event to the log) and hands
//! the results in as plain values; the decisions and every update of the
//! shared [`RuntimeInfo`] snapshot happen here.
//!
//! At the specification level the same machine is a transition system over
//! [`Step`]s ([`step`], [`run`], [`valid_trace`]); the proof functions at the
//! bottom state the laws of the loop over whole traces.

use vstd::prelude::*;

use crate::info::RuntimeInfo;

verus! {

/// Where the restart loop stands between two of its transitions.
#[derive(Clone, Copy, Debug, PartialEq, Eq, Structural)]
pub enum Phase {
    /// No child is running and the loop is about to spawn one: before the
    /// initial launch, and again after each completed restart.
    Idle,
    /// A child was spawned and has not exited yet.
    Running,
    /// The child exited, the stop flag was down, and the restart is being
    /// logged before the next spawn.
    Restarting,
    /// The child exited while the stop flag was up; the loop is over.
    Stopped,
}

/// What the loop must do after a child exit.
#[derive(Clone, Copy, Debug, PartialEq, Eq, Structural)]
pub enum Decision {
    /// Append a restart event, count the restart, spawn again.
    Restart,
    /// Leave the loop; no event is appended for this terminal exit.
    Stop,
}

/// One transition of the restart loop, as the specification-level trace
/// model speaks of it.
pub enum Step {
    /// A child with the given pid was spawned at the given time.
    Spawn { pid: u32, now: u64 },
    /// The running child exited at the given time; `stop` is the value of
    /// the shared stop flag read right after the exit.
    Exit { now: u64, stop: bool },
    /// The restart event was appended to the log and the restart counted.
    LogRestart,
}

/// The supervisor: the shared snapshot plus the loop's own phase.
#[derive(Clone, Debug)]
pub struct Supervisor {
    /// The shared runtime snapshot, updated only here.
    pub info: RuntimeInfo,
    /// The loop phase, read only by the loop itself.
    pub phase: Phase,
}

/// Which steps the machine allows in a given state: spawns only from `Idle`
/// (and only of a real pid), exits only while `Running`, restart logging only
/// while `Restarting` and while the counter has room. Nothing at all is
/// allowed from `Stopped`.
pub open spec fn step_enabled(s: Supervisor, st: Step) -> bool {
    match st {
        Step::Spawn { pid, now: _ } => s.phase is Idle && pid != 0,
        Step::Exit { now: _, stop: _ } => s.phase is Running,
        Step::LogRestart => s.phase is Restarting && s.info.restarts < u32::MAX,
    }
}

/// The transition function of the loop, mirrored exactly by the executable
/// methods of [`Supervisor`].
pub open spec fn step(s: Supervisor, st: Step) -> Supervisor {
    match st {
        Step::Spawn { pid, now } => (Supervisor {
            info: (RuntimeInfo { pid, up: true, start_time: now, ..s.info }),
            phase: Phase::Running,
        }),
        Step::Exit { now, stop } => (Supervisor {
            info: (RuntimeInfo { up: false, last_restart: now, ..s.info }),
            phase: if stop {
                Phase::Stopped
            } else {
                Phase::Restarting
            },
        }),
        Step::LogRestart => (Supervisor {
            info: (RuntimeInfo { restarts: (s.info.restarts + 1) as u32, ..s.info }),
            phase: Phase::Idle,
        }),
    }
}

/// Every step of the trace is allowed in the state the earlier steps reach.
pub open spec fn valid_trace(s: Supervisor, tr: Seq<Step>) -> bool
    decreases tr.len(),
{
    tr.len() == 0 || (step_enabled(s, tr[0]) && valid_trace(step(s, tr[0]), tr.drop_first()))
}

/// The state after the whole trace.
pub open spec fn run(s: Supervisor, tr: Seq<Step>) -> Supervisor
    decreases tr.len(),
{
    if tr.len() == 0 {
        s
    } else {
        run(step(s, tr[0]), tr.drop_first())
    }
}

impl Supervisor {
    /// The machine's invariant: `up` says exactly that the loop is in its
    /// `Running` phase, and a running child's recorded pid is a real one.
    pub open spec fn wf(self) -> bool {
        &&& self.info.up <==> self.phase is Running
        &&& self.info.up ==> self.info.pid != 0
    }

    /// The state at supervisor startup, before the initial launch.
    pub open spec fn initial(hostname: String, own_pid: u32) -> Supervisor {
        Supervisor {
            info: (RuntimeInfo {
                hostname,
                pid: own_pid,
                up: false,
                start_time: 0,
                last_restart: 0,
                restarts: 0,
            }),
            phase: Phase::Idle,
        }
    }

    /// Build the startup state: no child yet, no restarts counted.
    pub fn new(hostname: String, own_pid: u32) -> (s: Supervisor)
        ensures
            s == Supervisor::initial(hostname, own_pid),
            s.wf(),
    {
        let s = Supervisor {
            info: RuntimeInfo::new(hostname, own_pid),
            phase: Phase::Idle,
        };
        assert(s =~= Supervisor::initial(s.info.hostname, own_pid));
        s
    }

    /// True when the loop may spawn the next child.
    pub fn can_spawn(&self) -> (r: bool)
        ensures
            r == (self.phase is Idle),
    {
        match self.phase {
            Phase::Idle => true,
            _ => false,
        }
    }

    /// True while a spawned child has not exited yet.
    pub fn is_running(&self) -> (r: bool)
        ensures
            r == (self.phase is Running),
    {
        match self.phase {
            Phase::Running => true,
            _ => false,
        }
    }

    /// True when the loop owes a restart event and its bookkeeping.
    pub fn can_record_restart(&self) -> (r: bool)
        ensures
            r == (self.phase is Restarting && self.info.restarts < u32::MAX),
    {
        match self.phase {
            Phase::Restarting => self.info.restarts < u32::MAX,
            _ => false,
        }
    }

    /// A child was spawned: record its pid and spawn time and raise `up`,
    /// atomically as far as readers of the snapshot are concerned.
    pub fn on_spawned(&mut self, child_pid: u32, now: u64)
        requires
            old(self).wf(),
            old(self).phase is Idle,
            child_pid != 0,
        ensures
            *final(self) == step(*old(self), Step::Spawn { pid: child_pid, now }),
            final(self).wf(),
            final(self).info.up,
            final(self).info.pid == child_pid,
            final(self).info.start_time == now,
            final(self).phase is Running,
            final(self).info.hostname == old(self).info.hostname,
            final(self).info.last_restart == old(self).info.last_restart,
            final(self).info.restarts == old(self).info.restarts,
    {
        self.info.record_spawn(child_pid, now);
        self.phase = Phase::Running;
        assert(*self =~= step(*old(self), Step::Spawn { pid: child_pid, now }));
    }

    /// The running child exited: drop `up`, record the exit time, and decide
    /// from the stop flag whether the loop restarts or ends. The exit status
    /// of the child plays no part in the decision.
    pub fn on_exited(&mut self, now: u64, stop: bool) -> (d: Decision)
        requires
            old(self).wf(),
            old(self).phase is Running,
        ensures
            *final(self) == step(*old(self), Step::Exit { now, stop }),
            final(self).wf(),
            !final(self).info.up,
            final(self).info.last_restart == now,
            (d is Stop) == stop,
            stop ==> final(self).phase is Stopped,
            !stop ==> final(self).phase is Restarting,
            final(self).info.hostname == old(self).info.hostname,
            final(self).info.pid == old(self).info.pid,
            final(self).info.start_time == old(self).info.start_time,
            final(self).info.restarts == old(self).info.restarts,
    {
        self.info.record_exit(now);
        let d: Decision;
        if stop {
            self.phase = Phase::Stopped;
            d = Decision::Stop;
        } else {
            self.phase = Phase::Restarting;
            d = Decision::Restart;
        }
        assert(*self =~= step(*old(self), Step::Exit { now, stop }));
        d
    }

    /// The restart event was appended to the log: count the completed
    /// restart and return to `Idle`, ready for the next spawn. The initial
    /// launch never passes through here, so it is never counted.
    pub fn on_restart_logged(&mut self)
        requires
            old(self).wf(),
            old(self).phase is Restarting,
            old(self).info.restarts < u32::MAX,
        ensures
            *final(self) == step(*old(self), Step::LogRestart),
            final(self).wf(),
            final(self).info.restarts == old(self).info.restarts + 1,
            final(self).phase is Idle,
            final(self).info.hostname == old(self).info.hostname,
            final(self).info.pid == old(self).info.pid,
            final(self).info.up == old(self).info.up,
            final(self).info.start_time == old(self).info.start_time,
            final(self).info.last_restart == old(self).info.last_restart,
    {
        self.info.record_restart();
        self.phase = Phase::Idle;
        assert(*self =~= step(*old(self), Step::LogRestart));
    }
}

/// Whether the step records a child exit.
pub open spec fn is_exit(st: Step) -> bool {
    match st {
        Step::Exit { .. } => true,
        _ => false,
    }
}

/// Whether the step records a child exit that saw the stop flag up.
pub open spec fn is_stop_exit(st: Step) -> bool {
    match st {
        Step::Exit { now: _, stop } => stop,
        _ => false,
    }
}

/// Whether the step spawns a child.
pub open spec fn is_spawn(st: Step) -> bool {
    match st {
        Step::Spawn { .. } => true,
        _ => false,
    }
}

/// How many child exits the trace records.
pub open spec fn count_exits(tr: Seq<Step>) -> nat
    decreases tr.len(),
{
    if tr.len() == 0 {
        0
    } else {
        (if is_exit(tr[0]) {
            1nat
        } else {
            0nat
        }) + count_exits(tr.drop_first())
    }
}

/// One exit has happened whose restart bookkeeping is still owed.
pub open spec fn pending_restarts(s: Supervisor) -> nat {
    if s.phase is Restarting {
        1
    } else {
        0
    }
}

/// Every allowed step takes a well-formed state to a well-formed state.
pub proof fn lemma_step_preserves_wf(s: Supervisor, st: Step)
    requires
        s.wf(),
        step_enabled(s, st),
    ensures
        step(s, st).wf(),
{
}

/// A whole valid trace keeps the machine well-formed.
pub proof fn lemma_run_preserves_wf(s: Supervisor, tr: Seq<Step>)
    requires
        s.wf(),
        valid_trace(s, tr),
    ensures
        run(s, tr).wf(),
    decreases tr.len(),
{
    if tr.len() > 0 {
        lemma_step_preserves_wf(s, tr[0]);
        lemma_run_preserves_wf(step(s, tr[0]), tr.drop_first());
    }
}

/// Every prefix of a valid trace is valid, and the next step after a prefix
/// is allowed in the state the prefix reaches.
pub proof fn lemma_valid_prefix(s: Supervisor, tr: Seq<Step>, i: int)
    requires
        valid_trace(s, tr),
        0 <= i <= tr.len(),
    ensures
        valid_trace(s, tr.take(i)),
        i < tr.len() ==> step_enabled(run(s, tr.take(i)), tr[i]),
        i < tr.len() ==> run(s, tr.take(i + 1)) == step(run(s, tr.take(i)), tr[i]),
    decreases tr.len(),
{
    if tr.len() == 0 {
        assert(tr.take(i) =~= tr);
    } else if i == 0 {
        assert(tr.take(0) =~= Seq::<Step>::empty());
        assert(run(s, tr.take(0)) == s);
        assert(tr.take(1).len() == 1);
        assert(tr.take(1)[0] == tr[0]);
        assert(tr.take(1).drop_first() =~= Seq::<Step>::empty());
        assert(run(s, tr.take(1)) == run(step(s, tr[0]), tr.take(1).drop_first()));
        assert(run(step(s, tr[0]), tr.take(1).drop_first()) == step(s, tr[0]));
        assert(run(s, tr.take(1)) == step(run(s, tr.take(0)), tr[0]));
    } else {
        let s1 = step(s, tr[0]);
        let tl = tr.drop_first();
        lemma_valid_prefix(s1, tl, i - 1);
        assert(tr.take(i)[0] == tr[0]);
        assert(tr.take(i).drop_first() =~= tl.take(i - 1));
        assert(valid_trace(s, tr.take(i)));
        if i < tr.len() {
            assert(tl[i - 1] == tr[i]);
            assert(run(s, tr.take(i)) == run(s1, tl.take(i - 1)));
            assert(tr.take(i + 1)[0] == tr[0]);
            assert(tr.take(i + 1).drop_first() =~= tl.take(i));
            assert(run(s, tr.take(i + 1)) == run(s1, tl.take(i)));
        }
    }
}

/// Law: while the stop flag stays down, the restart counter moves in lock
/// step with the child exits — up by exactly one per exit, once the exit's
/// bookkeeping is done, and never on a spawn. `pending_restarts` carries the
/// single exit whose bookkeeping is still in flight.
pub proof fn lemma_restarts_track_exits(s: Supervisor, tr: Seq<Step>)
    requires
        valid_trace(s, tr),
        !(s.phase is Stopped),
        forall|k: int| 0 <= k < tr.len() ==> !is_stop_exit(#[trigger] tr[k]),
    ensures
        run(s, tr).info.restarts + pending_restarts(run(s, tr)) == s.info.restarts
            + pending_restarts(s) + count_exits(tr),
        !(run(s, tr).phase is Stopped),
    decreases tr.len(),
{
    if tr.len() > 0 {
        let s1 = step(s, tr[0]);
        let tl = tr.drop_first();
        assert(forall|k: int| 0 <= k < tl.len() ==> !is_stop_exit(#[trigger] tl[k])) by {
            assert(forall|k: int| 0 <= k < tl.len() ==> tl[k] == tr[k + 1]);
        }
        assert(!is_stop_exit(tr[0]));
        lemma_restarts_track_exits(s1, tl);
    }
}

/// Law: starting from the startup state, once the loop is not in the middle
/// of restart bookkeeping, `restarts` equals the number of child exits seen
/// so far — in particular it is still zero after the initial launch alone.
pub proof fn lemma_restart_counter(hostname: String, own_pid: u32, tr: Seq<Step>)
    requires
        valid_trace(Supervisor::initial(hostname, own_pid), tr),
        forall|k: int| 0 <= k < tr.len() ==> !is_stop_exit(#[trigger] tr[k]),
        !(run(Supervisor::initial(hostname, own_pid), tr).phase is Restarting),
    ensures
        run(Supervisor::initial(hostname, own_pid), tr).info.restarts == count_exits(tr),
{
    lemma_restarts_track_exits(Supervisor::initial(hostname, own_pid), tr);
}

/// Law: while the spawned child has not exited, nothing moves — `up` stays
/// true and `pid` stays the spawned child's id. From `Running` the only
/// allowed step is the child's own exit, so a valid trace without an exit is
/// empty and the state is untouched.
pub proof fn lemma_up_until_exit(s: Supervisor, tr: Seq<Step>)
    requires
        s.wf(),
        s.phase is Running,
        valid_trace(s, tr),
        forall|k: int| 0 <= k < tr.len() ==> !is_exit(#[trigger] tr[k]),
    ensures
        tr.len() == 0,
        run(s, tr) == s,
        run(s, tr).info.up,
{
    if tr.len() > 0 {
        assert(step_enabled(s, tr[0]));
        assert(is_exit(tr[0]));
    }
}

/// Law: a child exit recorded at a time no earlier than the spawn of the
/// same cycle leaves `up` false and `last_restart` at or after `start_time`.
/// (A wall clock that runs backwards between the two readings is the one
/// case left out.)
pub proof fn lemma_exit_after_start(s: Supervisor, now: u64, stop: bool)
    requires
        s.phase is Running,
        now >= s.info.start_time,
    ensures
        !step(s, Step::Exit { now, stop }).info.up,
        step(s, Step::Exit { now, stop }).info.last_restart >= step(
            s,
            Step::Exit { now, stop },
        ).info.start_time,
{
}

/// Law: an exit that sees the stop flag up ends the loop for good: the
/// machine is `Stopped`, `up` is false, and no step of any kind — in
/// particular no further spawn — is allowed afterwards, so every valid
/// continuation is empty.
pub proof fn lemma_stop_is_terminal(s: Supervisor, now: u64, tr: Seq<Step>)
    requires
        s.phase is Running,
        valid_trace(step(s, Step::Exit { now, stop: true }), tr),
    ensures
        step(s, Step::Exit { now, stop: true }).phase is Stopped,
        !step(s, Step::Exit { now, stop: true }).info.up,
        tr.len() == 0,
        run(step(s, Step::Exit { now, stop: true }), tr) == step(
            s,
            Step::Exit { now, stop: true },
        ),
{
    let t = step(s, Step::Exit { now, stop: true });
    if tr.len() > 0 {
        assert(step_enabled(t, tr[0]));
    }
}

/// Law: no reader of the snapshot ever sees a half-applied update. In every
/// state the machine can reach from startup, `up` never stands beside a pid
/// of zero, and a nonzero `start_time` with `up` down only appears once some
/// child exit has in fact occurred.
pub proof fn lemma_snapshots_consistent(hostname: String, own_pid: u32, tr: Seq<Step>, i: int)
    requires
        valid_trace(Supervisor::initial(hostname, own_pid), tr),
        0 <= i <= tr.len(),
    ensures
        run(Supervisor::initial(hostname, own_pid), tr.take(i)).info.up ==> run(
            Supervisor::initial(hostname, own_pid),
            tr.take(i),
        ).info.pid != 0,
        (!run(Supervisor::initial(hostname, own_pid), tr.take(i)).info.up && run(
            Supervisor::initial(hostname, own_pid),
            tr.take(i),
        ).info.start_time != 0) ==> exists|k: int| 0 <= k < i && is_exit(#[trigger] tr[k]),
    decreases i,
{
    let s0 = Supervisor::initial(hostname, own_pid);
    lemma_valid_prefix(s0, tr, i);
    lemma_run_preserves_wf(s0, tr.take(i));
    if i > 0 {
        lemma_snapshots_consistent(hostname, own_pid, tr, i - 1);
        lemma_valid_prefix(s0, tr, i - 1);
        let prev = run(s0, tr.take(i - 1));
        assert(run(s0, tr.take(i)) == step(prev, tr[i - 1]));
        let cur = run(s0, tr.take(i));
        if !cur.info.up && cur.info.start_time != 0 {
            match tr[i - 1] {
                Step::Spawn { .. } => {
                    assert(cur.info.up);
                },
                Step::Exit { .. } => {
                    assert(is_exit(tr[i - 1]));
                },
                Step::LogRestart => {
                    assert(!prev.info.up && prev.info.start_time != 0);
                    let k = choose|k: int| 0 <= k < i - 1 && is_exit(#[trigger] tr[k]);
                    assert(0 <= k < i && is_exit(tr[k]));
                },
            }
        }
    }
}

} // verus!
