//! The restart loop driven through whole scenarios.

use forever::supervisor::Decision;
use forever::Supervisor;

#[test]
fn initial_snapshot() {
    let s = Supervisor::new(String::from("box"), 77);
    assert_eq!(s.info.hostname, "box");
    assert_eq!(s.info.pid, 77);
    assert!(!s.info.up);
    assert_eq!(s.info.start_time, 0);
    assert_eq!(s.info.last_restart, 0);
    assert_eq!(s.info.restarts, 0);
    assert!(s.can_spawn());
    assert!(!s.is_running());
    assert!(!s.can_record_restart());
}

#[test]
fn one_sleep_cycle_restarts_once() {
    // A short-lived command, no signal: after its exit one restart event is
    // owed, the counter reads one, and the loop relaunches.
    let cmd = vec![String::from("sleep"), String::from("1")];
    let mut s = Supervisor::new(String::from("box"), 77);

    assert!(s.can_spawn());
    s.on_spawned(100, 1_000);
    assert!(s.info.up);
    assert_eq!(s.info.pid, 100);
    assert_eq!(s.info.start_time, 1_000);
    assert_eq!(s.info.restarts, 0);

    let d = s.on_exited(2_005, false);
    assert_eq!(d, Decision::Restart);
    assert!(!s.info.up);
    assert_eq!(s.info.last_restart, 2_005);
    assert_eq!(s.info.restarts, 0);

    assert_eq!(
        forever::restart_message(&cmd),
        "Command exited, restarting: sleep 1"
    );
    assert!(s.can_record_restart());
    s.on_restart_logged();
    assert_eq!(s.info.restarts, 1);

    assert!(s.can_spawn());
    s.on_spawned(101, 2_050);
    assert!(s.info.up);
    assert_eq!(s.info.pid, 101);
}

#[test]
fn failing_command_restarts_every_time() {
    // A command that exits immediately with a nonzero status: the exit
    // status plays no part, so after n exits the counter reads n.
    let mut s = Supervisor::new(String::from("box"), 77);
    let n: u32 = 5;
    for k in 0..n {
        s.on_spawned(200 + k, 1_000 + u64::from(k));
        let d = s.on_exited(1_001 + u64::from(k), false);
        assert_eq!(d, Decision::Restart);
        s.on_restart_logged();
        assert_eq!(s.info.restarts, k + 1);
    }
    assert_eq!(s.info.restarts, n);
    assert!(s.can_spawn());
}

#[test]
fn stop_flag_ends_loop_after_current_child() {
    // The signal arrives while the child runs: nothing changes until the
    // child's own exit, then the loop stops with no restart bookkeeping.
    let mut s = Supervisor::new(String::from("box"), 77);
    s.on_spawned(300, 5_000);

    // The watcher set the stop flag here; the supervisor state is untouched
    // and the child keeps running.
    assert!(s.info.up);
    assert_eq!(s.info.pid, 300);

    let d = s.on_exited(6_000, true);
    assert_eq!(d, Decision::Stop);
    assert!(!s.info.up);
    assert_eq!(s.info.last_restart, 6_000);
    assert_eq!(s.info.restarts, 0);
    assert!(!s.can_spawn());
    assert!(!s.is_running());
    assert!(!s.can_record_restart());
}

#[test]
fn exit_time_not_before_start_time() {
    let mut s = Supervisor::new(String::from("box"), 77);
    s.on_spawned(400, 10_000);
    s.on_exited(10_400, false);
    assert!(s.info.last_restart >= s.info.start_time);
}

#[test]
fn stop_on_later_cycle_keeps_earlier_restarts() {
    let mut s = Supervisor::new(String::from("box"), 77);
    s.on_spawned(500, 1_000);
    assert_eq!(s.on_exited(1_100, false), Decision::Restart);
    s.on_restart_logged();
    s.on_spawned(501, 1_200);
    assert_eq!(s.on_exited(1_300, true), Decision::Stop);
    assert_eq!(s.info.restarts, 1);
    assert!(!s.info.up);
    assert!(!s.can_spawn());
}

#[test]
fn snapshot_never_shows_up_with_zero_pid() {
    let mut s = Supervisor::new(String::from("box"), 0);
    // Before any spawn the snapshot is down, whatever pid it carries.
    assert!(!s.info.up);
    s.on_spawned(600, 1_000);
    assert!(s.info.up && s.info.pid != 0);
    s.on_exited(1_500, false);
    assert!(!s.info.up);
}
