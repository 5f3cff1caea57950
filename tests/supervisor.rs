use daebot::supervisor::{Liveness, Status, Supervisor, SupervisorError, WorkerHandle};

struct FakeWorker {
    id: u32,
    alive: bool,
}

impl WorkerHandle for FakeWorker {
    fn probe(&mut self) -> Liveness {
        if self.alive {
            Liveness::Alive
        } else {
            Liveness::Exited
        }
    }
}

fn started(id: u32, alive: bool) -> Supervisor<FakeWorker> {
    let mut sup = Supervisor::new();
    assert_eq!(sup.check_start(), Ok(()));
    sup.record_started(FakeWorker { id, alive });
    sup
}

#[test]
fn new_supervisor_is_stopped() {
    let sup: Supervisor<FakeWorker> = Supervisor::new();
    assert_eq!(sup.status(), Status::Stopped);
    assert!(!sup.holds_handle());
    assert_eq!(Status::Stopped.label(), "stopped");
    assert_eq!(Status::Running.label(), "running");
    assert_eq!(Status::Stopping.label(), "stopping");
}

#[test]
fn second_start_fails_already_running() {
    let sup = started(7, true);
    assert_eq!(sup.status(), Status::Running);
    assert_eq!(sup.check_start(), Err(SupervisorError::AlreadyRunning));
    // only the first worker's handle is held
    assert!(sup.holds_handle());
}

#[test]
fn start_while_stopping_fails() {
    let mut sup = started(7, true);
    let h = sup.begin_stop(1_000).unwrap();
    assert_eq!(h.id, 7);
    assert_eq!(sup.status(), Status::Stopping);
    assert_eq!(sup.check_start(), Err(SupervisorError::AlreadyRunning));
}

#[test]
fn stop_on_stopped_fails_not_running() {
    let mut sup: Supervisor<FakeWorker> = Supervisor::new();
    assert!(matches!(sup.begin_stop(1_000), Err(SupervisorError::NotRunning)));
    assert_eq!(sup.status(), Status::Stopped);
    assert!(!sup.holds_handle());
}

#[test]
fn stop_then_finish_reaches_stopped() {
    let mut sup = started(3, true);
    let h = sup.begin_stop(1_000).unwrap();
    assert_eq!(h.id, 3);
    assert!(!sup.holds_handle());
    assert!(matches!(sup.begin_stop(1_000), Err(SupervisorError::NotRunning)));
    sup.finish_stop();
    assert_eq!(sup.status(), Status::Stopped);
    assert_eq!(sup.check_start(), Ok(()));
}

#[test]
fn finish_stop_keeps_a_worker_started_meanwhile() {
    let mut sup = started(1, true);
    let _old = sup.begin_stop(1_000).unwrap();
    assert_eq!(sup.observe(Liveness::Alive), Status::Stopped);
    sup.record_started(FakeWorker { id: 2, alive: true });
    sup.finish_stop();
    assert_eq!(sup.status(), Status::Running);
    assert!(sup.holds_handle());
}

#[test]
fn poll_is_idempotent_while_alive() {
    let mut sup = started(5, true);
    assert_eq!(sup.poll_status(), Status::Running);
    assert_eq!(sup.poll_status(), Status::Running);
    assert_eq!(sup.poll_status(), Status::Running);
    assert!(sup.holds_handle());
}

#[test]
fn poll_drops_handle_of_exited_worker() {
    let mut sup = started(5, false);
    assert_eq!(sup.poll_status(), Status::Stopped);
    assert!(!sup.holds_handle());
    assert_eq!(sup.poll_status(), Status::Stopped);
    assert!(!sup.holds_handle());
}

#[test]
fn poll_without_handle_reports_stopped() {
    let mut sup: Supervisor<FakeWorker> = Supervisor::new();
    assert_eq!(sup.poll_status(), Status::Stopped);
    let mut sup = started(9, true);
    sup.begin_stop(1_000).unwrap();
    assert_eq!(sup.poll_status(), Status::Stopped);
}

#[test]
fn failed_probe_counts_as_exited() {
    let mut sup = started(4, true);
    assert_eq!(sup.observe(Liveness::Unknown), Status::Stopped);
    assert!(!sup.holds_handle());
}

#[test]
fn shutdown_now_returns_handle_and_stops() {
    let mut sup = started(11, true);
    let h = sup.shutdown_now();
    assert_eq!(h.map(|w| w.id), Some(11));
    assert_eq!(sup.status(), Status::Stopped);
    assert!(sup.shutdown_now().is_none());
}

#[test]
fn time_in_stopping_is_reported() {
    let mut sup = started(8, true);
    assert_eq!(sup.stopping_for(5_000), None);
    sup.begin_stop(1_000).unwrap();
    assert_eq!(sup.stopping_for(1_000), Some(0));
    assert_eq!(sup.stopping_for(4_500), Some(3_500));
    assert_eq!(sup.stopping_for(10), Some(0));
    sup.finish_stop();
    assert_eq!(sup.stopping_for(9_000), None);
}
