//! The process supervisor: one owned slot for the worker's handle and the
//! lifecycle label `Stopped -> Running -> Stopping -> Stopped`.
//!
//! The supervisor never touches the operating system itself. The shell holds it
//! behind one lock, performs the launch, liveness probe and kill that a
//! transition calls for, and reports the outcome back through these methods.

use vstd::prelude::*;

verus! {

/// Lifecycle label of the supervised worker.
#[derive(Clone, Copy, Debug, PartialEq, Eq, Structural)]
pub enum Status {
    Stopped,
    Running,
    Stopping,
}

/// What a non-blocking liveness check of the worker observed.
#[derive(Clone, Copy, Debug, PartialEq, Eq, Structural)]
pub enum Liveness {
    /// The worker is still running.
    Alive,
    /// The worker has exited on its own.
    Exited,
    /// The check itself failed; the handle is treated as gone.
    Unknown,
}

/// Errors of the supervisor's own transitions.
#[derive(Clone, Copy, Debug, PartialEq, Eq, Structural)]
pub enum SupervisorError {
    /// `start` while the worker is running or still being stopped.
    AlreadyRunning,
    /// `stop` while no handle is held.
    NotRunning,
}

impl Status {
    /// The label as the UI displays it.
    pub fn label(&self) -> (r: &'static str)
        ensures
            r@ == status_label(*self),
    {
        match self {
            Status::Stopped => "stopped",
            Status::Running => "running",
            Status::Stopping => "stopping",
        }
    }
}

pub open spec fn status_label(s: Status) -> Seq<char> {
    match s {
        Status::Stopped => "stopped"@,
        Status::Running => "running"@,
        Status::Stopping => "stopping"@,
    }
}

/// A worker handle that can be checked for liveness without blocking.
pub trait WorkerHandle {
    /// Non-blocking check whether the worker has exited.
    fn probe(&mut self) -> Liveness;
}

/// The label that a poll reports, given whether a handle is held and what the
/// liveness check of that handle observed.
pub open spec fn polled_status(held: bool, seen: Liveness) -> Status {
    if held && seen == Liveness::Alive {
        Status::Running
    } else {
        Status::Stopped
    }
}

/// Polling is idempotent: once a poll has reported a label, a second poll that
/// observes the same liveness reports the same label, and the handle that the
/// first poll kept (if any) stays in the slot.
pub proof fn lemma_poll_idempotent(held: bool, seen: Liveness)
    ensures
        ({
            let first = polled_status(held, seen);
            let still_held = first == Status::Running;
            &&& polled_status(still_held, seen) == first
            &&& (polled_status(still_held, seen) == Status::Running) == still_held
        }),
{
}

/// The single owned slot for the worker handle together with its label.
pub struct Supervisor<H> {
    handle: Option<H>,
    status: Status,
    /// When the pending stop began (milliseconds, caller's clock).
    stopping_since: u64,
}

impl<H> Supervisor<H> {
    /// Well-formedness: a handle is held exactly while the label is `Running`.
    pub closed spec fn wf(&self) -> bool {
        self.handle.is_some() <==> self.status == Status::Running
    }

    pub closed spec fn spec_status(&self) -> Status {
        self.status
    }

    pub closed spec fn spec_handle(&self) -> Option<H> {
        self.handle
    }

    pub closed spec fn spec_stopping_since(&self) -> u64 {
        self.stopping_since
    }

    /// In a well-formed supervisor a handle is held exactly while the label
    /// is `Running`: so `start` fails whenever a handle is held.
    pub proof fn lemma_handle_iff_running(&self)
        requires
            self.wf(),
        ensures
            self.spec_handle().is_some() <==> self.spec_status() == Status::Running,
    {
    }

    /// A supervisor with no worker: `Stopped`, no handle.
    pub fn new() -> (r: Self)
        ensures
            r.spec_status() == Status::Stopped,
            r.spec_handle().is_none(),
            r.wf(),
    {
        Supervisor { handle: None, status: Status::Stopped, stopping_since: 0 }
    }

    /// The current label, without probing the worker.
    pub fn status(&self) -> (r: Status)
        ensures
            r == self.spec_status(),
    {
        self.status
    }

    /// Whether a handle is held.
    pub fn holds_handle(&self) -> (r: bool)
        ensures
            r == self.spec_handle().is_some(),
    {
        self.handle.is_some()
    }

    /// Decides whether a launch may proceed: only from `Stopped`.
    pub fn check_start(&self) -> (r: Result<(), SupervisorError>)
        ensures
            r is Ok <==> self.spec_status() == Status::Stopped,
            r is Err ==> r == Err::<(), SupervisorError>(SupervisorError::AlreadyRunning),
    {
        match self.status {
            Status::Stopped => Ok(()),
            _ => Err(SupervisorError::AlreadyRunning),
        }
    }

    /// Stores the handle of a freshly launched worker and marks it `Running`.
    pub fn record_started(&mut self, handle: H)
        requires
            old(self).wf(),
            old(self).spec_status() == Status::Stopped,
        ensures
            final(self).wf(),
            final(self).spec_status() == Status::Running,
            final(self).spec_handle() == Some(handle),
    {
        self.handle = Some(handle);
        self.status = Status::Running;
    }

    /// Begins a stop at time `now_ms`: takes the handle out of the slot and
    /// marks `Stopping`. The caller kills the returned handle outside the
    /// lock, then reports back with `finish_stop`. Without a handle this fails
    /// with `NotRunning` and changes nothing.
    pub fn begin_stop(&mut self, now_ms: u64) -> (r: Result<H, SupervisorError>)
        requires
            old(self).wf(),
        ensures
            final(self).wf(),
            match old(self).spec_handle() {
                Some(h) => {
                    &&& r == Ok::<H, SupervisorError>(h)
                    &&& final(self).spec_status() == Status::Stopping
                    &&& final(self).spec_handle().is_none()
                    &&& final(self).spec_stopping_since() == now_ms
                },
                None => {
                    &&& r == Err::<H, SupervisorError>(SupervisorError::NotRunning)
                    &&& *final(self) == *old(self)
                },
            },
    {
        match self.handle.take() {
            Some(h) => {
                self.status = Status::Stopping;
                self.stopping_since = now_ms;
                Ok(h)
            },
            None => Err(SupervisorError::NotRunning),
        }
    }

    /// How long the pending stop has lasted at time `now_ms` (zero if the
    /// clock went back); `None` unless the label is `Stopping`. A kill that
    /// never completes shows as an ever-growing value.
    pub fn stopping_for(&self, now_ms: u64) -> (r: Option<u64>)
        ensures
            self.spec_status() == Status::Stopping ==> r == Some(
                if now_ms >= self.spec_stopping_since() {
                    (now_ms - self.spec_stopping_since()) as u64
                } else {
                    0u64
                },
            ),
            self.spec_status() != Status::Stopping ==> r is None,
    {
        if self.status == Status::Stopping {
            if now_ms >= self.stopping_since {
                Some(now_ms - self.stopping_since)
            } else {
                Some(0)
            }
        } else {
            None
        }
    }

    /// Reports that the background kill attempt has completed, successful or
    /// not. Only a pending stop is concluded: a worker started meanwhile keeps
    /// its `Running` label and handle.
    pub fn finish_stop(&mut self)
        requires
            old(self).wf(),
        ensures
            final(self).wf(),
            old(self).spec_status() == Status::Stopping ==> {
                &&& final(self).spec_status() == Status::Stopped
                &&& final(self).spec_handle().is_none()
            },
            old(self).spec_status() != Status::Stopping ==> *final(self) == *old(self),
    {
        if self.status == Status::Stopping {
            self.status = Status::Stopped;
        }
    }

    /// Applies the outcome of a liveness check: the handle is kept only while
    /// the worker is alive, and the label becomes what a poll reports.
    pub fn observe(&mut self, seen: Liveness) -> (r: Status)
        requires
            old(self).wf(),
        ensures
            final(self).wf(),
            r == polled_status(old(self).spec_handle().is_some(), seen),
            final(self).spec_status() == r,
            final(self).spec_handle() == (if r == Status::Running {
                old(self).spec_handle()
            } else {
                None
            }),
    {
        if self.handle.is_some() && seen == Liveness::Alive {
            self.status = Status::Running;
        } else {
            self.handle = None;
            self.status = Status::Stopped;
        }
        self.status
    }

    /// Takes the handle out for a synchronous shutdown and marks `Stopped`
    /// unconditionally; the caller kills whatever comes back.
    pub fn shutdown_now(&mut self) -> (r: Option<H>)
        requires
            old(self).wf(),
        ensures
            final(self).wf(),
            r == old(self).spec_handle(),
            final(self).spec_status() == Status::Stopped,
            final(self).spec_handle().is_none(),
    {
        let h = self.handle.take();
        self.status = Status::Stopped;
        h
    }
}

impl<H: WorkerHandle> Supervisor<H> {
    /// The authoritative status: probes a held handle without blocking and
    /// drops it if the worker has exited; reports `Stopped` when no handle is
    /// held.
    pub fn poll_status(&mut self) -> (r: Status)
        requires
            old(self).wf(),
        ensures
            final(self).wf(),
            final(self).spec_status() == r,
            r == Status::Running || r == Status::Stopped,
            old(self).spec_handle().is_none() ==> r == Status::Stopped,
            r == Status::Running ==> final(self).spec_handle().is_some(),
            r != Status::Running ==> final(self).spec_handle().is_none(),
    {
        let seen = match &mut self.handle {
            Some(h) => h.probe(),
            None => Liveness::Unknown,
        };
        self.observe(seen)
    }
}

} // verus!
