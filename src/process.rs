use rand::Rng;
use vstd::prelude::*;

verus! {

/// Random identifiers come from the `uuid` crate; the library only carries them.
#[verifier::external_type_specification]
#[verifier::external_body]
pub struct ExUuid(uuid::Uuid);

/// Relies on `uuid::Uuid::new_v4`: a fresh random identifier, nothing promised about its value.
pub assume_specification[ uuid::Uuid::new_v4 ]() -> uuid::Uuid;

/// Relies on `rand::Rng::gen_range` over `thread_rng()`: a value drawn from `0..n`.
/// The call panics on an empty range, hence the precondition.
#[verifier::external_body]
fn random_index(n: usize) -> (r: usize)
    requires
        n > 0,
    ensures
        r < n,
{
    rand::thread_rng().gen_range(0..n)
}

/// Lifecycle of a simulated process.
#[derive(Clone, Copy, Debug, PartialEq, Eq, Structural)]
pub enum ProcessStatus {
    /// Created, not yet admitted to a queue.
    New,
    /// Admitted and waiting for the CPU.
    Ready,
    /// On the CPU.
    Running,
    /// Preempted before completion; re-admitted right away.
    Waiting,
    /// All of its service demand has been processed.
    Terminated,
}

/// Class of a process, used to route it in a static multi-level queue.
#[derive(Clone, Copy, Debug, PartialEq, Eq, Structural)]
pub enum ProcessType {
    SystemProcess,
    InteractiveProcess,
    BatchProcess,
    StudentProcess,
}

/// Per-process timing results, all in milliseconds.
#[derive(Clone, Copy, Debug, PartialEq, Eq, Structural)]
pub struct Metrics {
    /// Time from arrival to the first dispatch.
    pub response_time: u64,
    /// Time spent ready but not running.
    pub total_waiting_time: u64,
    /// Turnaround: waiting time plus processed time.
    pub total_time: u64,
}

impl Metrics {
    pub fn new() -> (m: Metrics)
        ensures
            m == Metrics::zero(),
    {
        Metrics { response_time: 0, total_waiting_time: 0, total_time: 0 }
    }

    pub open spec fn zero() -> Metrics {
        Metrics { response_time: 0, total_waiting_time: 0, total_time: 0 }
    }
}

/// A failure of the engine's own time accounting; it ends a run.
#[derive(Clone, Copy, Debug, PartialEq, Eq, Structural)]
pub enum SchedError {
    /// The clock reading lies before the moment the process became ready.
    ClockBehind,
    /// The end of the time slice does not fit in the clock's range.
    ClockOverflow,
}

/// One simulated workload. Times are milliseconds on the simulation clock.
#[derive(Debug)]
pub struct Process {
    pub id: uuid::Uuid,
    pub arrival_time: u64,
    /// Total service demand.
    pub cpu_burst_time: u64,
    pub status: ProcessStatus,
    pub waiting_time: u64,
    pub processed_time: u64,
    pub process_type: ProcessType,
    /// Start of the latest dispatch; `None` until the first one.
    pub last_execution: Option<u64>,
    /// Since when the process has been waiting for the CPU: its arrival, then the end of its
    /// latest time slice.
    pub ready_since: u64,
    pub metrics: Metrics,
}

/// Elapsed time between two clock readings.
pub open spec fn elapsed(from: u64, to: u64) -> int {
    to - from
}

/// The process after it has waited until `now` and then run for `slice`.
pub open spec fn after_run(p: Process, slice: u64, now: u64) -> Process {
    let waiting = p.waiting_time + elapsed(p.ready_since, now);
    let processed = p.processed_time + slice;
    Process {
        status: if processed == p.cpu_burst_time {
            ProcessStatus::Terminated
        } else {
            ProcessStatus::Waiting
        },
        waiting_time: waiting as u64,
        processed_time: processed as u64,
        last_execution: Some(now),
        ready_since: (now + slice) as u64,
        metrics: Metrics {
            response_time: if p.last_execution is None {
                waiting as u64
            } else {
                p.metrics.response_time
            },
            total_waiting_time: waiting as u64,
            total_time: (processed + waiting) as u64,
        },
        ..p
    }
}

/// Why a dispatch at `now` for `slice` cannot be accounted, if it cannot.
pub open spec fn dispatch_error(p: Process, slice: u64, now: u64) -> Option<SchedError> {
    if now < p.ready_since {
        Some(SchedError::ClockBehind)
    } else if now + slice > u64::MAX {
        Some(SchedError::ClockOverflow)
    } else {
        None
    }
}

/// Time `p` has spent ready by `now`: its waiting time so far plus the wait since it last
/// became ready.
pub open spec fn waited_by(p: Process, now: u64) -> int {
    p.waiting_time + if now >= p.ready_since {
        now - p.ready_since
    } else {
        0
    }
}

/// Every process of `s` is well formed.
pub open spec fn all_wf(s: Seq<Process>) -> bool {
    forall|i: int| 0 <= i < s.len() ==> #[trigger] s[i].wf()
}

/// Service demand not processed yet.
pub open spec fn remaining(p: Process) -> int {
    p.cpu_burst_time - p.processed_time
}

/// What a run bounded by `quantum` executes: the quantum, capped by the remaining demand.
pub open spec fn slice_within(p: Process, quantum: u64) -> u64 {
    if quantum < remaining(p) {
        quantum
    } else {
        remaining(p) as u64
    }
}

/// Whatever the clock reads, a dispatch of at most the remaining demand keeps the accounting:
/// when it can be accounted the process stays within its demand, terminates exactly when its
/// demand is processed, and its turnaround is its waiting time plus its processed time; when
/// it cannot, `run_with_interrupt` and `run` leave the process unchanged.
pub proof fn lemma_dispatch_accounting(p: Process, slice: u64, now: u64)
    requires
        p.wf(),
        slice <= remaining(p),
    ensures
        dispatch_error(p, slice, now) is None ==> {
            let q = after_run(p, slice, now);
            &&& q.wf()
            &&& q.processed_time <= q.cpu_burst_time
            &&& q.cpu_burst_time == p.cpu_burst_time
            &&& q.processed_time == p.processed_time + slice
            &&& (q.status == ProcessStatus::Terminated <==> q.processed_time == q.cpu_burst_time)
            &&& q.metrics.total_time == q.waiting_time + q.processed_time
            &&& q.metrics.total_waiting_time == q.waiting_time
            &&& slice == remaining(p) ==> q.status == ProcessStatus::Terminated
        },
{
}

impl Process {
    /// The accounting invariant that every operation keeps.
    pub open spec fn wf(&self) -> bool {
        &&& self.processed_time <= self.cpu_burst_time
        &&& self.waiting_time + self.processed_time <= self.ready_since
        &&& self.last_execution is None ==> {
            &&& self.ready_since == self.arrival_time
            &&& self.waiting_time == 0
            &&& self.processed_time == 0
            &&& self.metrics == Metrics::zero()
            &&& self.status != ProcessStatus::Terminated
        }
        &&& self.last_execution is Some ==> {
            &&& self.metrics.total_waiting_time == self.waiting_time
            &&& self.metrics.total_time == self.waiting_time + self.processed_time
        }
        &&& self.status == ProcessStatus::Terminated ==> self.processed_time == self.cpu_burst_time
    }

    /// Time spent ready by `now`.
    pub fn waited(&self, now: u64) -> (r: u64)
        requires
            self.wf(),
        ensures
            r == waited_by(*self, now),
    {
        if now >= self.ready_since {
            self.waiting_time + (now - self.ready_since)
        } else {
            self.waiting_time
        }
    }

    /// A process that arrived at `at` and needs `cbt` of service. Without a class, one is
    /// drawn at random.
    pub fn new(cbt: u64, at: u64, pt: Option<ProcessType>) -> (p: Process)
        ensures
            p.wf(),
            p.cpu_burst_time == cbt,
            p.arrival_time == at,
            p.status == ProcessStatus::New,
            p.waiting_time == 0,
            p.processed_time == 0,
            p.last_execution is None,
            p.ready_since == at,
            p.metrics == Metrics::zero(),
            pt matches Some(t) ==> p.process_type == t,
    {
        let process_type = match pt {
            Some(t) => t,
            None => {
                let i: usize = random_index(4);
                if i == 0 {
                    ProcessType::BatchProcess
                } else if i == 1 {
                    ProcessType::InteractiveProcess
                } else if i == 2 {
                    ProcessType::StudentProcess
                } else {
                    ProcessType::SystemProcess
                }
            },
        };
        Process {
            id: uuid::Uuid::new_v4(),
            arrival_time: at,
            cpu_burst_time: cbt,
            status: ProcessStatus::New,
            waiting_time: 0,
            processed_time: 0,
            process_type,
            last_execution: None,
            ready_since: at,
            metrics: Metrics::new(),
        }
    }

    /// Adds the time spent ready since `ready_since` to the waiting time and marks the start
    /// of a dispatch at `now`; the first dispatch also fixes the response time.
    pub fn calculate_waiting_time(&mut self, now: u64)
        requires
            old(self).wf(),
            old(self).ready_since <= now,
        ensures
            final(self).wf(),
            *final(self) == (Process {
                waiting_time: (old(self).waiting_time + elapsed(old(self).ready_since, now)) as u64,
                last_execution: Some(now),
                ready_since: now,
                metrics: Metrics {
                    response_time: if old(self).last_execution is None {
                        (now - old(self).arrival_time) as u64
                    } else {
                        old(self).metrics.response_time
                    },
                    total_waiting_time: final(self).waiting_time,
                    total_time: (final(self).waiting_time + old(self).processed_time) as u64,
                },
                ..*old(self)
            }),
    {
        self.waiting_time = self.waiting_time + (now - self.ready_since);
        if self.last_execution.is_none() {
            self.metrics.response_time = self.waiting_time;
        }
        self.last_execution = Some(now);
        self.ready_since = now;
        self.metrics.total_waiting_time = self.waiting_time;
        self.metrics.total_time = self.waiting_time + self.processed_time;
    }

    /// Dispatches the process at `now` for at most `quantum`, capped by its remaining demand,
    /// and returns the time it ran. It ends `Terminated` once its demand is processed, else
    /// `Waiting`.
    pub fn run_with_interrupt(&mut self, quantum: u64, now: u64) -> (r: Result<u64, SchedError>)
        requires
            old(self).wf(),
        ensures
            final(self).wf(),
            ({
                let slice = slice_within(*old(self), quantum);
                match dispatch_error(*old(self), slice, now) {
                    Some(e) => r == Err::<u64, SchedError>(e) && *final(self) == *old(self),
                    None => r == Ok::<u64, SchedError>(slice) && *final(self) == after_run(
                        *old(self),
                        slice,
                        now,
                    ),
                }
            }),
    {
        let rem = self.cpu_burst_time - self.processed_time;
        let slice = if quantum < rem {
            quantum
        } else {
            rem
        };
        if now < self.ready_since {
            return Err(SchedError::ClockBehind);
        }
        if now > u64::MAX - slice {
            return Err(SchedError::ClockOverflow);
        }
        self.calculate_waiting_time(now);
        self.processed_time = self.processed_time + slice;
        self.ready_since = now + slice;
        self.metrics.total_time = self.waiting_time + self.processed_time;
        if self.processed_time == self.cpu_burst_time {
            self.status = ProcessStatus::Terminated;
        } else {
            self.status = ProcessStatus::Waiting;
        }
        Ok(slice)
    }

    /// Dispatches the process at `now` until its whole remaining demand is processed.
    pub fn run(&mut self, now: u64) -> (r: Result<u64, SchedError>)
        requires
            old(self).wf(),
        ensures
            final(self).wf(),
            ({
                let slice = remaining(*old(self)) as u64;
                match dispatch_error(*old(self), slice, now) {
                    Some(e) => r == Err::<u64, SchedError>(e) && *final(self) == *old(self),
                    None => r == Ok::<u64, SchedError>(slice) && *final(self) == after_run(
                        *old(self),
                        slice,
                        now,
                    ) && final(self).status == ProcessStatus::Terminated,
                }
            }),
    {
        let rem = self.cpu_burst_time - self.processed_time;
        self.run_with_interrupt(rem, now)
    }
}

} // verus!
