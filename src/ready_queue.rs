use vstd::arithmetic::div_mod::{lemma_div_by_multiple, lemma_div_is_ordered};
use vstd::prelude::*;

use crate::discipline::{preemptive, QueueDiscipline};
use crate::ordering::{is_stable_sort, lemma_ranked_order_stable, sort_processes, ranked_order};
use crate::process::{
    after_run, all_wf, dispatch_error, remaining, slice_within, Process, ProcessStatus, SchedError,
};

verus! {

/// Every process of `s` is well formed and terminated.
pub open spec fn all_terminated(s: Seq<Process>) -> bool {
    forall|i: int|
        0 <= i < s.len() ==> (#[trigger] s[i]).wf() && s[i].status == ProcessStatus::Terminated
}

/// The process as a queue holds it after admission.
pub open spec fn admitted(p: Process) -> Process {
    Process { status: ProcessStatus::Ready, ..p }
}

/// What one dispatch did with the process at the head of a ready queue.
#[derive(Debug)]
pub enum Dispatch {
    /// No process was ready.
    Idle,
    /// The process with this id ran for `ran` and finished.
    Finished { id: uuid::Uuid, ran: u64 },
    /// The process ran for `ran` and still has demand left; it is handed to the caller.
    Preempted { process: Process, ran: u64 },
}

/// What one scheduling step did; `switch` is the context-switch delay to apply after it.
#[derive(Debug)]
pub enum Step {
    /// No process was ready.
    Idle,
    /// The process with this id ran for `ran` and finished.
    Finished { id: uuid::Uuid, ran: u64, switch: u64 },
    /// The process with this id ran for `ran` and went back to a ready queue.
    Requeued { id: uuid::Uuid, ran: u64, switch: u64 },
}

/// Means over a set of finished processes, in milliseconds, and the two totals whose ratio
/// is the CPU utilisation.
#[derive(Clone, Copy, Debug, PartialEq, Eq, Structural)]
pub struct AggregateMetrics {
    pub finished: u64,
    pub average_turnaround_time: u64,
    pub average_waiting_time: u64,
    pub average_response_time: u64,
    /// Sum of the service demands of the finished processes.
    pub total_service_time: u128,
    /// Sum of their turnaround times.
    pub total_turnaround_time: u128,
}

pub open spec fn sum_turnaround(s: Seq<Process>) -> int
    decreases s.len(),
{
    if s.len() == 0 {
        0
    } else {
        sum_turnaround(s.drop_last()) + s.last().metrics.total_time
    }
}

pub open spec fn sum_waiting(s: Seq<Process>) -> int
    decreases s.len(),
{
    if s.len() == 0 {
        0
    } else {
        sum_waiting(s.drop_last()) + s.last().metrics.total_waiting_time
    }
}

pub open spec fn sum_response(s: Seq<Process>) -> int
    decreases s.len(),
{
    if s.len() == 0 {
        0
    } else {
        sum_response(s.drop_last()) + s.last().metrics.response_time
    }
}

pub open spec fn sum_service(s: Seq<Process>) -> int
    decreases s.len(),
{
    if s.len() == 0 {
        0
    } else {
        sum_service(s.drop_last()) + s.last().cpu_burst_time
    }
}

/// Arithmetic mean, rounded down; zero over nothing.
pub open spec fn mean(total: int, n: int) -> int {
    if n == 0 {
        0
    } else {
        total / n
    }
}

/// The aggregate metrics of the finished processes `s`.
pub open spec fn aggregate_of(s: Seq<Process>) -> AggregateMetrics {
    AggregateMetrics {
        finished: s.len() as u64,
        average_turnaround_time: mean(sum_turnaround(s), s.len() as int) as u64,
        average_waiting_time: mean(sum_waiting(s), s.len() as int) as u64,
        average_response_time: mean(sum_response(s), s.len() as int) as u64,
        total_service_time: sum_service(s) as u128,
        total_turnaround_time: sum_turnaround(s) as u128,
    }
}

/// A ready queue as the contracts see it.
pub struct ReadyQueueView {
    /// Admitted processes that have not finished, in queue order.
    pub processes: Seq<Process>,
    /// Finished processes, in the order they finished.
    pub finished: Seq<Process>,
    pub discipline: QueueDiscipline,
    pub time_quantum: u64,
    pub context_switch: u64,
}

impl ReadyQueueView {
    pub open spec fn wf(self) -> bool {
        &&& all_wf(self.processes)
        &&& all_terminated(self.finished)
    }

    /// How long the discipline lets `p` run in one dispatch.
    pub open spec fn slice_for(self, p: Process) -> u64 {
        if preemptive(self.discipline) {
            slice_within(p, self.time_quantum)
        } else {
            remaining(p) as u64
        }
    }

    /// The queue after admitting `p` at its tail.
    pub open spec fn enqueued(self, p: Process) -> ReadyQueueView {
        ReadyQueueView { processes: self.processes.push(admitted(p)), ..self }
    }

    /// The queue in the order of its discipline at `now`.
    pub open spec fn sorted(self, now: u64) -> ReadyQueueView {
        ReadyQueueView { processes: ranked_order(self.discipline, now, self.processes), ..self }
    }

    /// One dispatch at `now` of the first process in discipline order, which leaves the queue;
    /// a process that does not finish is handed out.
    pub open spec fn dispatched(self, now: u64) -> (ReadyQueueView, Result<Dispatch, SchedError>) {
        if self.processes.len() == 0 {
            (self, Ok(Dispatch::Idle))
        } else {
            let s = ranked_order(self.discipline, now, self.processes);
            let p = s[0];
            let slice = self.slice_for(p);
            match dispatch_error(p, slice, now) {
                Some(e) => (ReadyQueueView { processes: s, ..self }, Err(e)),
                None => {
                    let q = after_run(p, slice, now);
                    if q.status == ProcessStatus::Terminated {
                        (
                            ReadyQueueView {
                                processes: s.drop_first(),
                                finished: self.finished.push(q),
                                ..self
                            },
                            Ok(Dispatch::Finished { id: p.id, ran: slice }),
                        )
                    } else {
                        (
                            ReadyQueueView { processes: s.drop_first(), ..self },
                            Ok(Dispatch::Preempted { process: q, ran: slice }),
                        )
                    }
                },
            }
        }
    }

    /// One scheduling step at `now`: a dispatch, after which a process that did not finish
    /// goes back to the tail of this queue.
    pub open spec fn executed(self, now: u64) -> (ReadyQueueView, Result<Step, SchedError>) {
        let (w, r) = self.dispatched(now);
        match r {
            Ok(Dispatch::Idle) => (w, Ok(Step::Idle)),
            Ok(Dispatch::Finished { id, ran }) => (
                w,
                Ok(Step::Finished { id, ran, switch: self.context_switch }),
            ),
            Ok(Dispatch::Preempted { process, ran }) => (
                w.enqueued(process),
                Ok(Step::Requeued { id: process.id, ran, switch: self.context_switch }),
            ),
            Err(e) => (w, Err(e)),
        }
    }
}

/// Processes admitted under one discipline, and those that have finished.
pub struct ReadyQueue {
    processes: Vec<Process>,
    discipline: QueueDiscipline,
    time_quantum: u64,
    context_switch: u64,
    finished_processes: Vec<Process>,
}

impl View for ReadyQueue {
    type V = ReadyQueueView;

    closed spec fn view(&self) -> ReadyQueueView {
        ReadyQueueView {
            processes: self.processes@,
            finished: self.finished_processes@,
            discipline: self.discipline,
            time_quantum: self.time_quantum,
            context_switch: self.context_switch,
        }
    }
}

/// In a well-formed queue no process has run longer than its demand, and every finished
/// process has run exactly its demand and has a turnaround equal to its waiting time plus
/// its processed time. Every operation of `ReadyQueue` keeps the queue well formed.
pub proof fn lemma_queue_accounting(v: ReadyQueueView)
    requires
        v.wf(),
    ensures
        forall|i: int|
            0 <= i < v.processes.len() ==> #[trigger] v.processes[i].processed_time
                <= v.processes[i].cpu_burst_time,
        forall|i: int|
            0 <= i < v.finished.len() ==> {
                &&& #[trigger] v.finished[i].processed_time == v.finished[i].cpu_burst_time
                &&& v.finished[i].metrics.total_time == v.finished[i].waiting_time
                    + v.finished[i].processed_time
            },
{
    assert forall|i: int| 0 <= i < v.processes.len() implies #[trigger] v.processes[i].processed_time
        <= v.processes[i].cpu_burst_time by {
        assert(v.processes[i].wf());
    }
    assert forall|i: int| 0 <= i < v.finished.len() implies {
        &&& #[trigger] v.finished[i].processed_time == v.finished[i].cpu_burst_time
        &&& v.finished[i].metrics.total_time == v.finished[i].waiting_time
            + v.finished[i].processed_time
    } by {
        assert(v.finished[i].wf());
    }
}

/// Over no finished process every aggregate is zero; over one, each mean is that process's
/// own value and the utilisation totals are its demand and its turnaround.
pub proof fn lemma_aggregate_small(s: Seq<Process>)
    ensures
        s.len() == 0 ==> aggregate_of(s) == (AggregateMetrics {
            finished: 0,
            average_turnaround_time: 0,
            average_waiting_time: 0,
            average_response_time: 0,
            total_service_time: 0,
            total_turnaround_time: 0,
        }),
        s.len() == 1 ==> aggregate_of(s) == (AggregateMetrics {
            finished: 1,
            average_turnaround_time: s[0].metrics.total_time,
            average_waiting_time: s[0].metrics.total_waiting_time,
            average_response_time: s[0].metrics.response_time,
            total_service_time: s[0].cpu_burst_time as u128,
            total_turnaround_time: s[0].metrics.total_time as u128,
        }),
{
    if s.len() == 1 {
        let e = s.drop_last();
        assert(e.len() == 0);
        assert(s.last() == s[0]);
        assert(sum_turnaround(e) == 0 && sum_waiting(e) == 0 && sum_response(e) == 0
            && sum_service(e) == 0);
        assert(sum_turnaround(s) == s[0].metrics.total_time);
        assert(sum_waiting(s) == s[0].metrics.total_waiting_time);
        assert(sum_response(s) == s[0].metrics.response_time);
        assert(sum_service(s) == s[0].cpu_burst_time);
    }
}

proof fn lemma_sum_bounds(s: Seq<Process>, i: int)
    requires
        0 <= i < s.len(),
    ensures
        s.take(i + 1).drop_last() =~= s.take(i),
        s.take(i + 1).last() == s[i],
{
}

impl ReadyQueue {
    pub fn new(discipline: QueueDiscipline, context_switch: u64, time_quantum: u64) -> (q: ReadyQueue)
        ensures
            q@ == (ReadyQueueView {
                processes: Seq::empty(),
                finished: Seq::empty(),
                discipline,
                time_quantum,
                context_switch,
            }),
            q@.wf(),
    {
        ReadyQueue {
            processes: Vec::new(),
            discipline,
            time_quantum,
            context_switch,
            finished_processes: Vec::new(),
        }
    }

    /// Orders the admitted processes by the discipline as it ranks them at `now`, stably.
    pub fn sort(&mut self, now: u64)
        requires
            old(self)@.wf(),
        ensures
            final(self)@ == old(self)@.sorted(now),
            is_stable_sort(old(self)@.discipline, now, final(self)@.processes, old(self)@.processes),
            final(self)@.wf(),
    {
        proof {
            lemma_ranked_order_stable(self.discipline, now, self.processes@);
        }
        sort_processes(self.discipline, now, &mut self.processes);
    }

    pub fn is_preemptive(&self) -> (r: bool)
        ensures
            r == preemptive(self@.discipline),
    {
        self.discipline.is_preemptive()
    }

    /// Admits `process` at the tail of the queue, as `Ready`.
    pub fn enqueue(&mut self, process: Process)
        requires
            old(self)@.wf(),
            process.wf(),
        ensures
            final(self)@ == old(self)@.enqueued(process),
            final(self)@.wf(),
    {
        let mut process = process;
        process.status = ProcessStatus::Ready;
        self.processes.push(process);
    }

    /// Orders the queue as of `now` and takes its head.
    pub fn dequeue(&mut self, now: u64) -> (r: Option<Process>)
        requires
            old(self)@.wf(),
        ensures
            final(self)@.wf(),
            r matches Some(p) ==> p.wf(),
            old(self)@.processes.len() == 0 ==> r is None && final(self)@ == old(self)@,
            old(self)@.processes.len() > 0 ==> {
                let s = old(self)@.sorted(now);
                &&& r == Some(s.processes[0])
                &&& final(self)@ == ReadyQueueView { processes: s.processes.drop_first(), ..s }
            },
    {
        if self.processes.len() == 0 {
            return None;
        }
        self.sort(now);
        proof {
            assert(self@.processes[0].wf());
        }
        let p = self.processes.remove(0);
        proof {
            assert(self@.processes =~= old(self)@.sorted(now).processes.drop_first());
        }
        Some(p)
    }

    /// Dispatches the first process in discipline order at `now`. A process that finishes
    /// moves to the finished set; one that does not is handed to the caller, which decides
    /// where it goes. On an accounting error the process stays at the head.
    pub fn dispatch_next(&mut self, now: u64) -> (r: Result<Dispatch, SchedError>)
        requires
            old(self)@.wf(),
        ensures
            final(self)@.wf(),
            (final(self)@, r) == old(self)@.dispatched(now),
            r matches Ok(Dispatch::Preempted { process, ran: _ }) ==> process.wf(),
    {
        let ghost s = old(self)@.sorted(now).processes;
        match self.dequeue(now) {
            None => Ok(Dispatch::Idle),
            Some(p) => {
                let mut p = p;
                let res = if self.discipline.is_preemptive() {
                    p.run_with_interrupt(self.time_quantum, now)
                } else {
                    p.run(now)
                };
                match res {
                    Err(e) => {
                        let ghost rest = self@.processes;
                        self.processes.insert(0, p);
                        proof {
                            assert(self@.processes =~= s);
                            assert forall|i: int| 0 <= i < self@.processes.len() implies #[trigger] self@.processes[i].wf() by {
                                if i > 0 {
                                    assert(self@.processes[i] == rest[i - 1]);
                                    assert(rest[i - 1].wf());
                                }
                            }
                        }
                        Err(e)
                    },
                    Ok(ran) => {
                        if p.status == ProcessStatus::Terminated {
                            let id = p.id;
                            let ghost before = self@.finished;
                            self.finished_processes.push(p);
                            proof {
                                let fin = self@.finished;
                                assert(fin == before.push(p));
                                assert forall|i: int| 0 <= i < fin.len() implies (#[trigger] fin[i]).wf()
                                    && fin[i].status == ProcessStatus::Terminated by {
                                    if i < before.len() {
                                        assert(fin[i] == before[i]);
                                        assert(before[i].wf());
                                    }
                                }
                            }
                            Ok(Dispatch::Finished { id, ran })
                        } else {
                            Ok(Dispatch::Preempted { process: p, ran })
                        }
                    },
                }
            },
        }
    }

    /// One scheduling step at `now`: dispatches the first process in discipline order for a
    /// quantum (preemptive disciplines) or to completion; a process that does not finish goes
    /// back to the tail of the queue.
    pub fn execute_next(&mut self, now: u64) -> (r: Result<Step, SchedError>)
        requires
            old(self)@.wf(),
        ensures
            final(self)@.wf(),
            (final(self)@, r) == old(self)@.executed(now),
    {
        match self.dispatch_next(now) {
            Ok(Dispatch::Idle) => Ok(Step::Idle),
            Ok(Dispatch::Finished { id, ran }) => Ok(
                Step::Finished { id, ran, switch: self.context_switch },
            ),
            Ok(Dispatch::Preempted { process, ran }) => {
                let id = process.id;
                self.enqueue(process);
                Ok(Step::Requeued { id, ran, switch: self.context_switch })
            },
            Err(e) => Err(e),
        }
    }

    /// Means of the finished processes' turnaround, waiting and response times, and the
    /// totals for the CPU utilisation; all zero when none has finished.
    pub fn calculate_metrics(&self) -> (m: AggregateMetrics)
        ensures
            m == aggregate_of(self@.finished),
    {
        let s = &self.finished_processes;
        let n = s.len();
        let mut turnaround: u128 = 0;
        let mut waiting: u128 = 0;
        let mut response: u128 = 0;
        let mut service: u128 = 0;
        let mut i: usize = 0;
        while i < n
            invariant
                n == s@.len(),
                i <= n,
                turnaround == sum_turnaround(s@.take(i as int)),
                waiting == sum_waiting(s@.take(i as int)),
                response == sum_response(s@.take(i as int)),
                service == sum_service(s@.take(i as int)),
                turnaround <= i * 0xFFFF_FFFF_FFFF_FFFFu128,
                waiting <= i * 0xFFFF_FFFF_FFFF_FFFFu128,
                response <= i * 0xFFFF_FFFF_FFFF_FFFFu128,
                service <= i * 0xFFFF_FFFF_FFFF_FFFFu128,
            decreases n - i,
        {
            proof {
                lemma_sum_bounds(s@, i as int);
                assert((i + 1) * 0xFFFF_FFFF_FFFF_FFFFu128 <= 0xFFFF_FFFF_FFFF_FFFFu128
                    * 0xFFFF_FFFF_FFFF_FFFFu128) by (nonlinear_arith)
                    requires
                        i < n,
                        n <= 0xFFFF_FFFF_FFFF_FFFFu128,
                ;
            }
            let p = &s[i];
            turnaround = turnaround + p.metrics.total_time as u128;
            waiting = waiting + p.metrics.total_waiting_time as u128;
            response = response + p.metrics.response_time as u128;
            service = service + p.cpu_burst_time as u128;
            i = i + 1;
        }
        proof {
            assert(s@.take(n as int) =~= s@);
        }
        if n == 0 {
            return AggregateMetrics {
                finished: 0,
                average_turnaround_time: 0,
                average_waiting_time: 0,
                average_response_time: 0,
                total_service_time: service,
                total_turnaround_time: turnaround,
            };
        }
        let count = n as u128;
        proof {
            let m = 0xFFFF_FFFF_FFFF_FFFFint;
            lemma_div_by_multiple(m, count as int);
            lemma_div_is_ordered(turnaround as int, count * m, count as int);
            lemma_div_is_ordered(waiting as int, count * m, count as int);
            lemma_div_is_ordered(response as int, count * m, count as int);
        }
        AggregateMetrics {
            finished: n as u64,
            average_turnaround_time: (turnaround / count) as u64,
            average_waiting_time: (waiting / count) as u64,
            average_response_time: (response / count) as u64,
            total_service_time: service,
            total_turnaround_time: turnaround,
        }
    }

    pub fn is_queue_empty(&self) -> (r: bool)
        ensures
            r == (self@.processes.len() == 0),
    {
        self.processes.len() == 0
    }

    /// The admitted processes, in queue order.
    pub fn get_data(&self) -> (r: &Vec<Process>)
        ensures
            r@ == self@.processes,
    {
        &self.processes
    }

    /// The finished processes, in the order they finished.
    pub fn finished_processes(&self) -> (r: &Vec<Process>)
        ensures
            r@ == self@.finished,
    {
        &self.finished_processes
    }

    pub fn discipline(&self) -> (d: QueueDiscipline)
        ensures
            d == self@.discipline,
    {
        self.discipline
    }

    pub fn time_quantum(&self) -> (t: u64)
        ensures
            t == self@.time_quantum,
    {
        self.time_quantum
    }

    pub fn context_switch(&self) -> (t: u64)
        ensures
            t == self@.context_switch,
    {
        self.context_switch
    }
}

} // verus!
