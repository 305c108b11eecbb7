use vstd::prelude::*;

use crate::arrival_order::{
    arrival_order_of, arrives_before, is_stable_arrival_sort, sort_by_arrival, stable_arrival_sort_by,
};
use crate::discipline::{
    level_discipline_of, str_equals, trim_str, trimmed, QueueDiscipline, Queues,
};
use crate::multilevel::{
    class_level, empty_level, feedback_quantum, mlfq_step, mlq_step, MLFQ, MLQ,
};
use crate::process::{Metrics, Process, ProcessStatus, ProcessType, SchedError};
use crate::ready_queue::{
    aggregate_of, lemma_queue_accounting, AggregateMetrics, ReadyQueue, ReadyQueueView, Step,
};

verus! {

/// How the levels of a queue structure are composed.
#[derive(Clone, Copy, Debug, PartialEq, Eq, Structural)]
pub enum Scheme {
    Single,
    MultiLevel,
    Feedback,
}

/// The queue structure a simulation feeds.
pub enum Queue {
    ReadyQueue(ReadyQueue),
    MultiLevel(MLQ),
    MultiLevelFeedBack(MLFQ),
}

/// Final metrics of a run: one set for a single queue, one per level otherwise.
#[derive(Clone, Copy, Debug)]
pub enum QueueMetrics {
    Single(AggregateMetrics),
    MultiLevel([AggregateMetrics; 3]),
    Feedback([AggregateMetrics; 3]),
}

/// A process still to arrive: its arrival offset and demand in milliseconds, and its class
/// when one was given.
#[derive(Clone, Copy, Debug, PartialEq, Eq, Structural)]
pub struct PendingProcess {
    pub arrival_time: u64,
    pub cpu_burst_time: u64,
    pub process_type: Option<ProcessType>,
}

pub open spec fn scheme_of(q: Queue) -> Scheme {
    match q {
        Queue::ReadyQueue(_) => Scheme::Single,
        Queue::MultiLevel(_) => Scheme::MultiLevel,
        Queue::MultiLevelFeedBack(_) => Scheme::Feedback,
    }
}

/// The levels of a queue structure; a single queue is one level.
pub open spec fn levels_of(q: Queue) -> Seq<ReadyQueueView> {
    match q {
        Queue::ReadyQueue(r) => seq![r@],
        Queue::MultiLevel(m) => m.levels(),
        Queue::MultiLevelFeedBack(m) => m.levels(),
    }
}

pub open spec fn queue_wf(q: Queue) -> bool {
    match q {
        Queue::ReadyQueue(r) => r@.wf(),
        Queue::MultiLevel(m) => m.wf(),
        Queue::MultiLevelFeedBack(m) => m.wf(),
    }
}

/// Whether no level holds a ready process.
pub open spec fn levels_empty(levels: Seq<ReadyQueueView>) -> bool {
    forall|i: int| 0 <= i < levels.len() ==> (#[trigger] levels[i]).processes.len() == 0
}

/// The level a newly admitted process enters.
pub open spec fn entry_level(scheme: Scheme, p: Process) -> int {
    match scheme {
        Scheme::MultiLevel => class_level(p.process_type),
        _ => 0,
    }
}

/// The levels after admitting `p`.
pub open spec fn admit_into(scheme: Scheme, levels: Seq<ReadyQueueView>, p: Process) -> Seq<
    ReadyQueueView,
> {
    let l = entry_level(scheme, p);
    levels.update(l, levels[l].enqueued(p))
}

/// The levels after admitting each process of `ps` in turn.
pub open spec fn admit_all(scheme: Scheme, levels: Seq<ReadyQueueView>, ps: Seq<Process>) -> Seq<
    ReadyQueueView,
>
    decreases ps.len(),
{
    if ps.len() == 0 {
        levels
    } else {
        admit_into(scheme, admit_all(scheme, levels, ps.drop_last()), ps.last())
    }
}

/// One scheduling step of the structure at `now`.
pub open spec fn step_levels(scheme: Scheme, levels: Seq<ReadyQueueView>, now: u64) -> (
    Seq<ReadyQueueView>,
    Result<Step, SchedError>,
) {
    match scheme {
        Scheme::Single => {
            let (w, r) = levels[0].executed(now);
            (levels.update(0, w), r)
        },
        Scheme::MultiLevel => mlq_step(levels, now),
        Scheme::Feedback => mlfq_step(levels, now),
    }
}

/// The metrics a structure reports at the end of a run.
pub open spec fn metrics_of(scheme: Scheme, levels: Seq<ReadyQueueView>) -> QueueMetrics {
    match scheme {
        Scheme::Single => QueueMetrics::Single(aggregate_of(levels[0].finished)),
        Scheme::MultiLevel => QueueMetrics::MultiLevel(
            [
                aggregate_of(levels[0].finished),
                aggregate_of(levels[1].finished),
                aggregate_of(levels[2].finished),
            ],
        ),
        Scheme::Feedback => QueueMetrics::Feedback(
            [
                aggregate_of(levels[0].finished),
                aggregate_of(levels[1].finished),
                aggregate_of(levels[2].finished),
            ],
        ),
    }
}

/// The discipline chosen for level `i` from the optional list of level names.
pub open spec fn chosen_level(list: Option<[String; 4]>, i: int) -> QueueDiscipline {
    match list {
        Some(l) => level_discipline_of(trimmed(l@[i]@)),
        None => QueueDiscipline::RR,
    }
}

/// The single-queue discipline of a scheduler choice.
pub open spec fn single_discipline(q: Queues) -> QueueDiscipline {
    match q {
        Queues::FIFO => QueueDiscipline::FIFO,
        Queues::SPN => QueueDiscipline::SPN,
        Queues::SJF => QueueDiscipline::SJF,
        Queues::HRRN => QueueDiscipline::HRRN,
        Queues::RR => QueueDiscipline::RR,
        Queues::SRF => QueueDiscipline::SRF,
        _ => QueueDiscipline::FCFS,
    }
}

/// `p` is the process created for `e`: fresh, with the entry's arrival and demand, and its
/// class when the entry names one.
pub open spec fn spawned_from(p: Process, e: PendingProcess) -> bool {
    &&& p.wf()
    &&& p.arrival_time == e.arrival_time
    &&& p.cpu_burst_time == e.cpu_burst_time
    &&& p.status == ProcessStatus::New
    &&& p.last_execution is None
    &&& p.metrics == Metrics::zero()
    &&& e.process_type matches Some(t) ==> p.process_type == t
}

/// Arrival offsets never decrease along `s`.
pub open spec fn arrivals_ordered(s: Seq<PendingProcess>) -> bool {
    forall|i: int, j: int| 0 <= i < j < s.len() ==> s[i].arrival_time <= s[j].arrival_time
}

/// The class named by a trimmed token, if any.
pub open spec fn process_type_of(t: Seq<char>) -> Option<ProcessType> {
    if t == "system"@ {
        Some(ProcessType::SystemProcess)
    } else if t == "batch"@ {
        Some(ProcessType::BatchProcess)
    } else if t == "interactive"@ {
        Some(ProcessType::InteractiveProcess)
    } else if t == "student"@ {
        Some(ProcessType::StudentProcess)
    } else {
        None
    }
}

impl ProcessType {
    /// The class named by an already trimmed token.
    pub fn from_name(t: &str) -> (r: Option<ProcessType>)
        ensures
            r == process_type_of(t@),
    {
        if str_equals(t, "system") {
            Some(ProcessType::SystemProcess)
        } else if str_equals(t, "batch") {
            Some(ProcessType::BatchProcess)
        } else if str_equals(t, "interactive") {
            Some(ProcessType::InteractiveProcess)
        } else if str_equals(t, "student") {
            Some(ProcessType::StudentProcess)
        } else {
            None
        }
    }

    /// The class named by `s`, ignoring surrounding white space.
    pub fn parse(s: &str) -> (r: Option<ProcessType>)
        ensures
            r == process_type_of(trimmed(s@)),
    {
        ProcessType::from_name(trim_str(s))
    }
}

impl PendingProcess {
    /// An entry of a predefined workload: arrival offset, demand, and an optional class
    /// name; an unknown or missing name leaves the class to chance.
    pub fn from_entry(arrival_time: u64, cpu_burst_time: u64, class: &Option<String>) -> (e:
        PendingProcess)
        ensures
            e.arrival_time == arrival_time,
            e.cpu_burst_time == cpu_burst_time,
            e.process_type == (match class {
                Some(c) => process_type_of(trimmed(c@)),
                None => None,
            }),
    {
        let process_type = match class {
            Some(c) => ProcessType::parse(c.as_str()),
            None => None,
        };
        PendingProcess { arrival_time, cpu_burst_time, process_type }
    }
}

/// Pairs generated arrival offsets with generated demands; the classes are left to chance.
pub fn pending_from_samples(arrivals: &Vec<u64>, bursts: &Vec<u64>) -> (r: Vec<PendingProcess>)
    requires
        arrivals.len() == bursts.len(),
    ensures
        r@.len() == arrivals@.len(),
        forall|i: int|
            0 <= i < r@.len() ==> #[trigger] r@[i] == (PendingProcess {
                arrival_time: arrivals@[i],
                cpu_burst_time: bursts@[i],
                process_type: None,
            }),
{
    let mut r: Vec<PendingProcess> = Vec::new();
    let mut i: usize = 0;
    while i < arrivals.len()
        invariant
            arrivals.len() == bursts.len(),
            i <= arrivals.len(),
            r@.len() == i,
            forall|k: int|
                0 <= k < i ==> #[trigger] r@[k] == (PendingProcess {
                    arrival_time: arrivals@[k],
                    cpu_burst_time: bursts@[k],
                    process_type: None,
                }),
        decreases arrivals.len() - i,
    {
        r.push(PendingProcess { arrival_time: arrivals[i], cpu_burst_time: bursts[i], process_type: None });
        i = i + 1;
    }
    r
}

impl Queue {
    pub open spec fn wf(&self) -> bool {
        queue_wf(*self)
    }

    /// Admits `process` to the structure: a single queue takes it at its tail, the static
    /// multi-level queue at the level of its class, the feedback queue at its first level.
    pub fn enqueue_queue(&mut self, process: Process)
        requires
            old(self).wf(),
            process.wf(),
        ensures
            final(self).wf(),
            scheme_of(*final(self)) == scheme_of(*old(self)),
            levels_of(*final(self)) == admit_into(
                scheme_of(*old(self)),
                levels_of(*old(self)),
                process,
            ),
    {
        match self {
            Queue::ReadyQueue(r) => {
                r.enqueue(process);
            },
            Queue::MultiLevel(m) => {
                m.enqueue(process);
            },
            Queue::MultiLevelFeedBack(m) => {
                m.enqueue(process);
            },
        }
        proof {
            assert(levels_of(*self) =~= admit_into(
                scheme_of(*old(self)),
                levels_of(*old(self)),
                process,
            ));
        }
    }

    /// Runs one scheduling step of the structure at `now`.
    pub fn execute_queue(&mut self, now: u64) -> (r: Result<Step, SchedError>)
        requires
            old(self).wf(),
        ensures
            final(self).wf(),
            scheme_of(*final(self)) == scheme_of(*old(self)),
            (levels_of(*final(self)), r) == step_levels(
                scheme_of(*old(self)),
                levels_of(*old(self)),
                now,
            ),
    {
        let r = match self {
            Queue::ReadyQueue(q) => q.execute_next(now),
            Queue::MultiLevel(m) => m.execute_next(now),
            Queue::MultiLevelFeedBack(m) => m.execute_next(now),
        };
        proof {
            assert(levels_of(*self) =~= step_levels(
                scheme_of(*old(self)),
                levels_of(*old(self)),
                now,
            ).0);
        }
        r
    }

    /// Whether no level holds a ready process.
    pub fn is_queue_empty(&self) -> (r: bool)
        ensures
            r == levels_empty(levels_of(*self)),
    {
        match self {
            Queue::ReadyQueue(q) => q.is_queue_empty(),
            Queue::MultiLevel(m) => m.is_queue_empty(),
            Queue::MultiLevelFeedBack(m) => m.is_queue_empty(),
        }
    }

    /// The admitted processes of a single queue, for display; `None` for multi-level ones.
    pub fn update_data(&self) -> (r: Option<&Vec<Process>>)
        ensures
            match *self {
                Queue::ReadyQueue(q) => r matches Some(v) && v@ == q@.processes,
                _ => r is None,
            },
    {
        match self {
            Queue::ReadyQueue(q) => Some(q.get_data()),
            _ => None,
        }
    }

    /// The metrics the structure reports at the end of a run.
    pub fn calc_q_metrics(&self) -> (m: QueueMetrics)
        ensures
            m == metrics_of(scheme_of(*self), levels_of(*self)),
    {
        match self {
            Queue::ReadyQueue(q) => QueueMetrics::Single(q.calculate_metrics()),
            Queue::MultiLevel(m) => {
                let a = m.calculate_metric();
                proof {
                    assert(a == [
                        aggregate_of(m.queue_1@.finished),
                        aggregate_of(m.queue_2@.finished),
                        aggregate_of(m.queue_3@.finished),
                    ]) by {
                        assert(a@ =~= [
                            aggregate_of(m.queue_1@.finished),
                            aggregate_of(m.queue_2@.finished),
                            aggregate_of(m.queue_3@.finished),
                        ]@);
                    }
                }
                QueueMetrics::MultiLevel(a)
            },
            Queue::MultiLevelFeedBack(m) => {
                let a = m.calculate_metric();
                proof {
                    assert(a == [
                        aggregate_of(m.queue_1@.finished),
                        aggregate_of(m.queue_2@.finished),
                        aggregate_of(m.queue_3@.finished),
                    ]) by {
                        assert(a@ =~= [
                            aggregate_of(m.queue_1@.finished),
                            aggregate_of(m.queue_2@.finished),
                            aggregate_of(m.queue_3@.finished),
                        ]@);
                    }
                }
                QueueMetrics::Feedback(a)
            },
        }
    }
}

fn level_choice(list: &Option<[String; 4]>, i: usize) -> (d: QueueDiscipline)
    requires
        i < 4,
    ensures
        d == chosen_level(*list, i as int),
{
    match list {
        Some(l) => QueueDiscipline::parse_level(l[i].as_str()),
        None => QueueDiscipline::RR,
    }
}

/// A simulation run: the processes still to arrive and the queue structure they enter.
pub struct Simulator {
    queue: Queue,
    pending: Vec<PendingProcess>,
    next: usize,
}

pub struct SimulatorView {
    pub scheme: Scheme,
    pub levels: Seq<ReadyQueueView>,
    pub pending: Seq<PendingProcess>,
    /// How many of `pending` have been admitted.
    pub next: nat,
}

impl View for Simulator {
    type V = SimulatorView;

    closed spec fn view(&self) -> SimulatorView {
        SimulatorView {
            scheme: scheme_of(self.queue),
            levels: levels_of(self.queue),
            pending: self.pending@,
            next: self.next as nat,
        }
    }
}

impl SimulatorView {
    pub open spec fn wf(self) -> bool {
        &&& self.next <= self.pending.len()
        &&& arrivals_ordered(self.pending)
        &&& forall|i: int| 0 <= i < self.levels.len() ==> (#[trigger] self.levels[i]).wf()
    }
}

/// In every level of a well-formed run no process has run longer than its demand, and every
/// finished process has run exactly its demand, with a turnaround equal to its waiting time
/// plus its processed time. Every operation of `Simulator` keeps the run well formed.
pub proof fn lemma_run_accounting(v: SimulatorView, l: int)
    requires
        v.wf(),
        0 <= l < v.levels.len(),
    ensures
        forall|i: int|
            0 <= i < v.levels[l].processes.len() ==> #[trigger] v.levels[l].processes[i].processed_time
                <= v.levels[l].processes[i].cpu_burst_time,
        forall|i: int|
            0 <= i < v.levels[l].finished.len() ==> {
                &&& #[trigger] v.levels[l].finished[i].processed_time
                    == v.levels[l].finished[i].cpu_burst_time
                &&& v.levels[l].finished[i].metrics.total_time == v.levels[l].finished[i].waiting_time
                    + v.levels[l].finished[i].processed_time
            },
{
    lemma_queue_accounting(v.levels[l]);
}

impl Simulator {
    pub closed spec fn inv(&self) -> bool {
        &&& self@.wf()
        &&& queue_wf(self.queue)
    }

    /// Builds the queue structure for a scheduler choice. A multi-level choice takes the
    /// first three of `list_of_disciplines` for its levels (round robin where absent or
    /// unknown); any other choice is a single queue of that discipline.
    pub fn generate_queue(
        queue_discipline: Queues,
        context_switch: u64,
        time_quantum: u64,
        list_of_disciplines: Option<[String; 4]>,
    ) -> (q: Queue)
        ensures
            q.wf(),
            queue_discipline == Queues::MLFQ ==> scheme_of(q) == Scheme::Feedback && levels_of(q)
                == seq![
                empty_level(
                    chosen_level(list_of_disciplines, 0),
                    context_switch,
                    feedback_quantum(time_quantum, 0),
                ),
                empty_level(
                    chosen_level(list_of_disciplines, 1),
                    context_switch,
                    feedback_quantum(time_quantum, 1),
                ),
                empty_level(
                    chosen_level(list_of_disciplines, 2),
                    context_switch,
                    feedback_quantum(time_quantum, 2),
                ),
            ],
            queue_discipline == Queues::MLQ ==> scheme_of(q) == Scheme::MultiLevel && levels_of(q)
                == seq![
                empty_level(chosen_level(list_of_disciplines, 0), context_switch, time_quantum),
                empty_level(chosen_level(list_of_disciplines, 1), context_switch, time_quantum),
                empty_level(chosen_level(list_of_disciplines, 2), context_switch, time_quantum),
            ],
            queue_discipline != Queues::MLQ && queue_discipline != Queues::MLFQ ==> scheme_of(q)
                == Scheme::Single && levels_of(q) == seq![
                empty_level(single_discipline(queue_discipline), context_switch, time_quantum),
            ],
    {
        let d0 = level_choice(&list_of_disciplines, 0);
        let d1 = level_choice(&list_of_disciplines, 1);
        let d2 = level_choice(&list_of_disciplines, 2);
        match queue_discipline {
            Queues::MLFQ => Queue::MultiLevelFeedBack(
                MLFQ::init(d0, d1, d2, context_switch, time_quantum),
            ),
            Queues::MLQ => Queue::MultiLevel(MLQ::init(d0, d1, d2, context_switch, time_quantum)),
            _ => {
                let d = match queue_discipline {
                    Queues::FIFO => QueueDiscipline::FIFO,
                    Queues::SPN => QueueDiscipline::SPN,
                    Queues::SJF => QueueDiscipline::SJF,
                    Queues::HRRN => QueueDiscipline::HRRN,
                    Queues::RR => QueueDiscipline::RR,
                    Queues::SRF => QueueDiscipline::SRF,
                    _ => QueueDiscipline::FCFS,
                };
                let r = ReadyQueue::new(d, context_switch, time_quantum);
                let q = Queue::ReadyQueue(r);
                proof {
                    assert(levels_of(q) =~= seq![
                        empty_level(single_discipline(queue_discipline), context_switch, time_quantum),
                    ]);
                }
                q
            },
        }
    }

    /// A run over `pending`, feeding `queue`. The workload is ordered by arrival offset,
    /// stably, so that processes are admitted in the order they arrive.
    pub fn new(queue: Queue, pending: Vec<PendingProcess>) -> (s: Simulator)
        requires
            queue.wf(),
        ensures
            s.inv(),
            s@.scheme == scheme_of(queue),
            s@.levels == levels_of(queue),
            s@.pending == arrival_order_of(pending@),
            is_stable_arrival_sort(s@.pending, pending@),
            s@.next == 0,
    {
        let ghost inp = pending@;
        let mut pending = pending;
        sort_by_arrival(&mut pending);
        let s = Simulator { queue, pending, next: 0 };
        proof {
            let f = choose|f: Seq<int>| stable_arrival_sort_by(s.pending@, inp, f);
            assert forall|i: int, j: int| 0 <= i < j < s.pending@.len() implies s.pending@[i].arrival_time
                <= s.pending@[j].arrival_time by {
                assert(!arrives_before(s.pending@[j], s.pending@[i]));
            }
            assert forall|k: int| 0 <= k < s@.levels.len() implies (#[trigger] s@.levels[k]).wf() by {
                match s.queue {
                    Queue::ReadyQueue(q) => {},
                    Queue::MultiLevel(m) => {},
                    Queue::MultiLevelFeedBack(m) => {},
                }
            }
        }
        s
    }

    /// Admits, in order, every pending process whose arrival offset is at most `now`.
    pub fn admit_due(&mut self, now: u64)
        requires
            old(self).inv(),
        ensures
            final(self).inv(),
            final(self)@.scheme == old(self)@.scheme,
            final(self)@.pending == old(self)@.pending,
            old(self)@.next <= final(self)@.next,
            forall|j: int|
                old(self)@.next <= j < final(self)@.next ==> (#[trigger] old(self)@.pending[j]).arrival_time
                    <= now,
            final(self)@.next == old(self)@.pending.len()
                || old(self)@.pending[final(self)@.next as int].arrival_time > now,
            exists|ps: Seq<Process>|
                {
                    &&& ps.len() == final(self)@.next - old(self)@.next
                    &&& forall|k: int|
                        0 <= k < ps.len() ==> spawned_from(
                            #[trigger] ps[k],
                            old(self)@.pending[old(self)@.next + k],
                        )
                    &&& final(self)@.levels == admit_all(old(self)@.scheme, old(self)@.levels, ps)
                },
    {
        let ghost ps: Seq<Process> = Seq::empty();
        let ghost start = self.next as int;
        while self.next < self.pending.len() && self.pending[self.next].arrival_time <= now
            invariant
                self.inv(),
                self@.scheme == old(self)@.scheme,
                self@.pending == old(self)@.pending,
                start == old(self)@.next,
                start <= self.next,
                forall|j: int| start <= j < self.next ==> (#[trigger] old(self)@.pending[j]).arrival_time <= now,
                ps.len() == self.next - start,
                forall|k: int|
                    0 <= k < ps.len() ==> spawned_from(#[trigger] ps[k], old(self)@.pending[start + k]),
                self@.levels == admit_all(old(self)@.scheme, old(self)@.levels, ps),
            decreases self.pending.len() - self.next,
        {
            let e = self.pending[self.next];
            let p = Process::new(e.cpu_burst_time, e.arrival_time, e.process_type);
            let ghost gp = p;
            self.queue.enqueue_queue(p);
            proof {
                let ps2 = ps.push(gp);
                assert(ps2.drop_last() =~= ps);
                ps = ps2;
                assert forall|k: int| 0 <= k < ps.len() implies spawned_from(#[trigger] ps[k], old(self)@.pending[start + k]) by {
                    if k < ps.len() - 1 {
                        assert(ps[k] == ps2.drop_last()[k]);
                    }
                }
                assert forall|k: int| 0 <= k < self@.levels.len() implies (#[trigger] self@.levels[k]).wf() by {
                    match self.queue {
                        Queue::ReadyQueue(q) => {},
                        Queue::MultiLevel(m) => {},
                        Queue::MultiLevelFeedBack(m) => {},
                    }
                }
            }
            self.next = self.next + 1;
        }
    }

    /// Runs one scheduling step of the queue structure at `now`.
    pub fn execute_queue(&mut self, now: u64) -> (r: Result<Step, SchedError>)
        requires
            old(self).inv(),
        ensures
            final(self).inv(),
            final(self)@.scheme == old(self)@.scheme,
            final(self)@.pending == old(self)@.pending,
            final(self)@.next == old(self)@.next,
            (final(self)@.levels, r) == step_levels(old(self)@.scheme, old(self)@.levels, now),
    {
        let r = self.queue.execute_queue(now);
        proof {
            assert forall|k: int| 0 <= k < self@.levels.len() implies (#[trigger] self@.levels[k]).wf() by {
                match self.queue {
                    Queue::ReadyQueue(q) => {},
                    Queue::MultiLevel(m) => {},
                    Queue::MultiLevelFeedBack(m) => {},
                }
            }
        }
        r
    }

    /// Whether no process is ready in any level.
    pub fn is_queue_empty(&self) -> (r: bool)
        ensures
            r == levels_empty(self@.levels),
    {
        self.queue.is_queue_empty()
    }

    /// Whether the run is over: every process has arrived and none is ready.
    pub fn is_finished(&self) -> (r: bool)
        requires
            self.inv(),
        ensures
            r == (self@.next == self@.pending.len() && levels_empty(self@.levels)),
    {
        self.next == self.pending.len() && self.queue.is_queue_empty()
    }

    /// The arrival offset of the next process still to arrive.
    pub fn next_arrival(&self) -> (r: Option<u64>)
        requires
            self.inv(),
        ensures
            self@.next < self@.pending.len() ==> r == Some(self@.pending[self@.next as int].arrival_time),
            self@.next == self@.pending.len() ==> r is None,
    {
        if self.next < self.pending.len() {
            Some(self.pending[self.next].arrival_time)
        } else {
            None
        }
    }

    /// The queue structure, for display.
    pub fn queue(&self) -> (q: &Queue)
        ensures
            scheme_of(*q) == self@.scheme,
            levels_of(*q) == self@.levels,
    {
        &self.queue
    }

    /// The metrics reported at the end of the run.
    pub fn calc_q_metrics(&self) -> (m: QueueMetrics)
        ensures
            m == metrics_of(self@.scheme, self@.levels),
    {
        self.queue.calc_q_metrics()
    }
}

} // verus!
