use vstd::prelude::*;

use crate::discipline::QueueDiscipline;
use crate::process::{Process, ProcessType, SchedError};
use crate::ready_queue::{
    aggregate_of, admitted, AggregateMetrics, Dispatch, ReadyQueue, ReadyQueueView, Step,
};

verus! {

/// Index of the highest-priority level that holds a ready process, or 3 when none does.
pub open spec fn first_nonempty(levels: Seq<ReadyQueueView>) -> int {
    if levels[0].processes.len() > 0 {
        0
    } else if levels[1].processes.len() > 0 {
        1
    } else if levels[2].processes.len() > 0 {
        2
    } else {
        3
    }
}

/// Level index of a class in the static multi-level queue.
pub open spec fn class_level(t: ProcessType) -> int {
    match t {
        ProcessType::SystemProcess => 0,
        ProcessType::InteractiveProcess => 1,
        _ => 2,
    }
}

/// One step of the static multi-level queue: the highest non-empty level runs a step of its
/// own; no process changes level.
pub open spec fn mlq_step(levels: Seq<ReadyQueueView>, now: u64) -> (
    Seq<ReadyQueueView>,
    Result<Step, SchedError>,
) {
    let l = first_nonempty(levels);
    if l == 3 {
        (levels, Ok(Step::Idle))
    } else {
        let (w, r) = levels[l].executed(now);
        (levels.update(l, w), r)
    }
}

/// Level a process goes to after an unfinished dispatch from level `l`: down from the first
/// level; from the others one level up once its waiting time has reached its demand, else
/// back to the same level.
pub open spec fn feedback_level(l: int, p: Process) -> int {
    if l == 0 {
        1
    } else if p.waiting_time >= p.cpu_burst_time {
        l - 1
    } else {
        l
    }
}

/// One step of the feedback queue.
pub open spec fn mlfq_step(levels: Seq<ReadyQueueView>, now: u64) -> (
    Seq<ReadyQueueView>,
    Result<Step, SchedError>,
) {
    let l = first_nonempty(levels);
    if l == 3 {
        (levels, Ok(Step::Idle))
    } else {
        let (w, r) = levels[l].dispatched(now);
        let lv = levels.update(l, w);
        let switch = levels[l].context_switch;
        match r {
            Ok(Dispatch::Idle) => (lv, Ok(Step::Idle)),
            Ok(Dispatch::Finished { id, ran }) => (lv, Ok(Step::Finished { id, ran, switch })),
            Ok(Dispatch::Preempted { process, ran }) => {
                let t = feedback_level(l, process);
                (
                    lv.update(t, lv[t].enqueued(process)),
                    Ok(Step::Requeued { id: process.id, ran, switch }),
                )
            },
            Err(e) => (lv, Err(e)),
        }
    }
}

/// While the first or second level of the static multi-level queue holds a ready process,
/// a step leaves the third level untouched, and a step never moves a process between levels.
pub proof fn lemma_mlq_priority(levels: Seq<ReadyQueueView>, now: u64)
    requires
        levels.len() == 3,
    ensures
        levels[0].processes.len() > 0 || levels[1].processes.len() > 0 ==> mlq_step(levels, now).0[2]
            == levels[2],
        levels[0].processes.len() > 0 ==> mlq_step(levels, now).0[1] == levels[1],
        mlq_step(levels, now).0.len() == 3,
{
}

/// A dispatch from the first level of the feedback queue that does not finish its process
/// puts that process at the tail of the second level, once, and nowhere else.
pub proof fn lemma_mlfq_demotion(levels: Seq<ReadyQueueView>, now: u64)
    requires
        levels.len() == 3,
        levels[0].processes.len() > 0,
    ensures
        ({
            let (w, r) = levels[0].dispatched(now);
            r matches Ok(Dispatch::Preempted { process, ran: _ }) ==> mlfq_step(levels, now).0
                == seq![w, levels[1].enqueued(process), levels[2]]
        }),
{
    let (w, r) = levels[0].dispatched(now);
    if let Ok(Dispatch::Preempted { process, ran: _ }) = r {
        assert(mlfq_step(levels, now).0 =~= seq![w, levels[1].enqueued(process), levels[2]]);
    }
}

/// An empty level with the given configuration.
pub open spec fn empty_level(d: QueueDiscipline, context_switch: u64, time_quantum: u64) -> ReadyQueueView {
    ReadyQueueView {
        processes: Seq::empty(),
        finished: Seq::empty(),
        discipline: d,
        time_quantum,
        context_switch,
    }
}

/// The first-level quantum of a feedback queue configured with `q`: `q` itself, raised to
/// 1 when it is 0 and lowered to `u64::MAX / 4` when larger, so that the levels' quanta
/// `b`, `2b` and `4b` are all distinct and representable.
pub open spec fn feedback_base(q: u64) -> u64 {
    if q == 0 {
        1
    } else if q > u64::MAX / 4 {
        (u64::MAX / 4) as u64
    } else {
        q
    }
}

/// The quantum of level `l` (0, 1 or 2) of a feedback queue configured with `q`.
pub open spec fn feedback_quantum(q: u64, l: int) -> u64 {
    if l == 0 {
        feedback_base(q)
    } else if l == 1 {
        (2 * feedback_base(q)) as u64
    } else {
        (4 * feedback_base(q)) as u64
    }
}

/// The feedback quanta are distinct and grow with the level; the first is the configured
/// quantum whenever that is positive and at most `u64::MAX / 4`.
pub proof fn lemma_feedback_quanta(q: u64)
    ensures
        0 < feedback_quantum(q, 0) < feedback_quantum(q, 1) < feedback_quantum(q, 2),
        feedback_quantum(q, 1) == 2 * feedback_quantum(q, 0),
        feedback_quantum(q, 2) == 4 * feedback_quantum(q, 0),
        0 < q <= u64::MAX / 4 ==> feedback_quantum(q, 0) == q,
{
}

/// Static multi-level queue: three ready queues by process class, in strict priority.
pub struct MLQ {
    pub queue_1: ReadyQueue,
    pub queue_2: ReadyQueue,
    pub queue_3: ReadyQueue,
}

impl MLQ {
    pub open spec fn levels(&self) -> Seq<ReadyQueueView> {
        seq![self.queue_1@, self.queue_2@, self.queue_3@]
    }

    pub open spec fn wf(&self) -> bool {
        self.queue_1@.wf() && self.queue_2@.wf() && self.queue_3@.wf()
    }

    pub fn init(
        q1_d: QueueDiscipline,
        q2_d: QueueDiscipline,
        q3_d: QueueDiscipline,
        context_switch: u64,
        time_quantum: u64,
    ) -> (m: MLQ)
        ensures
            m.wf(),
            m.levels() == seq![
                empty_level(q1_d, context_switch, time_quantum),
                empty_level(q2_d, context_switch, time_quantum),
                empty_level(q3_d, context_switch, time_quantum),
            ],
    {
        MLQ {
            queue_1: ReadyQueue::new(q1_d, context_switch, time_quantum),
            queue_2: ReadyQueue::new(q2_d, context_switch, time_quantum),
            queue_3: ReadyQueue::new(q3_d, context_switch, time_quantum),
        }
    }

    /// Admits `process` to the level of its class: system processes to the first,
    /// interactive ones to the second, all others to the third.
    pub fn enqueue(&mut self, process: Process)
        requires
            old(self).wf(),
            process.wf(),
        ensures
            final(self).wf(),
            final(self).levels() == old(self).levels().update(
                class_level(process.process_type),
                old(self).levels()[class_level(process.process_type)].enqueued(process),
            ),
    {
        match process.process_type {
            ProcessType::SystemProcess => self.queue_1.enqueue(process),
            ProcessType::InteractiveProcess => self.queue_2.enqueue(process),
            _ => self.queue_3.enqueue(process),
        }
        proof {
            assert(self.levels() =~= old(self).levels().update(
                class_level(process.process_type),
                old(self).levels()[class_level(process.process_type)].enqueued(process),
            ));
        }
    }

    /// Runs one step of the highest-priority level that has a ready process.
    pub fn execute_next(&mut self, now: u64) -> (r: Result<Step, SchedError>)
        requires
            old(self).wf(),
        ensures
            final(self).wf(),
            (final(self).levels(), r) == mlq_step(old(self).levels(), now),
    {
        let r = if !self.queue_1.is_queue_empty() {
            self.queue_1.execute_next(now)
        } else if !self.queue_2.is_queue_empty() {
            self.queue_2.execute_next(now)
        } else if !self.queue_3.is_queue_empty() {
            self.queue_3.execute_next(now)
        } else {
            Ok(Step::Idle)
        };
        proof {
            assert(self.levels() =~= mlq_step(old(self).levels(), now).0);
        }
        r
    }

    pub fn is_queue_empty(&self) -> (r: bool)
        ensures
            r == (first_nonempty(self.levels()) == 3),
    {
        self.queue_1.is_queue_empty() && self.queue_2.is_queue_empty()
            && self.queue_3.is_queue_empty()
    }

    /// Aggregate metrics of each level.
    pub fn calculate_metric(&self) -> (m: [AggregateMetrics; 3])
        ensures
            m@ == seq![
                aggregate_of(self.queue_1@.finished),
                aggregate_of(self.queue_2@.finished),
                aggregate_of(self.queue_3@.finished),
            ],
    {
        let m = [
            self.queue_1.calculate_metrics(),
            self.queue_2.calculate_metrics(),
            self.queue_3.calculate_metrics(),
        ];
        proof {
            assert(m@ =~= seq![
                aggregate_of(self.queue_1@.finished),
                aggregate_of(self.queue_2@.finished),
                aggregate_of(self.queue_3@.finished),
            ]);
        }
        m
    }
}

/// Multi-level feedback queue: every process enters at the first level, and moves between
/// levels by the outcome of its dispatches.
pub struct MLFQ {
    pub queue_1: ReadyQueue,
    pub queue_2: ReadyQueue,
    pub queue_3: ReadyQueue,
}

impl MLFQ {
    pub open spec fn levels(&self) -> Seq<ReadyQueueView> {
        seq![self.queue_1@, self.queue_2@, self.queue_3@]
    }

    pub open spec fn wf(&self) -> bool {
        self.queue_1@.wf() && self.queue_2@.wf() && self.queue_3@.wf()
    }

    /// Three levels whose quanta are `b`, `2b` and `4b` for `b = feedback_base(time_quantum)`:
    /// distinct, the shortest at the first level, and `b == time_quantum` whenever
    /// `0 < time_quantum <= u64::MAX / 4`.
    pub fn init(
        q1_d: QueueDiscipline,
        q2_d: QueueDiscipline,
        q3_d: QueueDiscipline,
        context_switch: u64,
        time_quantum: u64,
    ) -> (m: MLFQ)
        ensures
            m.wf(),
            m.levels() == seq![
                empty_level(q1_d, context_switch, feedback_quantum(time_quantum, 0)),
                empty_level(q2_d, context_switch, feedback_quantum(time_quantum, 1)),
                empty_level(q3_d, context_switch, feedback_quantum(time_quantum, 2)),
            ],
            m.queue_1@.time_quantum < m.queue_2@.time_quantum < m.queue_3@.time_quantum,
            0 < time_quantum <= u64::MAX / 4 ==> m.queue_1@.time_quantum == time_quantum,
    {
        let base: u64 = if time_quantum == 0 {
            1
        } else if time_quantum > u64::MAX / 4 {
            u64::MAX / 4
        } else {
            time_quantum
        };
        MLFQ {
            queue_1: ReadyQueue::new(q1_d, context_switch, base),
            queue_2: ReadyQueue::new(q2_d, context_switch, 2 * base),
            queue_3: ReadyQueue::new(q3_d, context_switch, 4 * base),
        }
    }

    /// Admits `process` to the first level, whatever its class.
    pub fn enqueue(&mut self, process: Process)
        requires
            old(self).wf(),
            process.wf(),
        ensures
            final(self).wf(),
            final(self).levels() == old(self).levels().update(
                0,
                old(self).levels()[0].enqueued(process),
            ),
    {
        self.queue_1.enqueue(process);
        proof {
            assert(self.levels() =~= old(self).levels().update(
                0,
                old(self).levels()[0].enqueued(process),
            ));
        }
    }

    /// Runs one dispatch on the highest non-empty level and moves a process that did not
    /// finish to the level `feedback_level` gives.
    pub fn execute_next(&mut self, now: u64) -> (r: Result<Step, SchedError>)
        requires
            old(self).wf(),
        ensures
            final(self).wf(),
            (final(self).levels(), r) == mlfq_step(old(self).levels(), now),
    {
        let r = if !self.queue_1.is_queue_empty() {
            let switch = self.queue_1.context_switch();
            match self.queue_1.dispatch_next(now) {
                Ok(Dispatch::Preempted { process, ran }) => {
                    let id = process.id;
                    self.queue_2.enqueue(process);
                    Ok(Step::Requeued { id, ran, switch })
                },
                Ok(Dispatch::Finished { id, ran }) => Ok(Step::Finished { id, ran, switch }),
                Ok(Dispatch::Idle) => Ok(Step::Idle),
                Err(e) => Err(e),
            }
        } else if !self.queue_2.is_queue_empty() {
            let switch = self.queue_2.context_switch();
            match self.queue_2.dispatch_next(now) {
                Ok(Dispatch::Preempted { process, ran }) => {
                    let id = process.id;
                    if process.waiting_time >= process.cpu_burst_time {
                        self.queue_1.enqueue(process);
                    } else {
                        self.queue_2.enqueue(process);
                    }
                    Ok(Step::Requeued { id, ran, switch })
                },
                Ok(Dispatch::Finished { id, ran }) => Ok(Step::Finished { id, ran, switch }),
                Ok(Dispatch::Idle) => Ok(Step::Idle),
                Err(e) => Err(e),
            }
        } else if !self.queue_3.is_queue_empty() {
            let switch = self.queue_3.context_switch();
            match self.queue_3.dispatch_next(now) {
                Ok(Dispatch::Preempted { process, ran }) => {
                    let id = process.id;
                    if process.waiting_time >= process.cpu_burst_time {
                        self.queue_2.enqueue(process);
                    } else {
                        self.queue_3.enqueue(process);
                    }
                    Ok(Step::Requeued { id, ran, switch })
                },
                Ok(Dispatch::Finished { id, ran }) => Ok(Step::Finished { id, ran, switch }),
                Ok(Dispatch::Idle) => Ok(Step::Idle),
                Err(e) => Err(e),
            }
        } else {
            Ok(Step::Idle)
        };
        proof {
            assert(self.levels() =~= mlfq_step(old(self).levels(), now).0);
        }
        r
    }

    /// Aggregate metrics of each level.
    pub fn calculate_metric(&self) -> (m: [AggregateMetrics; 3])
        ensures
            m@ == seq![
                aggregate_of(self.queue_1@.finished),
                aggregate_of(self.queue_2@.finished),
                aggregate_of(self.queue_3@.finished),
            ],
    {
        let m = [
            self.queue_1.calculate_metrics(),
            self.queue_2.calculate_metrics(),
            self.queue_3.calculate_metrics(),
        ];
        proof {
            assert(m@ =~= seq![
                aggregate_of(self.queue_1@.finished),
                aggregate_of(self.queue_2@.finished),
                aggregate_of(self.queue_3@.finished),
            ]);
        }
        m
    }

    pub fn is_queue_empty(&self) -> (r: bool)
        ensures
            r == (first_nonempty(self.levels()) == 3),
    {
        self.queue_1.is_queue_empty() && self.queue_2.is_queue_empty()
            && self.queue_3.is_queue_empty()
    }
}

} // verus!
