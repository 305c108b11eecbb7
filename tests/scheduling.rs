use cpu_sched_sim::discipline::{QueueDiscipline, Queues};
use cpu_sched_sim::multilevel::{MLFQ, MLQ};
use cpu_sched_sim::process::{Metrics, Process, ProcessStatus, ProcessType, SchedError};
use cpu_sched_sim::ready_queue::{Dispatch, ReadyQueue, Step};

fn batch(burst: u64, arrival: u64) -> Process {
    Process::new(burst, arrival, Some(ProcessType::BatchProcess))
}

fn finished_id(step: Result<Step, SchedError>) -> (uuid::Uuid, u64) {
    match step {
        Ok(Step::Finished { id, ran, .. }) => (id, ran),
        other => panic!("expected a finished step, got {:?}", other),
    }
}

fn requeued_id(step: Result<Step, SchedError>) -> (uuid::Uuid, u64) {
    match step {
        Ok(Step::Requeued { id, ran, .. }) => (id, ran),
        other => panic!("expected a requeued step, got {:?}", other),
    }
}

fn completion_order(discipline: QueueDiscipline) -> Vec<u64> {
    let mut q = ReadyQueue::new(discipline, 0, 100);
    q.enqueue(batch(50, 0));
    q.enqueue(batch(10, 5));
    q.enqueue(batch(10, 10));
    let mut now: u64 = 10;
    while !q.is_queue_empty() {
        let (_, ran) = finished_id(q.execute_next(now));
        now += ran;
    }
    q.finished_processes().iter().map(|p| p.arrival_time).collect()
}

#[test]
fn fifo_completes_in_arrival_order() {
    assert_eq!(completion_order(QueueDiscipline::FIFO), vec![0, 5, 10]);
}

#[test]
fn fcfs_completes_in_arrival_order() {
    assert_eq!(completion_order(QueueDiscipline::FCFS), vec![0, 5, 10]);
}

#[test]
fn fifo_accounts_waiting_and_turnaround() {
    let mut q = ReadyQueue::new(QueueDiscipline::FIFO, 0, 100);
    q.enqueue(batch(50, 0));
    q.enqueue(batch(10, 5));
    q.enqueue(batch(10, 10));
    let mut now: u64 = 10;
    while !q.is_queue_empty() {
        let (_, ran) = finished_id(q.execute_next(now));
        now += ran;
    }
    let f = q.finished_processes();
    let waits: Vec<u64> = f.iter().map(|p| p.waiting_time).collect();
    let turns: Vec<u64> = f.iter().map(|p| p.metrics.total_time).collect();
    let resp: Vec<u64> = f.iter().map(|p| p.metrics.response_time).collect();
    assert_eq!(waits, vec![10, 55, 60]);
    assert_eq!(turns, vec![60, 65, 70]);
    assert_eq!(resp, vec![10, 55, 60]);
    let m = q.calculate_metrics();
    assert_eq!(m.finished, 3);
    assert_eq!(m.average_turnaround_time, 65);
    assert_eq!(m.average_waiting_time, 41);
    assert_eq!(m.average_response_time, 41);
    assert_eq!(m.total_service_time, 70);
    assert_eq!(m.total_turnaround_time, 195);
}

fn shortest_first(discipline: QueueDiscipline) -> Vec<u64> {
    let mut q = ReadyQueue::new(discipline, 0, 100);
    q.enqueue(batch(30, 0));
    q.enqueue(batch(10, 0));
    q.enqueue(batch(20, 0));
    let mut now: u64 = 0;
    let mut order = Vec::new();
    while !q.is_queue_empty() {
        let (_, ran) = finished_id(q.execute_next(now));
        order.push(ran);
        now += ran;
    }
    order
}

#[test]
fn spn_selects_shortest_demand_first() {
    assert_eq!(shortest_first(QueueDiscipline::SPN), vec![10, 20, 30]);
}

#[test]
fn sjf_selects_shortest_demand_first() {
    assert_eq!(shortest_first(QueueDiscipline::SJF), vec![10, 20, 30]);
}

#[test]
fn spn_keeps_insertion_order_on_equal_demand() {
    let mut q = ReadyQueue::new(QueueDiscipline::SPN, 0, 100);
    let a = batch(10, 0);
    let b = batch(10, 1);
    let c = batch(5, 2);
    let (ia, ib, ic) = (a.id, b.id, c.id);
    q.enqueue(a);
    q.enqueue(b);
    q.enqueue(c);
    q.sort(2);
    let ids: Vec<uuid::Uuid> = q.get_data().iter().map(|p| p.id).collect();
    assert_eq!(ids, vec![ic, ia, ib]);
}

/// A process that has already been served once and so has waited only `waited` in all,
/// ready again since `now`.
fn served_before(burst: u64, arrival: u64, waited: u64, now: u64) -> Process {
    Process {
        id: uuid::Uuid::new_v4(),
        arrival_time: arrival,
        cpu_burst_time: burst,
        status: ProcessStatus::Ready,
        waiting_time: waited,
        processed_time: 0,
        process_type: ProcessType::BatchProcess,
        last_execution: Some(arrival),
        ready_since: now,
        metrics: Metrics { response_time: waited, total_waiting_time: waited, total_time: waited },
    }
}

#[test]
fn hrrn_prefers_higher_response_ratio() {
    let now: u64 = 95;
    // ratio (10 + 10) / 10 = 2, arrived first
    let early = served_before(10, 0, 10, now);
    // ratio (90 + 10) / 10 = 10, arrived later and never served
    let late = batch(10, 5);
    let late_id = late.id;
    let mut q = ReadyQueue::new(QueueDiscipline::HRRN, 0, 100);
    q.enqueue(early);
    q.enqueue(late);
    let (id, ran) = finished_id(q.execute_next(now));
    assert_eq!(id, late_id);
    assert_eq!(ran, 10);
    assert_eq!(q.finished_processes()[0].waiting_time, 90);
}

#[test]
fn hrrn_ratio_grows_with_waiting_time() {
    // both never served: the one that has waited longer relative to its demand goes first
    let mut q = ReadyQueue::new(QueueDiscipline::HRRN, 0, 100);
    let long = batch(100, 0);
    let short = batch(10, 50);
    let short_id = short.id;
    q.enqueue(long);
    q.enqueue(short);
    // at 60: long (60 + 100) / 100 = 1.6, short (10 + 10) / 10 = 2
    let (id, _) = finished_id(q.execute_next(60));
    assert_eq!(id, short_id);
}

#[test]
fn rr_needs_three_dispatches_for_250_with_quantum_100() {
    let mut q = ReadyQueue::new(QueueDiscipline::RR, 0, 100);
    q.enqueue(batch(250, 0));
    let mut now: u64 = 0;
    let mut slices = Vec::new();
    loop {
        match q.dispatch_next(now).unwrap() {
            Dispatch::Preempted { process, ran } => {
                assert_eq!(process.status, ProcessStatus::Waiting);
                assert!(process.processed_time <= process.cpu_burst_time);
                slices.push(ran);
                now += ran;
                q.enqueue(process);
            }
            Dispatch::Finished { ran, .. } => {
                slices.push(ran);
                break;
            }
            Dispatch::Idle => panic!("queue should not be idle"),
        }
    }
    assert_eq!(slices, vec![100, 100, 50]);
    let p = &q.finished_processes()[0];
    assert_eq!(p.status, ProcessStatus::Terminated);
    assert_eq!(p.processed_time, 250);
}

#[test]
fn rr_requeues_at_the_tail() {
    let mut q = ReadyQueue::new(QueueDiscipline::RR, 3, 100);
    let a = batch(150, 0);
    let b = batch(50, 0);
    let (ia, ib) = (a.id, b.id);
    q.enqueue(a);
    q.enqueue(b);
    let (id, ran) = requeued_id(q.execute_next(0));
    assert_eq!((id, ran), (ia, 100));
    let ids: Vec<uuid::Uuid> = q.get_data().iter().map(|p| p.id).collect();
    assert_eq!(ids, vec![ib, ia]);
    assert_eq!(q.get_data()[1].status, ProcessStatus::Ready);
    match q.execute_next(103) {
        Ok(Step::Finished { id, ran, switch }) => assert_eq!((id, ran, switch), (ib, 50, 3)),
        other => panic!("unexpected {:?}", other),
    }
}

#[test]
fn srtf_orders_by_remaining_time() {
    let mut q = ReadyQueue::new(QueueDiscipline::SRF, 0, 30);
    let a = batch(100, 0);
    let b = batch(40, 0);
    let (ia, ib) = (a.id, b.id);
    q.enqueue(a);
    q.enqueue(b);
    // b has 40 left, a has 100: b runs 30, leaving 10
    assert_eq!(requeued_id(q.execute_next(0)), (ib, 30));
    assert_eq!(finished_id(q.execute_next(30)), (ib, 10));
    assert_eq!(requeued_id(q.execute_next(40)), (ia, 30));
}

#[test]
fn processed_time_never_exceeds_demand() {
    let mut q = ReadyQueue::new(QueueDiscipline::RR, 0, 7);
    q.enqueue(batch(20, 0));
    q.enqueue(batch(9, 0));
    let mut now: u64 = 0;
    while !q.is_queue_empty() {
        let ran = match q.execute_next(now).unwrap() {
            Step::Finished { ran, .. } | Step::Requeued { ran, .. } => ran,
            Step::Idle => 0,
        };
        for p in q.get_data().iter().chain(q.finished_processes().iter()) {
            assert!(p.processed_time <= p.cpu_burst_time);
        }
        now += ran;
    }
    for p in q.finished_processes() {
        assert_eq!(p.processed_time, p.cpu_burst_time);
        assert_eq!(p.metrics.total_time, p.waiting_time + p.processed_time);
    }
}

#[test]
fn turnaround_is_waiting_plus_processed() {
    let mut q = ReadyQueue::new(QueueDiscipline::RR, 0, 10);
    q.enqueue(batch(25, 0));
    q.enqueue(batch(15, 3));
    let mut now: u64 = 3;
    while !q.is_queue_empty() {
        let ran = match q.execute_next(now).unwrap() {
            Step::Finished { ran, .. } | Step::Requeued { ran, .. } => ran,
            Step::Idle => 0,
        };
        now += ran + 2;
    }
    for p in q.finished_processes() {
        assert_eq!(p.status, ProcessStatus::Terminated);
        assert_eq!(p.metrics.total_time, p.waiting_time + p.processed_time);
        assert_eq!(p.metrics.total_waiting_time, p.waiting_time);
    }
}

#[test]
fn mlq_system_process_runs_before_earlier_batch() {
    let mut m = MLQ::init(QueueDiscipline::FCFS, QueueDiscipline::FCFS, QueueDiscipline::FCFS, 0, 100);
    let b = Process::new(30, 0, Some(ProcessType::BatchProcess));
    let s = Process::new(20, 5, Some(ProcessType::SystemProcess));
    let i = Process::new(10, 6, Some(ProcessType::InteractiveProcess));
    let (ib, is, ii) = (b.id, s.id, i.id);
    m.enqueue(b);
    m.enqueue(s);
    m.enqueue(i);
    assert_eq!(finished_id(m.execute_next(6)), (is, 20));
    assert_eq!(m.queue_3.get_data()[0].processed_time, 0);
    assert_eq!(finished_id(m.execute_next(26)), (ii, 10));
    assert_eq!(m.queue_3.get_data()[0].processed_time, 0);
    assert_eq!(finished_id(m.execute_next(36)), (ib, 30));
    assert!(m.is_queue_empty());
    let metrics = m.calculate_metric();
    assert_eq!(metrics[0].finished, 1);
    assert_eq!(metrics[2].average_waiting_time, 36);
}

#[test]
fn mlq_student_processes_go_to_the_last_level() {
    let mut m = MLQ::init(QueueDiscipline::RR, QueueDiscipline::RR, QueueDiscipline::RR, 0, 10);
    m.enqueue(Process::new(5, 0, Some(ProcessType::StudentProcess)));
    assert!(m.queue_1.is_queue_empty());
    assert!(m.queue_2.is_queue_empty());
    assert_eq!(m.queue_3.get_data().len(), 1);
}

#[test]
fn mlfq_demotes_once_per_unfinished_first_level_dispatch() {
    let mut m = MLFQ::init(QueueDiscipline::RR, QueueDiscipline::RR, QueueDiscipline::RR, 0, 10);
    assert_eq!(m.queue_1.time_quantum(), 10);
    assert_eq!(m.queue_2.time_quantum(), 20);
    assert_eq!(m.queue_3.time_quantum(), 40);
    let a = batch(100, 0);
    let b = batch(100, 0);
    let (ia, ib) = (a.id, b.id);
    m.enqueue(a);
    m.enqueue(b);
    assert_eq!(requeued_id(m.execute_next(0)), (ia, 10));
    assert_eq!(m.queue_1.get_data().len(), 1);
    assert_eq!(m.queue_2.get_data().len(), 1);
    assert!(m.queue_3.is_queue_empty());
    assert_eq!(requeued_id(m.execute_next(10)), (ib, 10));
    assert!(m.queue_1.is_queue_empty());
    let ids: Vec<uuid::Uuid> = m.queue_2.get_data().iter().map(|p| p.id).collect();
    assert_eq!(ids, vec![ia, ib]);
    assert!(m.queue_3.is_queue_empty());
}

#[test]
fn mlfq_keeps_a_process_at_level_two_while_waiting_is_short() {
    let mut m = MLFQ::init(QueueDiscipline::RR, QueueDiscipline::RR, QueueDiscipline::RR, 0, 10);
    m.enqueue(batch(100, 0));
    requeued_id(m.execute_next(0));
    // from level 2 at 10: waited 0 < 100, it stays at level 2
    assert_eq!(requeued_id(m.execute_next(10)).1, 20);
    assert_eq!(m.queue_2.get_data().len(), 1);
    assert!(m.queue_1.is_queue_empty());
    assert!(m.queue_3.is_queue_empty());
}

#[test]
fn mlfq_promotes_after_waiting_its_demand() {
    let mut m = MLFQ::init(QueueDiscipline::RR, QueueDiscipline::RR, QueueDiscipline::RR, 0, 10);
    m.enqueue(batch(50, 0));
    requeued_id(m.execute_next(0));
    // from level 2 at 100: waited 90 >= 50, back to level 1
    assert_eq!(requeued_id(m.execute_next(100)).1, 20);
    assert_eq!(m.queue_1.get_data().len(), 1);
    assert_eq!(m.queue_1.get_data()[0].processed_time, 30);
    assert!(m.queue_2.is_queue_empty());
}

#[test]
fn metrics_are_zero_without_finished_processes() {
    let q = ReadyQueue::new(QueueDiscipline::FIFO, 0, 100);
    let m = q.calculate_metrics();
    assert_eq!(m.finished, 0);
    assert_eq!(m.average_turnaround_time, 0);
    assert_eq!(m.average_waiting_time, 0);
    assert_eq!(m.average_response_time, 0);
    assert_eq!(m.total_service_time, 0);
    assert_eq!(m.total_turnaround_time, 0);
}

#[test]
fn metrics_of_one_process_are_its_own() {
    let mut q = ReadyQueue::new(QueueDiscipline::FIFO, 0, 100);
    q.enqueue(batch(40, 10));
    finished_id(q.execute_next(25));
    let p = &q.finished_processes()[0];
    let m = q.calculate_metrics();
    assert_eq!(m.finished, 1);
    assert_eq!(m.average_turnaround_time, p.metrics.total_time);
    assert_eq!(m.average_waiting_time, p.metrics.total_waiting_time);
    assert_eq!(m.average_response_time, p.metrics.response_time);
    assert_eq!(m.average_turnaround_time, 55);
    assert_eq!(m.average_waiting_time, 15);
    assert_eq!(m.total_service_time, 40);
    assert_eq!(m.total_turnaround_time, 55);
}

#[test]
fn clock_behind_leaves_process_unchanged() {
    let mut p = batch(10, 50);
    assert_eq!(p.run_with_interrupt(5, 40), Err(SchedError::ClockBehind));
    assert_eq!(p.processed_time, 0);
    assert_eq!(p.status, ProcessStatus::New);
    assert_eq!(p.last_execution, None);
}

#[test]
fn clock_overflow_is_reported() {
    let mut p = batch(10, 0);
    assert_eq!(p.run(u64::MAX - 5), Err(SchedError::ClockOverflow));
    assert_eq!(p.processed_time, 0);
}

#[test]
fn run_completes_and_records_response_time() {
    let mut p = batch(30, 5);
    assert_eq!(p.run(12), Ok(30));
    assert_eq!(p.status, ProcessStatus::Terminated);
    assert_eq!(p.metrics.response_time, 7);
    assert_eq!(p.metrics.total_time, 37);
    assert_eq!(p.ready_since, 42);
    assert_eq!(p.last_execution, Some(12));
}

#[test]
fn waiting_time_accrues_between_slices() {
    let mut p = batch(30, 0);
    assert_eq!(p.run_with_interrupt(10, 4), Ok(10));
    assert_eq!(p.waiting_time, 4);
    assert_eq!(p.status, ProcessStatus::Waiting);
    assert_eq!(p.run_with_interrupt(10, 20), Ok(10));
    assert_eq!(p.waiting_time, 10);
    assert_eq!(p.metrics.response_time, 4);
    assert_eq!(p.waited(35), 15);
}

#[test]
fn queue_keeps_process_on_clock_error() {
    let mut q = ReadyQueue::new(QueueDiscipline::FIFO, 0, 100);
    q.enqueue(batch(10, 50));
    assert_eq!(q.execute_next(10).unwrap_err(), SchedError::ClockBehind);
    assert_eq!(q.get_data().len(), 1);
    assert!(q.finished_processes().is_empty());
}

#[test]
fn empty_queue_step_is_idle() {
    let mut q = ReadyQueue::new(QueueDiscipline::RR, 0, 100);
    assert!(matches!(q.execute_next(0), Ok(Step::Idle)));
    assert!(q.dequeue(0).is_none());
}

#[test]
fn zero_demand_process_terminates_at_once() {
    let mut q = ReadyQueue::new(QueueDiscipline::RR, 0, 100);
    q.enqueue(batch(0, 0));
    assert_eq!(finished_id(q.execute_next(3)).1, 0);
    assert_eq!(q.finished_processes()[0].metrics.total_time, 3);
}

#[test]
fn random_classes_vary() {
    let mut seen = Vec::new();
    for _ in 0..400 {
        let p = Process::new(1, 0, None);
        if !seen.contains(&p.process_type) {
            seen.push(p.process_type);
        }
    }
    assert!(seen.len() >= 2);
}

#[test]
fn preemptive_disciplines() {
    assert!(QueueDiscipline::RR.is_preemptive());
    assert!(QueueDiscipline::SRF.is_preemptive());
    assert!(!QueueDiscipline::SJF.is_preemptive());
    assert!(!QueueDiscipline::HRRN.is_preemptive());
    assert!(!ReadyQueue::new(QueueDiscipline::FIFO, 0, 1).is_preemptive());
}

#[test]
fn scheduler_names() {
    assert_eq!(Queues::from_name("SRTF"), Some(Queues::SRF));
    assert_eq!(Queues::from_name("MLFQ"), Some(Queues::MLFQ));
    assert_eq!(Queues::from_name(" RR"), None);
    assert_eq!(Queues::from_name_or_fifo("bogus"), (Queues::FIFO, false));
    assert_eq!(Queues::from_name_or_fifo("HRRN"), (Queues::HRRN, true));
    assert_eq!(Queues::from_index(7), Queues::MLQ);
    assert_eq!(Queues::from_index(42), Queues::FIFO);
    assert_eq!(Queues::SRF.name(), "SRF");
}

#[test]
fn level_names_are_trimmed() {
    assert_eq!(QueueDiscipline::parse_level("  HRRN\t"), QueueDiscipline::HRRN);
    assert_eq!(QueueDiscipline::parse_level("SRTF"), QueueDiscipline::SRF);
    assert_eq!(QueueDiscipline::parse_level("FIFO"), QueueDiscipline::RR);
    assert_eq!(QueueDiscipline::from_level_name(" SJF"), QueueDiscipline::RR);
}

#[test]
fn class_names_are_trimmed() {
    assert_eq!(ProcessType::parse(" student "), Some(ProcessType::StudentProcess));
    assert_eq!(ProcessType::parse("system"), Some(ProcessType::SystemProcess));
    assert_eq!(ProcessType::parse("teacher"), None);
    assert_eq!(ProcessType::from_name(" batch"), None);
}

#[test]
fn unicode_white_space_is_trimmed() {
    assert_eq!(QueueDiscipline::parse_level("\u{3000}SJF\u{a0}\u{2009}"), QueueDiscipline::SJF);
    assert_eq!(ProcessType::parse("\u{85}system\u{205f}"), Some(ProcessType::SystemProcess));
    assert_eq!(ProcessType::parse("\u{200b}system"), None);
}
