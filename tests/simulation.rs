use cpu_sched_sim::arrivals::ArrivalSchedule;
use cpu_sched_sim::discipline::{QueueDiscipline, Queues};
use cpu_sched_sim::process::ProcessType;
use cpu_sched_sim::ready_queue::Step;
use cpu_sched_sim::simulator::{
    pending_from_samples, PendingProcess, Queue, QueueMetrics, Simulator,
};

/// Runs a simulation on a logical clock: each step advances the clock by the slice and the
/// context switch; an idle structure jumps to the next arrival.
fn run_to_end(sim: &mut Simulator) -> Vec<Step> {
    let mut now: u64 = 0;
    let mut steps = Vec::new();
    while !sim.is_finished() {
        sim.admit_due(now);
        if sim.is_queue_empty() {
            now = sim.next_arrival().unwrap();
            continue;
        }
        let step = sim.execute_queue(now).unwrap();
        match step {
            Step::Finished { ran, switch, .. } | Step::Requeued { ran, switch, .. } => {
                now += ran + switch
            }
            Step::Idle => {}
        }
        steps.push(step);
    }
    steps
}

fn pending(entries: &[(u64, u64, Option<&str>)]) -> Vec<PendingProcess> {
    entries
        .iter()
        .map(|(a, b, c)| PendingProcess::from_entry(*a, *b, &c.map(String::from)))
        .collect()
}

#[test]
fn fifo_run_reports_mean_metrics() {
    let queue = Simulator::generate_queue(Queues::FIFO, 0, 100, None);
    let mut sim = Simulator::new(queue, pending(&[(0, 50, None), (5, 10, None), (10, 10, None)]));
    let steps = run_to_end(&mut sim);
    assert_eq!(steps.len(), 3);
    match sim.calc_q_metrics() {
        QueueMetrics::Single(m) => {
            assert_eq!(m.finished, 3);
            assert_eq!(m.average_turnaround_time, (50 + 55 + 60) / 3);
            assert_eq!(m.average_waiting_time, (0 + 45 + 50) / 3);
            assert_eq!(m.total_service_time, 70);
        }
        other => panic!("unexpected {:?}", other),
    }
}

#[test]
fn empty_run_reports_zero_metrics() {
    let queue = Simulator::generate_queue(Queues::RR, 5, 100, None);
    let sim = Simulator::new(queue, Vec::new());
    assert!(sim.is_finished());
    match sim.calc_q_metrics() {
        QueueMetrics::Single(m) => {
            assert_eq!(m.finished, 0);
            assert_eq!(m.average_turnaround_time, 0);
            assert_eq!(m.total_turnaround_time, 0);
        }
        other => panic!("unexpected {:?}", other),
    }
}

#[test]
fn workload_is_admitted_in_arrival_order() {
    let queue = Simulator::generate_queue(Queues::FIFO, 0, 100, None);
    let mut sim = Simulator::new(
        queue,
        pending(&[(10, 7, None), (3, 5, None), (10, 9, None), (0, 1, None)]),
    );
    assert_eq!(sim.next_arrival(), Some(0));
    sim.admit_due(10);
    match sim.queue() {
        Queue::ReadyQueue(q) => {
            let demands: Vec<u64> = q.get_data().iter().map(|p| p.cpu_burst_time).collect();
            assert_eq!(demands, vec![1, 5, 7, 9]);
        }
        _ => panic!("expected a single queue"),
    }
}

#[test]
fn admission_waits_for_arrival_time() {
    let queue = Simulator::generate_queue(Queues::FIFO, 0, 100, None);
    let mut sim = Simulator::new(queue, pending(&[(0, 5, None), (20, 5, None)]));
    sim.admit_due(10);
    assert_eq!(sim.next_arrival(), Some(20));
    match sim.queue() {
        Queue::ReadyQueue(q) => assert_eq!(q.get_data().len(), 1),
        _ => panic!("expected a single queue"),
    }
    sim.admit_due(20);
    assert_eq!(sim.next_arrival(), None);
    assert!(sim.queue().update_data().is_some());
}

#[test]
fn mlq_run_routes_by_class() {
    let levels = Some([
        String::from("FCFS"),
        String::from(" SJF "),
        String::from("nonsense"),
        String::from("RR"),
    ]);
    let queue = Simulator::generate_queue(Queues::MLQ, 0, 10, levels);
    match &queue {
        Queue::MultiLevel(m) => {
            assert_eq!(m.queue_1.discipline(), QueueDiscipline::FCFS);
            assert_eq!(m.queue_2.discipline(), QueueDiscipline::SJF);
            assert_eq!(m.queue_3.discipline(), QueueDiscipline::RR);
        }
        _ => panic!("expected a static multi-level queue"),
    }
    let entries = pending(&[(0, 30, Some("batch")), (0, 20, Some("system")), (0, 10, Some("interactive"))]);
    assert_eq!(entries[0].process_type, Some(ProcessType::BatchProcess));
    let mut sim = Simulator::new(queue, entries);
    run_to_end(&mut sim);
    match sim.calc_q_metrics() {
        QueueMetrics::MultiLevel(m) => {
            assert_eq!(m[0].finished, 1);
            assert_eq!(m[1].finished, 1);
            assert_eq!(m[2].finished, 1);
            // the system process first, the interactive one after it, batch last
            assert_eq!(m[0].average_waiting_time, 0);
            assert_eq!(m[1].average_waiting_time, 20);
            assert_eq!(m[2].average_waiting_time, 30);
        }
        other => panic!("unexpected {:?}", other),
    }
}

#[test]
fn mlfq_structure_has_growing_quanta() {
    let queue = Simulator::generate_queue(Queues::MLFQ, 2, 8, None);
    match &queue {
        Queue::MultiLevelFeedBack(m) => {
            assert_eq!(m.queue_1.time_quantum(), 8);
            assert_eq!(m.queue_2.time_quantum(), 16);
            assert_eq!(m.queue_3.time_quantum(), 32);
            assert_eq!(m.queue_1.discipline(), QueueDiscipline::RR);
            assert_eq!(m.queue_3.context_switch(), 2);
        }
        _ => panic!("expected a feedback queue"),
    }
    let mut sim = Simulator::new(queue, pending(&[(0, 60, None), (4, 5, None)]));
    run_to_end(&mut sim);
    match sim.calc_q_metrics() {
        QueueMetrics::Feedback(m) => {
            let done: u64 = m.iter().map(|x| x.finished).sum();
            assert_eq!(done, 2);
        }
        other => panic!("unexpected {:?}", other),
    }
}

#[test]
fn mlfq_quanta_stay_distinct_for_huge_quantum() {
    let queue = Simulator::generate_queue(Queues::MLFQ, 0, u64::MAX / 2, None);
    match &queue {
        Queue::MultiLevelFeedBack(m) => {
            assert_eq!(m.queue_1.time_quantum(), u64::MAX / 4);
            assert_eq!(m.queue_2.time_quantum(), 2 * (u64::MAX / 4));
            assert_eq!(m.queue_3.time_quantum(), 4 * (u64::MAX / 4));
            assert!(m.queue_2.time_quantum() < m.queue_3.time_quantum());
        }
        _ => panic!("expected a feedback queue"),
    }
}

#[test]
fn mlfq_zero_quantum_becomes_one() {
    let queue = Simulator::generate_queue(Queues::MLFQ, 0, 0, None);
    match &queue {
        Queue::MultiLevelFeedBack(m) => {
            assert_eq!(m.queue_1.time_quantum(), 1);
            assert_eq!(m.queue_2.time_quantum(), 2);
            assert_eq!(m.queue_3.time_quantum(), 4);
        }
        _ => panic!("expected a feedback queue"),
    }
    let mut sim = Simulator::new(queue, pending(&[(0, 5, None)]));
    let steps = run_to_end(&mut sim);
    assert_eq!(steps.len(), 3);
}

#[test]
fn single_queue_disciplines_follow_the_choice() {
    for (choice, d) in [
        (Queues::SPN, QueueDiscipline::SPN),
        (Queues::HRRN, QueueDiscipline::HRRN),
        (Queues::SRF, QueueDiscipline::SRF),
        (Queues::FCFS, QueueDiscipline::FCFS),
    ] {
        match Simulator::generate_queue(choice, 1, 2, None) {
            Queue::ReadyQueue(q) => {
                assert_eq!(q.discipline(), d);
                assert_eq!(q.context_switch(), 1);
                assert_eq!(q.time_quantum(), 2);
            }
            _ => panic!("expected a single queue"),
        }
    }
}

#[test]
fn arrival_schedule_is_strictly_ascending() {
    let mut s = ArrivalSchedule::new(3);
    assert!(s.offer(5));
    assert!(!s.offer(0));
    assert!(s.offer(3));
    assert!(!s.is_complete());
    assert!(s.offer(7));
    assert!(s.is_complete());
    assert!(!s.offer(1));
    assert_eq!(s.offsets(), &vec![5, 8, 15]);
}

#[test]
fn arrival_schedule_refuses_overflowing_sample() {
    let mut s = ArrivalSchedule::new(2);
    assert!(s.offer(u64::MAX));
    assert!(!s.offer(1));
    assert_eq!(s.offsets().len(), 1);
}

#[test]
fn generated_workload_pairs_samples() {
    let mut s = ArrivalSchedule::new(2);
    s.offer(4);
    s.offer(6);
    let p = pending_from_samples(s.offsets(), &vec![30, 40]);
    assert_eq!(p.len(), 2);
    assert_eq!(p[1], PendingProcess { arrival_time: 10, cpu_burst_time: 40, process_type: None });
}

#[test]
fn unknown_class_is_left_to_chance() {
    let e = PendingProcess::from_entry(1, 2, &Some(String::from("teacher")));
    assert_eq!(e.process_type, None);
    let e = PendingProcess::from_entry(1, 2, &None);
    assert_eq!(e.process_type, None);
}
