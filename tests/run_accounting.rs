use task_runner::runner::{Phase, RunnerError, TaskRunner};
use task_runner::task::{Step, Task, TaskKind, TaskStatus};

fn drive(task: &mut Task) {
    while task.step() != Step::Done {}
}

fn three_task_runner() -> TaskRunner {
    let mut r = TaskRunner::new();
    assert_eq!(r.add_task("Download Task 1".to_string(), TaskKind::Bounded, 100), Ok(0));
    assert_eq!(r.add_task("Generic Task 1".to_string(), TaskKind::Unbounded, 5000), Ok(1));
    assert_eq!(r.add_task("Download Task 2".to_string(), TaskKind::Bounded, 75), Ok(2));
    r
}

#[test]
fn three_tasks_all_finish() {
    let mut r = three_task_runner();
    let mut tasks = r.start().unwrap();
    assert_eq!(tasks.len(), 3);
    assert_eq!(r.phase(), Phase::Running);
    for (i, t) in tasks.iter_mut().enumerate() {
        drive(t);
        assert_eq!(r.record_completion(i), Ok(()));
    }
    assert_eq!(r.close_signals(), Ok(()));
    for (i, t) in tasks.into_iter().enumerate() {
        assert_eq!(r.record_join(i, t), Ok(()));
    }
    assert_eq!(r.close_joins(), Ok(()));
    assert_eq!(r.finish(), Ok(()));
    assert_eq!(r.phase(), Phase::Done);
    assert_eq!(r.task(0).unwrap().final_message(), "Download Task 1 finished");
    assert_eq!(r.task(1).unwrap().final_message(), "Generic Task 1 finished");
    assert_eq!(r.task(2).unwrap().final_message(), "Download Task 2 finished");
    assert_eq!(r.task(0).unwrap().position(), 100);
    assert_eq!(r.task(2).unwrap().position(), 75);
}

#[test]
fn signals_and_joins_in_any_order_give_the_same_statuses() {
    let mut r = three_task_runner();
    let mut tasks = r.start().unwrap();
    tasks[1].mark_failed("lost".to_string());
    for t in tasks.iter_mut() {
        drive(t);
    }
    let t2 = tasks.pop().unwrap();
    let t1 = tasks.pop().unwrap();
    let t0 = tasks.pop().unwrap();
    assert_eq!(r.record_completion(2), Ok(()));
    assert_eq!(r.record_completion(0), Ok(()));
    assert_eq!(r.record_completion(1), Ok(()));
    assert_eq!(r.close_signals(), Ok(()));
    assert_eq!(r.record_join(1, t1), Ok(()));
    assert_eq!(r.record_join(2, t2), Ok(()));
    assert_eq!(r.record_join(0, t0), Ok(()));
    assert_eq!(r.close_joins(), Ok(()));
    assert_eq!(r.finish(), Ok(()));
    assert!(matches!(r.task(0).unwrap().status(), TaskStatus::Finished));
    assert!(matches!(r.task(1).unwrap().status(), TaskStatus::Failed(ref s) if s == "lost"));
    assert!(matches!(r.task(2).unwrap().status(), TaskStatus::Finished));
}

#[test]
fn exactly_n_signals_are_accepted() {
    let mut r = three_task_runner();
    r.start().unwrap();
    assert_eq!(r.task_count(), 3);
    assert_eq!(r.record_completion(0), Ok(()));
    assert_eq!(r.record_completion(0), Err(RunnerError::DuplicateSignal));
    assert_eq!(r.record_completion(3), Err(RunnerError::UnknownTask));
    assert_eq!(r.close_signals(), Err(RunnerError::Pending));
    assert_eq!(r.record_completion(1), Ok(()));
    assert_eq!(r.record_completion(2), Ok(()));
    assert_eq!(r.close_signals(), Ok(()));
    assert_eq!(r.record_completion(2), Err(RunnerError::WrongPhase));
}

#[test]
fn joins_are_refused_before_drain_twice_or_unfinished() {
    let mut r = TaskRunner::new();
    r.add_task("a".to_string(), TaskKind::Bounded, 2).unwrap();
    r.add_task("b".to_string(), TaskKind::Bounded, 2).unwrap();
    let mut tasks = r.start().unwrap();
    let mut b = tasks.pop().unwrap();
    let mut a = tasks.pop().unwrap();
    drive(&mut a);
    let early = Task::new("a".to_string(), TaskKind::Bounded, 2);
    assert_eq!(r.record_join(0, early), Err(RunnerError::WrongPhase));
    r.record_completion(0).unwrap();
    r.record_completion(1).unwrap();
    r.close_signals().unwrap();
    assert_eq!(r.record_join(5, Task::new("c".to_string(), TaskKind::Bounded, 0)), Err(RunnerError::UnknownTask));
    b.step();
    let mut b2 = Task::new("b".to_string(), TaskKind::Bounded, 2);
    b2.step();
    assert_eq!(r.record_join(1, b2), Err(RunnerError::Unfinished));
    assert_eq!(r.record_join(0, a), Ok(()));
    let mut again = Task::new("a".to_string(), TaskKind::Bounded, 0);
    drive(&mut again);
    assert_eq!(r.record_join(0, again), Err(RunnerError::DuplicateJoin));
    assert_eq!(r.close_joins(), Err(RunnerError::Pending));
    assert_eq!(r.finish(), Err(RunnerError::WrongPhase));
    drive(&mut b);
    assert_eq!(r.record_join(1, b), Ok(()));
    assert_eq!(r.close_joins(), Ok(()));
    assert_eq!(r.phase(), Phase::Joined);
    assert_eq!(r.finish(), Ok(()));
    assert_eq!(r.task(1).unwrap().final_message(), "b finished");
    assert!(r.task(2).is_none());
}

#[test]
fn no_task_is_added_once_started() {
    let mut r = TaskRunner::new();
    r.add_task("a".to_string(), TaskKind::Bounded, 1).unwrap();
    assert_eq!(r.task(0).unwrap().label(), "a");
    r.start().unwrap();
    assert_eq!(r.add_task("late".to_string(), TaskKind::Bounded, 1), Err(RunnerError::WrongPhase));
    assert!(r.start().is_err());
    assert!(r.task(0).is_none());
    assert_eq!(r.task_count(), 1);
}

#[test]
fn phases_cannot_be_skipped() {
    let mut r = TaskRunner::new();
    assert_eq!(r.close_signals(), Err(RunnerError::WrongPhase));
    assert_eq!(r.close_joins(), Err(RunnerError::WrongPhase));
    assert_eq!(r.finish(), Err(RunnerError::WrongPhase));
    let tasks = r.start().unwrap();
    assert!(tasks.is_empty());
    assert_eq!(r.close_joins(), Err(RunnerError::WrongPhase));
    assert_eq!(r.close_signals(), Ok(()));
    assert_eq!(r.finish(), Err(RunnerError::WrongPhase));
    assert_eq!(r.close_joins(), Ok(()));
    assert_eq!(r.finish(), Ok(()));
    assert_eq!(r.phase(), Phase::Done);
}

#[test]
fn a_join_of_another_task_is_refused() {
    let mut r = TaskRunner::new();
    r.add_task("a".to_string(), TaskKind::Bounded, 2).unwrap();
    r.add_task("b".to_string(), TaskKind::Unbounded, 10).unwrap();
    let mut tasks = r.start().unwrap();
    for t in tasks.iter_mut() {
        drive(t);
    }
    let b = tasks.pop().unwrap();
    let a = tasks.pop().unwrap();
    r.record_completion(0).unwrap();
    r.record_completion(1).unwrap();
    r.close_signals().unwrap();
    let mut other_label = Task::new("z".to_string(), TaskKind::Bounded, 2);
    drive(&mut other_label);
    assert_eq!(r.record_join(0, other_label), Err(RunnerError::Mismatch));
    let mut other_total = Task::new("a".to_string(), TaskKind::Bounded, 3);
    drive(&mut other_total);
    assert_eq!(r.record_join(0, other_total), Err(RunnerError::Mismatch));
    let mut other_kind = Task::new("b".to_string(), TaskKind::Bounded, 10);
    drive(&mut other_kind);
    assert_eq!(r.record_join(1, other_kind), Err(RunnerError::Mismatch));
    assert_eq!(r.record_join(0, b), Err(RunnerError::Mismatch));
    assert_eq!(r.record_join(1, a), Err(RunnerError::Mismatch));
}

#[test]
fn an_observed_cancel_ends_finished_and_shows_cancelled() {
    let mut r = TaskRunner::new();
    r.add_task("Download".to_string(), TaskKind::Bounded, 50).unwrap();
    let mut tasks = r.start().unwrap();
    tasks[0].request_cancel();
    drive(&mut tasks[0]);
    r.record_completion(0).unwrap();
    r.close_signals().unwrap();
    r.record_join(0, tasks.pop().unwrap()).unwrap();
    r.close_joins().unwrap();
    r.finish().unwrap();
    let t = r.task(0).unwrap();
    assert!(matches!(t.status(), TaskStatus::Finished));
    assert!(t.was_cancelled());
    assert_eq!(t.position(), 0);
    assert_eq!(t.final_message(), "Download cancelled");
}
