use member_core::scheduler::{
    ScheduledTask, Task, TaskQueue, FETCH_INTERVAL, INITIAL_MULTICAST_DELAY, TICK_INTERVAL,
};
use member_core::units::UnitCoord;

fn parents(hash: u64, time: u64) -> ScheduledTask {
    ScheduledTask::new(Task::ParentsRequest(hash), time)
}

#[test]
fn intervals_in_milliseconds() {
    assert_eq!(FETCH_INTERVAL, 4000);
    assert_eq!(TICK_INTERVAL, 100);
    assert_eq!(INITIAL_MULTICAST_DELAY, 3000);
}

#[test]
fn the_earliest_task_comes_first() {
    let mut q = TaskQueue::new();
    assert_eq!(q.peek(), None);
    assert_eq!(q.pop_due(u64::MAX), None);
    q.push(parents(1, 30));
    q.push(parents(2, 10));
    q.push(ScheduledTask::new(Task::CoordRequest(UnitCoord { creator: 1, round: 2 }), 20));
    assert_eq!(q.len(), 3);
    assert_eq!(q.peek(), Some(parents(2, 10)));
    assert_eq!(q.pop_due(9), None);
    assert_eq!(q.len(), 3);
    assert_eq!(q.pop_due(10), Some(parents(2, 10)));
    assert_eq!(q.pop_due(10), None);
    assert_eq!(
        q.pop_due(25),
        Some(ScheduledTask::new(Task::CoordRequest(UnitCoord { creator: 1, round: 2 }), 20))
    );
    assert_eq!(q.pop_due(30), Some(parents(1, 30)));
    assert_eq!(q.len(), 0);
}

#[test]
fn equal_times_keep_their_order() {
    let mut q = TaskQueue::new();
    q.push(parents(1, 5));
    q.push(parents(2, 5));
    q.push(parents(3, 4));
    q.push(parents(4, 5));
    assert_eq!(q.take_due(5), vec![parents(3, 4), parents(1, 5), parents(2, 5), parents(4, 5)]);
    assert_eq!(q.len(), 0);
}

#[test]
fn only_due_tasks_are_taken() {
    let mut q = TaskQueue::new();
    q.push(parents(1, 50));
    q.push(ScheduledTask::new(Task::UnitMulticast(9, 3000), 7));
    q.push(parents(2, 8));
    q.push(parents(3, 51));
    assert_eq!(
        q.take_due(50),
        vec![ScheduledTask::new(Task::UnitMulticast(9, 3000), 7), parents(2, 8), parents(1, 50)]
    );
    assert_eq!(q.len(), 1);
    assert_eq!(q.take_due(50), vec![]);
    assert_eq!(q.peek(), Some(parents(3, 51)));
}
