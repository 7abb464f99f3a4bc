use stride_scheduler::config::{BIG_STRIDE, MAX_SYSCALL_NUM};
use stride_scheduler::context::TaskContext;
use stride_scheduler::task::{TaskControlBlock, TaskStatus};

fn context(tag: usize) -> TaskContext {
    TaskContext { ra: tag, sp: 0, s: [0; 12] }
}

fn fresh() -> TaskControlBlock {
    TaskControlBlock::new(context(1), 16)
}

#[test]
fn new_task_starts_from_nothing() {
    let task = TaskControlBlock::new(context(7), 4);
    assert_eq!(task.task_status, TaskStatus::UnInit);
    assert_eq!(task.task_cx, context(7));
    assert_eq!(task.first_launch_time, None);
    assert_eq!(task.syscall_times, [0u32; MAX_SYSCALL_NUM]);
    assert_eq!(task.stride, 0);
    assert_eq!(task.priority, 4);
}

#[test]
fn syscall_counted_twice_reads_two() {
    let mut task = fresh();
    task.update_syscall_times(3);
    task.update_syscall_times(3);
    let times = task.get_syscall_times();
    assert_eq!(times[3], 2);
    for (id, count) in times.iter().enumerate() {
        if id != 3 {
            assert_eq!(*count, 0, "counter {} moved", id);
        }
    }
}

#[test]
fn syscall_counting_touches_nothing_else() {
    let mut task = fresh();
    task.stride = 9;
    task.first_launch_time = Some(40);
    task.task_status = TaskStatus::Running;
    let before = task;
    task.update_syscall_times(MAX_SYSCALL_NUM - 1);
    assert_eq!(task.syscall_times[MAX_SYSCALL_NUM - 1], 1);
    assert_eq!(task.task_status, before.task_status);
    assert_eq!(task.task_cx, before.task_cx);
    assert_eq!(task.first_launch_time, before.first_launch_time);
    assert_eq!(task.stride, before.stride);
    assert_eq!(task.priority, before.priority);
}

#[test]
fn first_and_last_syscall_ids_are_counted() {
    let mut task = fresh();
    task.update_syscall_times(0);
    task.update_syscall_times(MAX_SYSCALL_NUM - 1);
    task.update_syscall_times(MAX_SYSCALL_NUM - 1);
    let times = task.get_syscall_times();
    assert_eq!(times[0], 1);
    assert_eq!(times[MAX_SYSCALL_NUM - 1], 2);
    assert_eq!(times.iter().map(|c| *c as u64).sum::<u64>(), 3);
}

#[test]
fn counter_reaches_the_top_of_its_range() {
    let mut task = fresh();
    task.syscall_times[5] = u32::MAX - 1;
    task.update_syscall_times(5);
    assert_eq!(task.get_syscall_times()[5], u32::MAX);
}

#[test]
fn get_syscall_times_is_a_copy() {
    let mut task = fresh();
    task.update_syscall_times(8);
    let mut times = task.get_syscall_times();
    times[8] = 100;
    assert_eq!(task.get_syscall_times()[8], 1);
    assert_eq!(task.syscall_times[8], 1);
}

#[test]
fn counters_never_decrease_across_operations() {
    let mut task = fresh();
    let mut last = task.get_syscall_times();
    let ids = [3usize, 3, 499, 0, 3, 17, 0];
    for (step, id) in ids.iter().enumerate() {
        task.update_syscall_times(*id);
        if step % 2 == 0 {
            task.record_first_launch_time(100 + step);
        }
        if step % 3 == 0 {
            task.update_stride();
        }
        let _ = task.get_task_real_runtime(1_000);
        let now = task.get_syscall_times();
        for i in 0..MAX_SYSCALL_NUM {
            assert!(now[i] >= last[i], "counter {} fell at step {}", i, step);
        }
        last = now;
    }
    assert_eq!(last[3], 3);
    assert_eq!(last[0], 2);
    assert_eq!(last[17], 1);
    assert_eq!(last[499], 1);
}

#[test]
fn first_launch_is_recorded() {
    let mut task = fresh();
    task.record_first_launch_time(1234);
    assert_eq!(task.first_launch_time, Some(1234));
}

#[test]
fn recording_launch_twice_keeps_the_first_time() {
    let mut once = fresh();
    once.record_first_launch_time(10);
    let mut twice = fresh();
    twice.record_first_launch_time(10);
    twice.record_first_launch_time(99);
    assert_eq!(once, twice);
    assert_eq!(twice.first_launch_time, Some(10));
}

#[test]
fn launch_at_time_zero_is_still_a_launch() {
    let mut task = fresh();
    task.record_first_launch_time(0);
    task.record_first_launch_time(5);
    assert_eq!(task.first_launch_time, Some(0));
    assert_eq!(task.get_task_real_runtime(5), 5);
}

#[test]
fn recording_launch_touches_nothing_else() {
    let mut task = fresh();
    task.update_syscall_times(2);
    task.stride = 77;
    let before = task;
    task.record_first_launch_time(31);
    assert_eq!(task.syscall_times, before.syscall_times);
    assert_eq!(task.stride, 77);
    assert_eq!(task.priority, before.priority);
    assert_eq!(task.task_status, before.task_status);
    assert_eq!(task.task_cx, before.task_cx);
}

#[test]
fn never_dispatched_task_has_run_for_zero() {
    let task = fresh();
    assert_eq!(task.get_task_real_runtime(0), 0);
    assert_eq!(task.get_task_real_runtime(123_456), 0);
    assert_eq!(task.get_task_real_runtime(usize::MAX), 0);
}

#[test]
fn runtime_is_time_since_first_launch() {
    let mut task = fresh();
    task.record_first_launch_time(1_000);
    assert_eq!(task.get_task_real_runtime(1_000), 0);
    assert_eq!(task.get_task_real_runtime(1_001), 1);
    assert_eq!(task.get_task_real_runtime(4_250), 3_250);
    assert_eq!(task.get_task_real_runtime(usize::MAX), usize::MAX - 1_000);
}

#[test]
fn runtime_reads_without_changing_the_task() {
    let mut task = fresh();
    task.record_first_launch_time(3);
    let before = task;
    let _ = task.get_task_real_runtime(10);
    assert_eq!(task, before);
}

#[test]
fn stride_advances_by_big_stride_over_priority() {
    let mut task = TaskControlBlock::new(context(1), 16);
    task.update_stride();
    assert_eq!(task.stride, 65_536);
    task.update_stride();
    assert_eq!(task.stride, 131_072);

    let mut odd = TaskControlBlock::new(context(2), 3);
    odd.update_stride();
    assert_eq!(odd.stride, 349_525);

    let mut one = TaskControlBlock::new(context(3), 1);
    one.update_stride();
    assert_eq!(one.stride, BIG_STRIDE);
    assert_eq!(BIG_STRIDE, 1_048_576);
}

#[test]
fn priority_above_big_stride_costs_nothing() {
    let mut task = TaskControlBlock::new(context(1), BIG_STRIDE + 1);
    task.stride = 12;
    task.update_stride();
    assert_eq!(task.stride, 12);
}

#[test]
fn stride_update_touches_nothing_else() {
    let mut task = fresh();
    task.update_syscall_times(4);
    task.record_first_launch_time(8);
    let before = task;
    task.update_stride();
    assert_eq!(task.syscall_times, before.syscall_times);
    assert_eq!(task.first_launch_time, Some(8));
    assert_eq!(task.priority, 16);
    assert_eq!(task.task_status, before.task_status);
    assert_eq!(task.task_cx, before.task_cx);
}

#[test]
fn can_advance_needs_a_priority() {
    let mut task = fresh();
    assert!(task.can_advance());
    task.priority = 0;
    assert!(!task.can_advance());
}

#[test]
fn can_advance_needs_room_for_the_stride() {
    let mut task = TaskControlBlock::new(context(1), 16);
    task.stride = usize::MAX - 65_536;
    assert!(task.can_advance());
    task.update_stride();
    assert_eq!(task.stride, usize::MAX);
    assert!(!task.can_advance());
    task.stride = usize::MAX - 65_535;
    assert!(!task.can_advance());
    task.priority = BIG_STRIDE + 1;
    assert!(task.can_advance());
}

#[test]
fn status_moves_only_along_the_life_of_a_task() {
    let all = [TaskStatus::UnInit, TaskStatus::Ready, TaskStatus::Running, TaskStatus::Exited];
    let allowed = [
        (TaskStatus::UnInit, TaskStatus::Ready),
        (TaskStatus::Ready, TaskStatus::Running),
        (TaskStatus::Running, TaskStatus::Ready),
        (TaskStatus::Running, TaskStatus::Exited),
    ];
    for from in all {
        for to in all {
            let expected = allowed.contains(&(from, to));
            assert_eq!(from.may_become(to), expected, "{:?} -> {:?}", from, to);
        }
    }
}

#[test]
fn exited_is_final() {
    for next in [TaskStatus::UnInit, TaskStatus::Ready, TaskStatus::Running, TaskStatus::Exited] {
        assert!(!TaskStatus::Exited.may_become(next));
    }
}
