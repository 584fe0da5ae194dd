use joshuto::context::Context;
use joshuto::tracker::{Observation, Poll, TrackedOperation, Tracker, POLL_WAIT_MILLIS};
use std::sync::mpsc::{channel, Sender};

fn operation(handle: u32, tab_src: usize, tab_dest: usize) -> (Sender<u64>, TrackedOperation<u32, u64>) {
    let (sender, progress) = channel();
    (sender, TrackedOperation { handle, progress, tab_src, tab_dest })
}

fn handles(tracker: &Tracker<u32, u64>) -> Vec<u32> {
    tracker.operations.iter().map(|operation| operation.handle).collect()
}

#[test]
fn poll_wait_is_a_tenth_of_a_second() {
    assert_eq!(POLL_WAIT_MILLIS, 100);
}

#[test]
fn register_appends() {
    let mut tracker: Tracker<u32, u64> = Tracker::new();
    assert_eq!(tracker.len(), 0);
    let (_a, first) = operation(1, 0, 1);
    let (_b, second) = operation(2, 1, 0);
    tracker.register(first);
    tracker.register(second);
    assert_eq!(tracker.len(), 2);
    assert_eq!(handles(&tracker), vec![1, 2]);
}

#[test]
fn pass_over_nothing_finds_nothing() {
    let mut tracker: Tracker<u32, u64> = Tracker::new();
    let report = tracker.poll_once();
    assert!(report.progress.is_empty());
    assert!(report.finished.is_none());
    assert_eq!(tracker.len(), 0);
}

#[test]
fn progress_is_reported_and_the_operation_stays() {
    let mut tracker: Tracker<u32, u64> = Tracker::new();
    let (sender, first) = operation(7, 0, 1);
    tracker.register(first);
    sender.send(10).unwrap();
    sender.send(20).unwrap();
    let report = tracker.poll_once();
    assert_eq!(report.progress, vec![10]);
    assert!(report.finished.is_none());
    assert_eq!(tracker.len(), 1);
    // what one worker sent is seen in the order in which it was sent
    let report = tracker.poll_once();
    assert_eq!(report.progress, vec![20]);
    assert!(report.finished.is_none());
    assert_eq!(tracker.len(), 1);
}

#[test]
fn idle_operation_is_left_alone() {
    let mut tracker: Tracker<u32, u64> = Tracker::new();
    let (_sender, first) = operation(7, 0, 1);
    tracker.register(first);
    let report = tracker.poll_once();
    assert!(report.progress.is_empty());
    assert!(report.finished.is_none());
    assert_eq!(handles(&tracker), vec![7]);
}

#[test]
fn disconnect_hands_the_operation_out() {
    let mut tracker: Tracker<u32, u64> = Tracker::new();
    let (sender, first) = operation(7, 3, 4);
    tracker.register(first);
    drop(sender);
    let report = tracker.poll_once();
    assert!(report.progress.is_empty());
    let finished = report.finished.expect("the operation has ended");
    assert_eq!((finished.handle, finished.tab_src, finished.tab_dest), (7, 3, 4));
    assert_eq!(tracker.len(), 0);
}

#[test]
fn values_sent_before_the_end_are_seen_before_the_disconnect() {
    let mut tracker: Tracker<u32, u64> = Tracker::new();
    let (sender, first) = operation(7, 0, 0);
    tracker.register(first);
    sender.send(99).unwrap();
    drop(sender);
    let report = tracker.poll_once();
    assert_eq!(report.progress, vec![99]);
    assert!(report.finished.is_none());
    let report = tracker.poll_once();
    assert!(report.progress.is_empty());
    assert_eq!(report.finished.map(|operation| operation.handle), Some(7));
}

#[test]
fn pass_stops_at_the_first_disconnect() {
    let mut tracker: Tracker<u32, u64> = Tracker::new();
    let (a, first) = operation(1, 0, 1);
    let (b, second) = operation(2, 0, 1);
    let (c, third) = operation(3, 0, 1);
    tracker.register(first);
    tracker.register(second);
    tracker.register(third);
    a.send(5).unwrap();
    drop(b);
    c.send(6).unwrap();
    let report = tracker.poll_once();
    // the first reported, the second had ended, the third was not polled
    assert_eq!(report.progress, vec![5]);
    assert_eq!(report.finished.map(|operation| operation.handle), Some(2));
    // the last operation took the place of the one that left
    assert_eq!(handles(&tracker), vec![1, 3]);
    drop(a);
    let report = tracker.poll_once();
    assert!(report.progress.is_empty());
    assert_eq!(report.finished.map(|operation| operation.handle), Some(1));
    assert_eq!(handles(&tracker), vec![3]);
    let report = tracker.poll_once();
    assert_eq!(report.progress, vec![6]);
    assert!(report.finished.is_none());
    assert_eq!(handles(&tracker), vec![3]);
}

#[test]
fn n_operations_are_joined_n_times_one_per_pass() {
    let n: usize = 6;
    let mut tracker: Tracker<u32, u64> = Tracker::new();
    for handle in 0..n {
        let (sender, tracked_operation) = operation(handle as u32, handle, handle + 1);
        tracker.register(tracked_operation);
        drop(sender);
    }
    let mut joined: Vec<u32> = Vec::new();
    let mut passes: usize = 0;
    while tracker.len() > 0 {
        let before = tracker.len();
        let report = tracker.poll_once();
        passes += 1;
        let drained = if report.finished.is_some() { 1 } else { 0 };
        assert_eq!(tracker.len() + drained, before);
        if let Some(finished) = report.finished {
            joined.push(finished.handle);
        }
        assert!(passes <= n);
    }
    assert_eq!(passes, n);
    assert_eq!(joined.len(), n);
    joined.sort();
    assert_eq!(joined, vec![0, 1, 2, 3, 4, 5]);
    // a further pass joins nothing
    assert!(tracker.poll_once().finished.is_none());
}

#[test]
fn operations_that_end_one_by_one_are_each_joined_once() {
    let mut tracker: Tracker<u32, u64> = Tracker::new();
    let (a, first) = operation(1, 0, 1);
    let (b, second) = operation(2, 0, 1);
    tracker.register(first);
    tracker.register(second);
    a.send(1).unwrap();
    b.send(2).unwrap();
    let report = tracker.poll_once();
    assert_eq!(report.progress, vec![1, 2]);
    assert!(report.finished.is_none());
    drop(b);
    a.send(3).unwrap();
    let report = tracker.poll_once();
    assert_eq!(report.progress, vec![3]);
    assert_eq!(report.finished.map(|operation| operation.handle), Some(2));
    assert_eq!(handles(&tracker), vec![1]);
    drop(a);
    let report = tracker.poll_once();
    assert_eq!(report.finished.map(|operation| operation.handle), Some(1));
    assert_eq!(tracker.len(), 0);
}

#[test]
fn observe_decides_for_each_outcome() {
    let mut tracker: Tracker<u32, u64> = Tracker::new();
    let (_a, first) = operation(1, 0, 1);
    let (_b, second) = operation(2, 0, 1);
    let (_c, third) = operation(3, 0, 1);
    tracker.register(first);
    tracker.register(second);
    tracker.register(third);
    assert!(matches!(tracker.observe(0, Poll::Progress(42)), Observation::Progress(42)));
    assert_eq!(handles(&tracker), vec![1, 2, 3]);
    assert!(matches!(tracker.observe(1, Poll::Idle), Observation::Nothing));
    assert_eq!(handles(&tracker), vec![1, 2, 3]);
    match tracker.observe(0, Poll::Disconnected) {
        Observation::Finished(finished) => assert_eq!(finished.handle, 1),
        _ => panic!("the operation at 0 has ended"),
    }
    assert_eq!(handles(&tracker), vec![3, 2]);
    match tracker.observe(1, Poll::Disconnected) {
        Observation::Finished(finished) => assert_eq!(finished.handle, 2),
        _ => panic!("the operation at 1 has ended"),
    }
    assert_eq!(handles(&tracker), vec![3]);
}

#[test]
fn new_context_has_nothing_under_way() {
    let mut context: Context<u32, u64> = Context::new();
    assert_eq!(context.threads.len(), 0);
    assert!(!context.exit);
    assert!(context.tabs.is_empty());
    assert_eq!(context.curr_tab_index, 0);
    let (_a, first) = operation(1, 0, 1);
    context.threads.register(first);
    assert_eq!(context.threads.len(), 1);
    assert_eq!(context.threads.operations[0].tab_dest, 1);
}
