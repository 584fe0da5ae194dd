//! Background operations: workers that run beside the main loop, and the poll pass
//! that watches their progress channels.

use vstd::prelude::*;

verus! {

/// The receiving end of a channel. Nothing inside it is visible here.
#[verifier::external_type_specification]
#[verifier::external_body]
#[verifier::reject_recursive_types(T)]
pub struct ExReceiver<T>(std::sync::mpsc::Receiver<T>);

/// How long one poll waits for a channel, in milliseconds.
pub const POLL_WAIT_MILLIS: u64 = 100;

/// What one poll of a progress channel gives.
#[derive(Debug)]
pub enum Poll<P> {
    /// The worker reported progress.
    Progress(P),
    /// The worker runs and had nothing to report within the wait.
    Idle,
    /// The worker has ended and closed its channel.
    Disconnected,
}

/// Waits up to `millis` milliseconds for a value on the channel, with
/// `Receiver::recv_timeout`. What comes back depends on the worker and on the
/// clock, so the contract promises nothing about it.
#[verifier::external_body]
fn poll_channel<P>(channel: &std::sync::mpsc::Receiver<P>, millis: u64) -> (outcome: Poll<P>) {
    match channel.recv_timeout(std::time::Duration::from_millis(millis)) {
        Ok(value) => Poll::Progress(value),
        Err(std::sync::mpsc::RecvTimeoutError::Timeout) => Poll::Idle,
        Err(std::sync::mpsc::RecvTimeoutError::Disconnected) => Poll::Disconnected,
    }
}

/// A background operation that is under way.
#[verifier::reject_recursive_types(P)]
pub struct TrackedOperation<H, P> {
    /// The handle by which the worker is joined once it has ended.
    pub handle: H,
    /// Where the worker reports its progress. It closes when the worker ends.
    pub progress: std::sync::mpsc::Receiver<P>,
    /// The tab that the operation takes from.
    pub tab_src: usize,
    /// The tab that the operation puts into.
    pub tab_dest: usize,
}

/// What the tracker makes of one poll.
#[verifier::reject_recursive_types(P)]
pub enum Observation<H, P> {
    /// Show this progress value. The operation stays tracked.
    Progress(P),
    /// Nothing to do.
    Nothing,
    /// The operation has ended and is no longer tracked: join its worker.
    Finished(TrackedOperation<H, P>),
}

/// What one poll pass found.
#[verifier::reject_recursive_types(P)]
pub struct Report<H, P> {
    /// The progress values received, in the order of the operations polled. Each is
    /// to be shown in the bottom panel.
    pub progress: Vec<P>,
    /// The operation that the pass found ended, to be joined.
    pub finished: Option<TrackedOperation<H, P>>,
}

/// The operations under way.
#[verifier::reject_recursive_types(P)]
pub struct Tracker<H, P> {
    pub operations: Vec<TrackedOperation<H, P>>,
}

/// The list without its entry at `index`, whose place the last entry takes.
pub open spec fn without<T>(list: Seq<T>, index: int) -> Seq<T> {
    list.update(index, list.last()).drop_last()
}

/// Whether `outcomes` can be what one pass over `count` operations saw: the pass
/// polls the operations in order and stops behind the first channel that it finds
/// closed.
pub open spec fn is_pass<P>(count: nat, outcomes: Seq<Poll<P>>) -> bool {
    &&& outcomes.len() <= count
    &&& forall|i: int| 0 <= i < outcomes.len() - 1 ==> !((#[trigger] outcomes[i]) is Disconnected)
    &&& (outcomes.len() < count ==> outcomes.len() > 0 && outcomes.last() is Disconnected)
}

/// Whether the pass that saw `outcomes` found an operation ended.
pub open spec fn drains<P>(outcomes: Seq<Poll<P>>) -> bool {
    outcomes.len() > 0 && outcomes.last() is Disconnected
}

/// The progress values among `outcomes`, in order.
pub open spec fn progress_in<P>(outcomes: Seq<Poll<P>>) -> Seq<P>
    decreases outcomes.len(),
{
    if outcomes.len() == 0 {
        Seq::empty()
    } else {
        match outcomes.last() {
            Poll::Progress(value) => progress_in(outcomes.drop_last()).push(value),
            _ => progress_in(outcomes.drop_last()),
        }
    }
}

/// The operation that the pass which saw `outcomes` found ended.
pub open spec fn pass_finished<H, P>(
    operations: Seq<TrackedOperation<H, P>>,
    outcomes: Seq<Poll<P>>,
) -> Option<TrackedOperation<H, P>> {
    if drains(outcomes) {
        Some(operations[outcomes.len() - 1])
    } else {
        None
    }
}

/// The operations still tracked after the pass that saw `outcomes`.
pub open spec fn pass_remaining<H, P>(
    operations: Seq<TrackedOperation<H, P>>,
    outcomes: Seq<Poll<P>>,
) -> Seq<TrackedOperation<H, P>> {
    if drains(outcomes) {
        without(operations, outcomes.len() - 1)
    } else {
        operations
    }
}

impl<H, P> Tracker<H, P> {
    /// A tracker with nothing under way.
    pub fn new() -> (tracker: Self)
        ensures
            tracker.operations@.len() == 0,
    {
        Tracker { operations: Vec::new() }
    }

    /// Begins to track an operation. It is polled after those tracked before it.
    pub fn register(&mut self, operation: TrackedOperation<H, P>)
        ensures
            final(self).operations@ == old(self).operations@.push(operation),
    {
        self.operations.push(operation);
    }

    /// The number of operations under way.
    pub fn len(&self) -> (count: usize)
        ensures
            count == self.operations@.len(),
    {
        self.operations.len()
    }

    /// Takes note of what a poll of the operation at `index` gave.
    pub fn observe(&mut self, index: usize, outcome: Poll<P>) -> (seen: Observation<H, P>)
        requires
            index < old(self).operations@.len(),
        ensures
            match outcome {
                Poll::Progress(value) => seen == Observation::<H, P>::Progress(value)
                    && final(self).operations@ == old(self).operations@,
                Poll::Idle => seen == Observation::<H, P>::Nothing && final(self).operations@ == old(
                    self,
                ).operations@,
                Poll::Disconnected => seen == Observation::Finished(
                    old(self).operations@[index as int],
                ) && final(self).operations@ == without(old(self).operations@, index as int),
            },
    {
        match outcome {
            Poll::Progress(value) => Observation::Progress(value),
            Poll::Idle => Observation::Nothing,
            Poll::Disconnected => Observation::Finished(self.operations.swap_remove(index)),
        }
    }

    /// One poll pass: polls the operations in order, each for at most
    /// `POLL_WAIT_MILLIS`, collects the progress that they report, and stops at the
    /// first one that has ended, which leaves the tracker. At most one operation
    /// leaves in a pass.
    ///
    /// What the channels give is not known beforehand; whatever it is, the result is
    /// the one that `pass_remaining`, `pass_finished` and `progress_in` give for it.
    pub fn poll_once(&mut self) -> (report: Report<H, P>)
        ensures
            exists|outcomes: Seq<Poll<P>>|
                {
                    &&& #[trigger] is_pass(old(self).operations@.len(), outcomes)
                    &&& final(self).operations@ == pass_remaining(old(self).operations@, outcomes)
                    &&& report.finished == pass_finished(old(self).operations@, outcomes)
                    &&& report.progress@ == progress_in(outcomes)
                },
    {
        let mut progress: Vec<P> = Vec::new();
        let ghost mut outcomes: Seq<Poll<P>> = Seq::empty();
        let mut index: usize = 0;
        while index < self.operations.len()
            invariant
                index <= self.operations@.len(),
                self.operations@ == old(self).operations@,
                outcomes.len() == index,
                forall|i: int| 0 <= i < outcomes.len() ==> !((#[trigger] outcomes[i]) is Disconnected),
                progress@ == progress_in(outcomes),
            decreases self.operations@.len() - index,
        {
            let outcome = poll_channel(&self.operations[index].progress, POLL_WAIT_MILLIS);
            proof {
                let before = outcomes;
                outcomes = before.push(outcome);
                assert(outcomes.drop_last() =~= before);
            }
            match self.observe(index, outcome) {
                Observation::Progress(value) => {
                    progress.push(value);
                },
                Observation::Nothing => {},
                Observation::Finished(operation) => {
                    assert(is_pass(old(self).operations@.len(), outcomes));
                    return Report { progress, finished: Some(operation) };
                },
            }
            index += 1;
        }
        assert(is_pass(old(self).operations@.len(), outcomes));
        Report { progress, finished: None }
    }
}

/// The operations still tracked after several passes, one after the other.
pub open spec fn remaining_after<H, P>(
    operations: Seq<TrackedOperation<H, P>>,
    passes: Seq<Seq<Poll<P>>>,
) -> Seq<TrackedOperation<H, P>>
    decreases passes.len(),
{
    if passes.len() == 0 {
        operations
    } else {
        pass_remaining(remaining_after(operations, passes.drop_last()), passes.last())
    }
}

/// The operations that several passes found ended and handed out to be joined, in
/// the order in which they were handed out.
pub open spec fn joined_after<H, P>(
    operations: Seq<TrackedOperation<H, P>>,
    passes: Seq<Seq<Poll<P>>>,
) -> Seq<TrackedOperation<H, P>>
    decreases passes.len(),
{
    if passes.len() == 0 {
        Seq::empty()
    } else {
        let before = joined_after(operations, passes.drop_last());
        match pass_finished(remaining_after(operations, passes.drop_last()), passes.last()) {
            Some(operation) => before.push(operation),
            None => before,
        }
    }
}

/// Whether each of `passes` can be what a pass saw of the operations that the
/// passes before it had left.
pub open spec fn passes_fit<H, P>(
    operations: Seq<TrackedOperation<H, P>>,
    passes: Seq<Seq<Poll<P>>>,
) -> bool
    decreases passes.len(),
{
    passes.len() == 0 || (passes_fit(operations, passes.drop_last()) && is_pass(
        remaining_after(operations, passes.drop_last()).len(),
        passes.last(),
    ))
}

/// A list without one of its entries, together with that entry, holds what the list
/// held.
pub proof fn lemma_without_keeps_the_rest<T>(list: Seq<T>, index: int)
    requires
        0 <= index < list.len(),
    ensures
        without(list, index).len() + 1 == list.len(),
        without(list, index).to_multiset().insert(list[index]) == list.to_multiset(),
{
    broadcast use vstd::seq_lib::group_to_multiset_ensures;

    let moved = list.update(index, list.last());
    assert(moved.drop_last() =~= moved.remove(list.len() - 1));
    vstd::seq_lib::to_multiset_update(list, index, list.last());
    vstd::seq_lib::to_multiset_remove(moved, list.len() - 1);
    assert(list.to_multiset().count(list[index]) > 0);
    assert(without(list, index).to_multiset().insert(list[index]) =~= list.to_multiset());
}

/// A pass takes at most one operation out of the tracker, and loses none: the
/// operations that stay, together with the one handed out, are those tracked before.
pub proof fn lemma_pass_drains_at_most_one<H, P>(
    operations: Seq<TrackedOperation<H, P>>,
    outcomes: Seq<Poll<P>>,
)
    requires
        is_pass(operations.len(), outcomes),
    ensures
        match pass_finished(operations, outcomes) {
            Some(operation) => {
                &&& pass_remaining(operations, outcomes).len() + 1 == operations.len()
                &&& pass_remaining(operations, outcomes).to_multiset().insert(operation)
                    == operations.to_multiset()
            },
            None => pass_remaining(operations, outcomes) == operations,
        },
{
    if drains(outcomes) {
        lemma_without_keeps_the_rest(operations, outcomes.len() - 1);
    }
}

/// Over any number of passes, every operation that was tracked at the start is
/// either still tracked or was handed out to be joined, exactly once, and no pass
/// hands out more than one. So once the tracker is empty, as many operations were
/// joined as had been registered.
pub proof fn lemma_each_operation_joined_once<H, P>(
    operations: Seq<TrackedOperation<H, P>>,
    passes: Seq<Seq<Poll<P>>>,
)
    requires
        passes_fit(operations, passes),
    ensures
        joined_after(operations, passes).len() + remaining_after(operations, passes).len()
            == operations.len(),
        joined_after(operations, passes).len() <= passes.len(),
        joined_after(operations, passes).to_multiset().add(
            remaining_after(operations, passes).to_multiset(),
        ) == operations.to_multiset(),
        remaining_after(operations, passes).len() == 0 ==> joined_after(operations, passes).len()
            == operations.len(),
    decreases passes.len(),
{
    broadcast use vstd::seq_lib::group_to_multiset_ensures;

    if passes.len() == 0 {
        assert(joined_after(operations, passes).to_multiset().add(
            remaining_after(operations, passes).to_multiset(),
        ) =~= operations.to_multiset());
    } else {
        let earlier = passes.drop_last();
        lemma_each_operation_joined_once(operations, earlier);
        let current = remaining_after(operations, earlier);
        lemma_pass_drains_at_most_one(current, passes.last());
        assert(joined_after(operations, passes).to_multiset().add(
            remaining_after(operations, passes).to_multiset(),
        ) =~= operations.to_multiset());
    }
}

} // verus!
