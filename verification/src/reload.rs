//! Bringing the tabs up to date once a background operation has ended.

use vstd::prelude::*;
use crate::context::{Context, Tab};
use crate::request::Request;

verus! {

/// An I/O failure. Nothing inside it is visible here: it is handed on as it came.
#[verifier::external_type_specification]
#[verifier::external_body]
pub struct ExIoError(std::io::Error);

/// The tabs once the tab at `index` has taken a fresh listing.
pub open spec fn with_listing(tabs: Seq<Tab>, index: int, listing: Vec<String>) -> Seq<Tab> {
    tabs.update(index, Tab { path: tabs[index].path, listing })
}

/// Takes the outcome of reading the directory of the tab at `index` anew. A fresh
/// listing replaces the cached one, and the answer says whether the tab's panel is
/// to be drawn at once: that is so for the active tab and for no other. A failure is
/// handed back, and the tab stays as it was.
pub fn reload_tab<H, P>(
    index: usize,
    context: &mut Context<H, P>,
    fresh: Result<Vec<String>, std::io::Error>,
) -> (refresh: Result<bool, std::io::Error>)
    requires
        index < old(context).tabs@.len(),
    ensures
        match fresh {
            Ok(listing) => {
                &&& refresh == Ok::<bool, std::io::Error>(index == old(context).curr_tab_index)
                &&& final(context).tabs@ == with_listing(old(context).tabs@, index as int, listing)
            },
            Err(failure) => {
                &&& refresh == Err::<bool, std::io::Error>(failure)
                &&& final(context).tabs@ == old(context).tabs@
            },
        },
        final(context).exit == old(context).exit,
        final(context).curr_tab_index == old(context).curr_tab_index,
        final(context).threads == old(context).threads,
        final(context).wf() == old(context).wf(),
{
    match fresh {
        Ok(listing) => {
            context.tabs[index].listing = listing;
            Ok(index == context.curr_tab_index)
        },
        Err(failure) => Err(failure),
    }
}

/// The tabs to read anew once an operation from `tab_src` to `tab_dest` has ended
/// well, in the order in which they are read: the source, then the destination if it
/// is another tab. A tab that is no longer among the `count` open ones is left out.
pub open spec fn reload_targets(count: nat, tab_src: usize, tab_dest: usize) -> Seq<usize> {
    let source = if tab_src < count {
        seq![tab_src]
    } else {
        Seq::<usize>::empty()
    };
    let destination = if tab_dest != tab_src && tab_dest < count {
        seq![tab_dest]
    } else {
        Seq::<usize>::empty()
    };
    source + destination
}

/// The tabs that still wait to be read anew, in order.
#[derive(Debug)]
pub struct PendingReloads {
    pub targets: Vec<usize>,
}

/// What follows the join of a worker.
#[derive(Debug)]
pub struct JoinPlan {
    /// What to draw first.
    pub requests: Vec<Request>,
    /// The tabs to read anew after that, each settled with `PendingReloads::settle`.
    pub reloads: PendingReloads,
}

/// What to draw once a worker has been joined: the bottom panel is cleared, and the
/// cause is shown there if the worker failed.
pub open spec fn join_requests(joined: Result<(), String>) -> Seq<Request> {
    match joined {
        Ok(_) => seq![Request::ClearStatus, Request::Commit],
        Err(cause) => seq![Request::ClearStatus, Request::Commit, Request::ShowError(cause)],
    }
}

/// Decides what follows the join of the worker of an operation from `tab_src` to
/// `tab_dest`. `joined` is what the join gave: nothing, or the cause of the
/// worker's failure. After a failure no tab is read anew.
pub fn join_thread<H, P>(
    context: &Context<H, P>,
    tab_src: usize,
    tab_dest: usize,
    joined: Result<(), String>,
) -> (plan: JoinPlan)
    ensures
        plan.requests@ == join_requests(joined),
        plan.reloads.targets@ == match joined {
            Ok(_) => reload_targets(context.tabs@.len(), tab_src, tab_dest),
            Err(_) => Seq::<usize>::empty(),
        },
{
    let mut requests: Vec<Request> = Vec::new();
    let mut targets: Vec<usize> = Vec::new();
    requests.push(Request::ClearStatus);
    requests.push(Request::Commit);
    match joined {
        Err(cause) => {
            requests.push(Request::ShowError(cause));
        },
        Ok(_) => {
            if tab_src < context.tabs.len() {
                targets.push(tab_src);
            }
            if tab_dest != tab_src && tab_dest < context.tabs.len() {
                targets.push(tab_dest);
            }
        },
    }
    JoinPlan { requests, reloads: PendingReloads { targets } }
}

impl PendingReloads {
    /// The tab to read next, if any waits.
    pub fn next(&self) -> (index: Option<usize>)
        ensures
            index == if self.targets@.len() > 0 {
                Some(self.targets@[0])
            } else {
                None::<usize>
            },
    {
        if self.targets.len() > 0 {
            Some(self.targets[0])
        } else {
            None
        }
    }

    /// Takes the outcome of reading the first waiting tab, as `reload_tab` does.
    /// After a fresh listing the tabs behind it still wait; after a failure none
    /// waits any more.
    pub fn settle<H, P>(
        &mut self,
        context: &mut Context<H, P>,
        fresh: Result<Vec<String>, std::io::Error>,
    ) -> (refresh: Result<bool, std::io::Error>)
        requires
            old(self).targets@.len() > 0,
            old(self).targets@[0] < old(context).tabs@.len(),
        ensures
            match fresh {
                Ok(listing) => {
                    &&& refresh == Ok::<bool, std::io::Error>(
                        old(self).targets@[0] == old(context).curr_tab_index,
                    )
                    &&& final(context).tabs@ == with_listing(
                        old(context).tabs@,
                        old(self).targets@[0] as int,
                        listing,
                    )
                    &&& final(self).targets@ == old(self).targets@.skip(1)
                },
                Err(failure) => {
                    &&& refresh == Err::<bool, std::io::Error>(failure)
                    &&& final(context).tabs@ == old(context).tabs@
                    &&& final(self).targets@.len() == 0
                },
            },
            final(context).exit == old(context).exit,
            final(context).curr_tab_index == old(context).curr_tab_index,
            final(context).threads == old(context).threads,
            final(context).wf() == old(context).wf(),
    {
        let index = self.targets.remove(0);
        assert(self.targets@ =~= old(self).targets@.skip(1));
        let refresh = reload_tab(index, context, fresh);
        if refresh.is_err() {
            self.targets.clear();
        }
        refresh
    }
}

/// After a worker has ended well, a tab is read anew exactly if it is the source or
/// the destination of the operation and is still open. That is at most two tabs,
/// each once, and the source comes first.
pub proof fn lemma_reload_targets(count: nat, tab_src: usize, tab_dest: usize)
    ensures
        reload_targets(count, tab_src, tab_dest).len() <= 2,
        reload_targets(count, tab_src, tab_dest).no_duplicates(),
        forall|tab: usize| #[trigger]
            reload_targets(count, tab_src, tab_dest).contains(tab) <==> (tab == tab_src || tab
                == tab_dest) && tab < count,
        reload_targets(count, tab_src, tab_dest).len() > 0 && tab_src < count ==> reload_targets(
            count,
            tab_src,
            tab_dest,
        )[0] == tab_src,
{
    let targets = reload_targets(count, tab_src, tab_dest);
    assert forall|tab: usize| (tab == tab_src || tab == tab_dest) && tab < count implies (
    #[trigger] targets.contains(tab)) by {
        if tab == tab_src {
            assert(targets[0] == tab);
        } else {
            assert(targets[targets.len() - 1] == tab);
        }
    }
}

/// Where the source tab of an ended operation has been closed and the destination
/// is still open, only the destination is read anew.
pub proof fn lemma_closed_source_is_skipped(count: nat, tab_src: usize, tab_dest: usize)
    requires
        tab_src >= count,
        tab_dest < count,
    ensures
        reload_targets(count, tab_src, tab_dest) == seq![tab_dest],
{
    assert(reload_targets(count, tab_src, tab_dest) =~= seq![tab_dest]);
}

/// The number of tabs read anew after a series of joins that all went well. Each
/// join is given as the source and the destination of its operation, with the
/// number of tabs open at that time.
pub open spec fn reloads_after(joins: Seq<(nat, usize, usize)>) -> nat
    decreases joins.len(),
{
    if joins.len() == 0 {
        0
    } else {
        let (count, tab_src, tab_dest) = joins.last();
        reloads_after(joins.drop_last()) + reload_targets(count, tab_src, tab_dest).len()
    }
}

/// However many tabs were open or closed meanwhile, the joins of `n` operations
/// have at most `n` pairs of tabs read anew: never more than a source and a
/// destination for each.
pub proof fn lemma_at_most_a_pair_for_each_join(joins: Seq<(nat, usize, usize)>)
    ensures
        reloads_after(joins) <= 2 * joins.len(),
    decreases joins.len(),
{
    if joins.len() > 0 {
        lemma_at_most_a_pair_for_each_join(joins.drop_last());
    }
}

} // verus!
