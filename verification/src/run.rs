//! The decisions of the main loop: what follows each event.
//!
//! The loop itself belongs to the program around this crate. It waits for an
//! event, asks `on_event` what to do, does it, and ends each iteration with a
//! redraw and with one poll pass of the tracker.

use vstd::prelude::*;
use vstd::string::*;
use crate::context::{Context, Tab};
use crate::key::{key_text, Key};
use crate::keymap::{Command, KeyMap};
use crate::request::Request;
use crate::resolver::{step, Dispatch, Resolver};

verus! {

/// What the event source gives.
#[derive(Clone, Copy, Debug, PartialEq, Eq, Structural)]
pub enum Event {
    /// A key was pressed.
    Input(Key),
    /// The terminal changed its size.
    Resize,
    /// The bounded wait ran out with no input.
    Tick,
}

/// Where the main loop stands.
#[derive(Clone, Copy, Debug, PartialEq, Eq, Structural)]
pub enum LoopState {
    /// The first tab has not been opened yet.
    Initializing,
    /// Events are being served.
    Running,
    /// The loop has ended.
    Terminated,
}

/// What the loop does with an event.
#[derive(Debug)]
pub enum Turn<'a> {
    /// Run this command on the context and the active view, hand what it returns
    /// to `finish_command`, and carry out what that asks for.
    Execute(&'a Command),
    /// A chord goes on: show the menu of this map, then wait, without limit, for the
    /// next event. The iteration does not end here.
    Menu(&'a KeyMap),
    /// Carry out these requests. The last of them is the poll pass.
    Requests(Vec<Request>),
}

/// The message for an input that no binding answers.
pub open spec fn unknown_key_text(key: Key) -> Seq<char> {
    "Unknown keycode: "@ + key_text(key)
}

/// Whether `requests` show the message for the unanswered `key`, commit, and end
/// the iteration with a poll pass.
pub open spec fn reports_unknown(requests: Seq<Request>, key: Key) -> bool {
    &&& requests.len() == 3
    &&& requests[0].shows(unknown_key_text(key))
    &&& requests[1] == Request::Commit
    &&& requests[2] == Request::PollOperations
}

/// What to draw after the terminal changed its size: every panel is placed anew,
/// and of the tabs only the active one is drawn.
pub open spec fn resize_requests(tabs: nat, active: usize) -> Seq<Request> {
    let refresh = if active < tabs {
        seq![Request::RefreshTab(active)]
    } else {
        Seq::<Request>::empty()
    };
    seq![Request::ResizePanels, Request::RedrawTabBar] + refresh + seq![Request::Commit]
}

impl LoopState {
    /// The state after an attempt to open the first tab: the loop runs if the tab
    /// was opened, and has ended if not.
    pub fn after_startup<T, E>(started: &Result<T, E>) -> (state: LoopState)
        ensures
            state == if started is Ok {
                LoopState::Running
            } else {
                LoopState::Terminated
            },
    {
        match started {
            Ok(_) => LoopState::Running,
            Err(_) => LoopState::Terminated,
        }
    }

    /// The state after an iteration: the loop ends once a command has set the exit
    /// flag.
    pub fn after_turn<H, P>(context: &Context<H, P>) -> (state: LoopState)
        ensures
            state == if context.exit {
                LoopState::Terminated
            } else {
                LoopState::Running
            },
    {
        if context.exit {
            LoopState::Terminated
        } else {
            LoopState::Running
        }
    }
}

impl<'a> Turn<'a> {
    /// Whether the iteration ends with this turn, so that the redraw and the poll
    /// pass follow. A menu does not end it: the chord waits for its next key first.
    pub fn ends_iteration(&self) -> (ends: bool)
        ensures
            ends == !(*self is Menu),
    {
        match self {
            Turn::Menu(_) => false,
            _ => true,
        }
    }
}

/// The message for an input that no binding answers.
pub fn unknown_key_message(key: Key) -> (message: String)
    ensures
        message@ == unknown_key_text(key),
{
    let mut message = String::from_str("Unknown keycode: ");
    let text = key.text();
    message.append(text.as_str());
    message
}

fn report_unknown(key: Key) -> (requests: Vec<Request>)
    ensures
        reports_unknown(requests@, key),
{
    let mut requests: Vec<Request> = Vec::new();
    requests.push(Request::ShowError(unknown_key_message(key)));
    requests.push(Request::Commit);
    requests.push(Request::PollOperations);
    requests
}

/// Opens the first tab of a session. `first` is the tab made from the directory in
/// which the program was started, or the failure to make it. With a tab the session
/// has it as its active tab and the screen is drawn; a failure is handed back, and
/// nothing can go on.
pub fn init_context<H, P>(context: &mut Context<H, P>, first: Result<Tab, std::io::Error>) -> (started:
    Result<Vec<Request>, std::io::Error>)
    ensures
        match first {
            Ok(tab) => {
                &&& started is Ok
                &&& started->Ok_0@ == seq![
                    Request::RedrawTabBar,
                    Request::RefreshTab(old(context).tabs@.len() as usize),
                    Request::Commit,
                ]
                &&& final(context).tabs@ == old(context).tabs@.push(tab)
                &&& final(context).curr_tab_index == old(context).tabs@.len()
            },
            Err(failure) => {
                &&& started == Err::<Vec<Request>, std::io::Error>(failure)
                &&& final(context).tabs@ == old(context).tabs@
                &&& final(context).curr_tab_index == old(context).curr_tab_index
            },
        },
        final(context).exit == old(context).exit,
        final(context).threads == old(context).threads,
        old(context).wf() ==> final(context).wf(),
{
    match first {
        Ok(tab) => {
            context.push_tab(tab);
            let mut requests: Vec<Request> = Vec::new();
            requests.push(Request::RedrawTabBar);
            requests.push(Request::RefreshTab(context.curr_tab_index));
            requests.push(Request::Commit);
            Ok(requests)
        },
        Err(failure) => Err(failure),
    }
}

/// What to draw after the terminal changed its size.
pub fn resize_handler<H, P>(context: &Context<H, P>) -> (requests: Vec<Request>)
    ensures
        requests@ == resize_requests(context.tabs@.len(), context.curr_tab_index),
{
    let mut requests: Vec<Request> = Vec::new();
    requests.push(Request::ResizePanels);
    requests.push(Request::RedrawTabBar);
    if context.curr_tab_index < context.tabs.len() {
        requests.push(Request::RefreshTab(context.curr_tab_index));
    }
    requests.push(Request::Commit);
    requests
}

/// What to do once a command has run: show the cause, if it failed, commit the
/// frame, and end the iteration with a poll pass.
pub open spec fn command_requests(outcome: Result<(), String>) -> Seq<Request> {
    match outcome {
        Ok(_) => seq![Request::Commit, Request::PollOperations],
        Err(cause) => seq![Request::ShowError(cause), Request::Commit, Request::PollOperations],
    }
}

/// Takes what a command returned. A failure is shown and goes no further.
pub fn finish_command(outcome: Result<(), String>) -> (requests: Vec<Request>)
    ensures
        requests@ == command_requests(outcome),
{
    let mut requests: Vec<Request> = Vec::new();
    match outcome {
        Ok(_) => {},
        Err(cause) => {
            requests.push(Request::ShowError(cause));
        },
    }
    requests.push(Request::Commit);
    requests.push(Request::PollOperations);
    requests
}

/// What to do, outside a chord, with an event that is no key: after a change of
/// size the screen is drawn anew; in any case the iteration ends with a poll pass.
pub open spec fn idle_requests(event: Event, tabs: nat, active: usize) -> Seq<Request> {
    if event is Resize {
        resize_requests(tabs, active).push(Request::PollOperations)
    } else {
        seq![Request::PollOperations]
    }
}

/// Whether `turn` is what the loop owes to an answer of the resolver.
pub open spec fn follows<'a>(turn: Turn<'a>, answer: Dispatch<'a>) -> bool {
    match answer {
        Dispatch::Execute(command) => turn == Turn::Execute(command),
        Dispatch::Menu(node) => turn == Turn::Menu(node),
        Dispatch::Unknown(key) => turn is Requests && reports_unknown(turn->Requests_0@, key),
    }
}

/// Decides what to do with an event.
///
/// A key goes to the resolver: it completes a binding, leads into a menu, or is
/// answered by a message. Inside a chord anything that is no key ends the chord,
/// with the same message. Outside a chord a change of size has the screen drawn
/// anew, and a tick asks for the poll pass alone.
pub fn on_event<'a, H, P>(
    resolver: &mut Resolver<'a>,
    context: &Context<H, P>,
    event: Event,
) -> (turn: Turn<'a>)
    ensures
        final(resolver).root() == old(resolver).root(),
        turn is Requests ==> polls_once_at_end(turn->Requests_0@),
        match event {
            Event::Input(key) => {
                &&& final(resolver).pending() == step(
                    old(resolver).root(),
                    old(resolver).pending(),
                    key,
                ).0
                &&& follows(turn, step(old(resolver).root(), old(resolver).pending(), key).1)
            },
            _ => {
                &&& final(resolver).pending() is None
                &&& turn is Requests
                &&& match old(resolver).pending() {
                    Some(chord) => reports_unknown(turn->Requests_0@, chord.first),
                    None => turn->Requests_0@ == idle_requests(
                        event,
                        context.tabs@.len(),
                        context.curr_tab_index,
                    ),
                }
            },
        },
{
    match event {
        Event::Input(key) => match resolver.feed(key) {
            Dispatch::Execute(command) => Turn::Execute(command),
            Dispatch::Menu(node) => Turn::Menu(node),
            Dispatch::Unknown(first) => Turn::Requests(report_unknown(first)),
        },
        _ => match resolver.abort() {
            Some(first) => Turn::Requests(report_unknown(first)),
            None => {
                let mut requests = match event {
                    Event::Resize => resize_handler(context),
                    _ => Vec::new(),
                };
                requests.push(Request::PollOperations);
                Turn::Requests(requests)
            },
        },
    }
}

/// A change of size has every panel placed anew, once, and draws the listing of the
/// active tab and of no other.
pub proof fn lemma_resize_refreshes_only_active(tabs: nat, active: usize)
    ensures
        resize_requests(tabs, active)[0] == Request::ResizePanels,
        forall|i: int|
            0 < i < resize_requests(tabs, active).len() ==> (#[trigger] resize_requests(
                tabs,
                active,
            )[i]) != Request::ResizePanels,
        forall|i: int|
            0 <= i < resize_requests(tabs, active).len() && (#[trigger] resize_requests(
                tabs,
                active,
            )[i]) is RefreshTab ==> resize_requests(tabs, active)[i] == Request::RefreshTab(active),
        active < tabs ==> resize_requests(tabs, active).contains(Request::RefreshTab(active)),
{
    if active < tabs {
        assert(resize_requests(tabs, active)[2] == Request::RefreshTab(active));
    }
}

/// Whether `requests` end with a poll pass and ask for no other.
pub open spec fn polls_once_at_end(requests: Seq<Request>) -> bool {
    &&& requests.len() > 0
    &&& requests.last() == Request::PollOperations
    &&& forall|i: int| 0 <= i < requests.len() - 1 ==> (#[trigger] requests[i]) != Request::PollOperations
}

/// Every iteration of the loop ends with one poll pass, whatever the event was:
/// a key that no binding answers, a command that has run, well or not, a change of
/// size, or a tick with no input at all.
pub proof fn lemma_iteration_polls_once(
    requests: Seq<Request>,
    key: Key,
    outcome: Result<(), String>,
    event: Event,
    tabs: nat,
    active: usize,
)
    ensures
        reports_unknown(requests, key) ==> polls_once_at_end(requests),
        polls_once_at_end(command_requests(outcome)),
        polls_once_at_end(idle_requests(event, tabs, active)),
{
}

} // verus!
