use joshuto::context::{Context, Tab};
use joshuto::key::Key;
use joshuto::keymap::{Command, CommandKeybind, KeyMap};
use joshuto::request::Request;
use joshuto::resolver::{Resolver, WaitMode};
use joshuto::run::{finish_command, init_context, on_event, resize_handler, Event, LoopState, Turn};
use std::io::{Error, ErrorKind};

fn home() -> Tab {
    Tab { path: "/home/user".to_string(), listing: vec!["a".to_string()] }
}

fn bindings() -> KeyMap {
    let mut menu = KeyMap::new();
    menu.insert(Key::Char('a'), CommandKeybind::Simple(Command::new("delete")));
    menu.insert(Key::Char('b'), CommandKeybind::Simple(Command::new("bulk-rename")));
    let mut root = KeyMap::new();
    root.insert(Key::Char('d'), CommandKeybind::Composite(menu));
    root.insert(Key::Char('q'), CommandKeybind::Simple(Command::new("quit")));
    root
}

fn unknown(key: &str) -> Vec<Request> {
    vec![
        Request::ShowError(format!("Unknown keycode: {}", key)),
        Request::Commit,
        Request::PollOperations,
    ]
}

fn requests(turn: Turn) -> Vec<Request> {
    match turn {
        Turn::Requests(requests) => requests,
        other => panic!("expected requests, got {:?}", other),
    }
}

#[test]
fn startup_opens_the_first_tab_and_draws() {
    let mut context: Context<u32, u64> = Context::new();
    let started = init_context(&mut context, Ok(home()));
    assert_eq!(LoopState::after_startup(&started), LoopState::Running);
    assert_eq!(
        started.unwrap(),
        vec![Request::RedrawTabBar, Request::RefreshTab(0), Request::Commit]
    );
    assert_eq!(context.tabs, vec![home()]);
    assert_eq!(context.curr_tab_index, 0);
    assert!(!context.exit);
}

#[test]
fn startup_failure_is_fatal() {
    let mut context: Context<u32, u64> = Context::new();
    let unreadable = Error::new(ErrorKind::PermissionDenied, "cannot read directory");
    let started = init_context(&mut context, Err(unreadable));
    assert_eq!(LoopState::after_startup(&started), LoopState::Terminated);
    let failure = started.unwrap_err();
    assert_eq!(failure.kind(), ErrorKind::PermissionDenied);
    assert_eq!(failure.to_string(), "cannot read directory");
    assert!(context.tabs.is_empty());
}

#[test]
fn new_tab_becomes_the_active_one() {
    let mut context: Context<u32, u64> = Context::new();
    init_context(&mut context, Ok(home())).unwrap();
    let requests = init_context(
        &mut context,
        Ok(Tab { path: "/tmp".to_string(), listing: Vec::new() }),
    )
    .unwrap();
    assert_eq!(requests, vec![Request::RedrawTabBar, Request::RefreshTab(1), Request::Commit]);
    assert_eq!(context.curr_tab_index, 1);
    assert_eq!(context.tabs.len(), 2);
}

#[test]
fn loop_ends_when_the_exit_flag_is_set() {
    let mut context: Context<u32, u64> = Context::new();
    init_context(&mut context, Ok(home())).unwrap();
    assert_eq!(LoopState::after_turn(&context), LoopState::Running);
    context.quit();
    assert!(context.exit);
    assert_eq!(LoopState::after_turn(&context), LoopState::Terminated);
    assert_eq!(context.tabs.len(), 1);
}

#[test]
fn resize_places_all_panels_and_refreshes_only_the_active_tab() {
    let mut context: Context<u32, u64> = Context::new();
    context.push_tab(home());
    context.push_tab(Tab { path: "/tmp".to_string(), listing: Vec::new() });
    context.push_tab(Tab { path: "/var".to_string(), listing: Vec::new() });
    context.switch_tab(1);
    let requests = resize_handler(&context);
    assert_eq!(
        requests,
        vec![
            Request::ResizePanels,
            Request::RedrawTabBar,
            Request::RefreshTab(1),
            Request::Commit
        ]
    );
}

#[test]
fn resize_without_tabs_refreshes_none() {
    let context: Context<u32, u64> = Context::new();
    assert_eq!(
        resize_handler(&context),
        vec![Request::ResizePanels, Request::RedrawTabBar, Request::Commit]
    );
}

#[test]
fn command_failure_becomes_a_status_message() {
    assert_eq!(finish_command(Ok(())), vec![Request::Commit, Request::PollOperations]);
    assert_eq!(
        finish_command(Err("permission denied".to_string())),
        vec![
            Request::ShowError("permission denied".to_string()),
            Request::Commit,
            Request::PollOperations
        ]
    );
}

#[test]
fn bound_key_asks_to_run_its_command() {
    let root = bindings();
    let mut resolver = Resolver::new(&root);
    let context: Context<u32, u64> = Context::new();
    let turn = on_event(&mut resolver, &context, Event::Input(Key::Char('q')));
    assert!(turn.ends_iteration());
    match turn {
        Turn::Execute(command) => assert_eq!(command.name(), "quit"),
        other => panic!("expected a command, got {:?}", other),
    }
}

#[test]
fn unbound_key_is_reported_and_nothing_runs() {
    let root = bindings();
    let mut resolver = Resolver::new(&root);
    let context: Context<u32, u64> = Context::new();
    let turn = on_event(&mut resolver, &context, Event::Input(Key::Char('x')));
    assert!(turn.ends_iteration());
    assert_eq!(requests(turn), unknown("Char('x')"));
    assert_eq!(resolver.wait_mode(), WaitMode::Bounded);
}

#[test]
fn chord_shows_a_menu_and_waits_without_limit() {
    let root = bindings();
    let mut resolver = Resolver::new(&root);
    let context: Context<u32, u64> = Context::new();
    let turn = on_event(&mut resolver, &context, Event::Input(Key::Char('d')));
    assert!(!turn.ends_iteration());
    match turn {
        Turn::Menu(menu) => assert_eq!(menu.len(), 2),
        other => panic!("expected a menu, got {:?}", other),
    }
    assert_eq!(resolver.wait_mode(), WaitMode::Indefinite);
    let turn = on_event(&mut resolver, &context, Event::Input(Key::Char('a')));
    match turn {
        Turn::Execute(command) => assert_eq!(command.name(), "delete"),
        other => panic!("expected a command, got {:?}", other),
    }
    assert_eq!(resolver.wait_mode(), WaitMode::Bounded);
}

#[test]
fn escape_in_a_chord_reports_the_first_key() {
    let root = bindings();
    let mut resolver = Resolver::new(&root);
    let context: Context<u32, u64> = Context::new();
    on_event(&mut resolver, &context, Event::Input(Key::Char('d')));
    let turn = on_event(&mut resolver, &context, Event::Input(Key::Esc));
    assert_eq!(requests(turn), unknown("Char('d')"));
    assert_eq!(resolver.wait_mode(), WaitMode::Bounded);
}

#[test]
fn event_that_is_no_key_ends_a_chord() {
    let root = bindings();
    let context: Context<u32, u64> = Context::new();
    for event in [Event::Resize, Event::Tick] {
        let mut resolver = Resolver::new(&root);
        on_event(&mut resolver, &context, Event::Input(Key::Char('d')));
        let turn = on_event(&mut resolver, &context, event);
        assert_eq!(requests(turn), unknown("Char('d')"));
        assert!(!resolver.in_chord());
    }
}

#[test]
fn resize_event_draws_the_screen_anew() {
    let root = bindings();
    let mut resolver = Resolver::new(&root);
    let mut context: Context<u32, u64> = Context::new();
    init_context(&mut context, Ok(home())).unwrap();
    let turn = on_event(&mut resolver, &context, Event::Resize);
    assert!(turn.ends_iteration());
    assert_eq!(
        requests(turn),
        vec![
            Request::ResizePanels,
            Request::RedrawTabBar,
            Request::RefreshTab(0),
            Request::Commit,
            Request::PollOperations
        ]
    );
}

#[test]
fn tick_asks_for_the_poll_pass_alone() {
    let root = bindings();
    let mut resolver = Resolver::new(&root);
    let context: Context<u32, u64> = Context::new();
    let turn = on_event(&mut resolver, &context, Event::Tick);
    assert!(turn.ends_iteration());
    assert_eq!(requests(turn), vec![Request::PollOperations]);
}
