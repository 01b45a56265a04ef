use pj::chat::{ChatSummary, MessageOut};
use pj::engine::TurnOutcome;
use pj::events::{ChatActivityState, ChatChange, Polled};
use pj::json::Json;
use pj::tools::{ToolCall, ToolCallFunction};
use pj::tui::{
    begin_poll, next_change, reconnected, report_outcome, take_polled, App, BatchStep, CliEvent,
    Command, Focus, Key, KeyPress, PollStep,
};

fn press(key: Key) -> KeyPress {
    KeyPress { key, control: false }
}

fn typed(c: char) -> KeyPress {
    press(Key::Char(c))
}

fn chat(id: i64) -> ChatSummary {
    ChatSummary { id, title: format!("chat {id}"), created_at: String::new(), message_count: 0 }
}

fn call(name: &str) -> ToolCall {
    ToolCall { function: ToolCallFunction { name: name.to_string(), arguments: Json::Null } }
}

fn note(content: &str) -> MessageOut {
    MessageOut {
        id: 1,
        role: "user".to_string(),
        content: content.to_string(),
        created_at: String::new(),
        images: None,
        name: None,
        tool_calls: None,
    }
}

fn shown(id: i64) -> App {
    let mut app = App::new();
    app.load_chats(vec![chat(id)]);
    app.select_chat(0);
    app
}

fn log(commands: &[Command]) -> Vec<String> {
    commands
        .iter()
        .map(|command| match command {
            Command::Store(m) => format!("store {} {} {}", m.chat_id, m.role, m.content),
            other => format!("{other:?}"),
        })
        .collect()
}

#[test]
fn the_interface_starts_empty() {
    let app = App::new();
    assert!(app.chats.is_empty());
    assert_eq!(app.focus, Focus::Input);
    assert!(!app.exit && !app.loading && !app.show_help && !app.waiting_confirmation);
}

#[test]
fn the_selection_stays_in_the_list() {
    let mut app = App::new();
    app.load_chats(vec![chat(1), chat(2), chat(3)]);
    app.focus = Focus::Sidebar;
    app.handle_key(press(Key::Up));
    assert_eq!(app.sidebar_index, 0);
    for _ in 0..5 {
        app.handle_key(typed('j'));
    }
    assert_eq!(app.sidebar_index, 2);
    app.load_chats(vec![chat(1)]);
    assert_eq!(app.sidebar_index, 0);
    app.load_chats(Vec::new());
    app.handle_key(press(Key::Down));
    assert_eq!(app.sidebar_index, 0);
    app.load_chats(vec![chat(1), chat(2)]);
    app.handle_key(press(Key::Down));
    app.handle_key(typed('k'));
    assert_eq!(app.sidebar_index, 0);
}

#[test]
fn selecting_a_chat_loads_it() {
    let mut app = App::new();
    app.load_chats(vec![chat(4), chat(7)]);
    app.focus = Focus::Sidebar;
    app.handle_key(press(Key::Down));
    let commands = app.handle_key(press(Key::Enter));
    assert_eq!(log(&commands), vec!["LoadMessages { chat_id: 7 }", "LoadPending { chat_id: 7 }"]);
    assert_eq!(app.active_chat_id, Some(7));
    assert_eq!(app.focus, Focus::Input);
    assert!(app.select_chat(9).is_empty());
}

#[test]
fn messages_that_come_reset_the_scroll() {
    let mut app = shown(1);
    app.scroll = 9;
    app.load_messages(vec![note("a")]);
    assert_eq!(app.scroll, 0);
    assert_eq!(app.messages.len(), 1);
}

#[test]
fn a_message_is_sent() {
    let mut app = shown(3);
    for c in " hi ".chars() {
        app.handle_key(typed(c));
    }
    assert_eq!(app.input, " hi ");
    let commands = app.handle_key(press(Key::Enter));
    assert_eq!(
        log(&commands),
        vec![
            "UpdateTitle { chat_id: 3, message: \"hi\" }",
            "store 3 user hi",
            "Publish(Upsert { id: 3 })",
            "LoadChats",
            "LoadMessages { chat_id: 3 }",
            "Publish(Activity { id: 3, state: Thinking })",
            "RunTurn { chat_id: 3 }",
        ]
    );
    assert_eq!(app.input, "");
    assert!(app.loading);
    assert!(app.is_active_chat_loading());
    app.handle_key(typed('x'));
    assert!(app.handle_key(press(Key::Enter)).is_empty());
    assert_eq!(app.input, "x");
}

#[test]
fn nothing_is_sent_for_an_empty_line() {
    let mut app = shown(3);
    app.handle_key(typed(' '));
    assert!(app.handle_key(press(Key::Enter)).is_empty());
    assert!(!app.loading);
}

#[test]
fn a_message_without_a_chat_makes_one() {
    let mut app = App::new();
    app.handle_key(typed('x'));
    let commands = app.handle_key(press(Key::Enter));
    assert_eq!(log(&commands), vec!["CreateChat { first_message: Some(\"x\") }"]);
    assert_eq!(app.input, "");
    assert!(!app.loading);
    let commands = app.new_chat(Some(8), Some("x".to_string()));
    let log = log(&commands);
    assert_eq!(log.len(), 9);
    assert_eq!(log[0], "Publish(Upsert { id: 8 })");
    assert_eq!(log[1], "LoadChats");
    assert_eq!(log[3], "store 8 user x");
    assert_eq!(log[8], "RunTurn { chat_id: 8 }");
    assert_eq!(app.active_chat_id, Some(8));
    assert!(app.loading);
}

#[test]
fn a_chat_that_cannot_be_made_changes_nothing() {
    let mut app = App::new();
    assert!(app.new_chat(None, Some("x".to_string())).is_empty());
    assert_eq!(app.active_chat_id, None);
    assert!(!app.loading);
}

#[test]
fn new_chats_are_made_from_the_list() {
    let mut app = shown(1);
    app.focus = Focus::Sidebar;
    app.input = "draft".to_string();
    assert_eq!(log(&app.handle_key(typed('n'))), vec!["CreateChat { first_message: None }"]);
    let commands = app.new_chat(Some(2), None);
    assert_eq!(log(&commands), vec!["Publish(Upsert { id: 2 })", "LoadChats"]);
    assert_eq!(app.input, "");
    assert_eq!(app.focus, Focus::Input);
}

#[test]
fn a_chat_is_deleted_from_the_list() {
    let mut app = shown(5);
    app.load_messages(vec![note("a")]);
    app.focus = Focus::Sidebar;
    let commands = app.handle_key(typed('d'));
    assert_eq!(
        log(&commands),
        vec!["DeleteChat { chat_id: 5 }", "Publish(Deleted { id: 5 })", "LoadChats"]
    );
    assert_eq!(app.active_chat_id, None);
    assert!(app.messages.is_empty());
    app.load_chats(Vec::new());
    assert!(app.handle_key(typed('d')).is_empty());
}

#[test]
fn calls_are_approved_with_y() {
    for key in ['y', 'Y'] {
        let mut app = shown(5);
        app.load_pending(5, Some(vec![call("glob")]));
        assert!(app.waiting_confirmation);
        assert!(app.has_pending_confirmation_for_active_chat());
        let commands = app.handle_key(typed(key));
        assert_eq!(
            log(&commands),
            vec![
                "Publish(Activity { id: 5, state: Thinking })",
                "ResolvePending { chat_id: 5, approved: true }",
            ]
        );
        assert!(app.pending_tool_calls.is_none());
        assert!(!app.waiting_confirmation);
        assert!(app.loading);
        assert!(app.confirm_tool().is_empty());
    }
}

#[test]
fn calls_are_declined_with_n_and_escape() {
    for key in [Key::Char('n'), Key::Char('N'), Key::Esc] {
        let mut app = shown(5);
        app.load_pending(5, Some(vec![call("glob")]));
        let commands = app.handle_key(press(key));
        assert_eq!(log(&commands)[1], "ResolvePending { chat_id: 5, approved: false }");
        assert_eq!(app.exit, key == Key::Esc);
        assert!(app.deny_tool().is_empty());
    }
}

#[test]
fn other_keys_do_not_run_tools() {
    for key in [Key::Enter, Key::Tab, Key::Backspace, Key::Char('x'), Key::Char('k'), Key::Other] {
        let mut app = shown(5);
        app.load_pending(5, Some(vec![call("glob")]));
        assert!(app.handle_key(press(key)).is_empty());
        assert!(app.has_pending_confirmation_for_active_chat());
    }
}

#[test]
fn calls_of_another_chat_are_not_approved() {
    let mut app = shown(5);
    app.load_pending(6, Some(vec![call("glob")]));
    assert!(!app.has_pending_confirmation_for_active_chat());
    assert!(app.handle_key(typed('y')).is_empty());
    assert_eq!(app.input, "y");
    app.load_pending(5, None);
    assert!(app.waiting_confirmation);
}

#[test]
fn the_description_of_calls_is_scrolled() {
    let mut app = shown(5);
    app.load_pending(5, Some(vec![call("read_file"), call("edit_file")]));
    assert_eq!(app.confirmation_line_count(), 6);
    for _ in 0..9 {
        app.handle_key(press(Key::Down));
    }
    assert_eq!(app.confirmation_scroll, 5);
    app.handle_key(press(Key::Up));
    assert_eq!(app.confirmation_scroll, 4);
    app.confirmation_scroll = 0;
    app.handle_key(press(Key::Up));
    assert_eq!(app.confirmation_scroll, 0);
    assert_eq!(App::new().confirmation_line_count(), 0);
}

#[test]
fn keys_end_the_program() {
    let mut app = shown(1);
    app.handle_key(typed('q'));
    assert!(!app.exit);
    assert_eq!(app.input, "q");
    app.focus = Focus::Sidebar;
    app.handle_key(typed('q'));
    assert!(app.exit);

    let mut app = shown(1);
    app.handle_key(typed('c'));
    assert!(!app.exit);
    app.handle_key(KeyPress { key: Key::Char('c'), control: true });
    assert!(app.exit);

    let mut app = shown(1);
    for c in "/exit ".chars() {
        app.handle_key(typed(c));
    }
    assert!(app.handle_key(press(Key::Enter)).is_empty());
    assert!(app.exit);
    assert_eq!(app.input, "");
}

#[test]
fn any_key_closes_the_help() {
    let mut app = shown(1);
    app.focus = Focus::Sidebar;
    app.handle_key(typed('?'));
    assert!(app.show_help);
    app.handle_key(press(Key::Esc));
    assert!(!app.show_help);
    assert!(!app.exit);
    app.focus = Focus::Input;
    app.handle_key(typed('?'));
    assert!(!app.show_help);
    assert_eq!(app.input, "?");
}

#[test]
fn typing_is_undone() {
    let mut app = shown(1);
    app.handle_key(typed('a'));
    app.handle_key(typed('\u{4e2d}'));
    app.handle_key(press(Key::Backspace));
    assert_eq!(app.input, "a");
    app.handle_key(press(Key::Backspace));
    app.handle_key(press(Key::Backspace));
    assert_eq!(app.input, "");
    app.handle_key(press(Key::Tab));
    assert_eq!(app.focus, Focus::Sidebar);
    app.handle_key(press(Key::Tab));
    assert_eq!(app.focus, Focus::Input);
}

#[test]
fn a_reply_ends_the_turn() {
    let mut app = shown(1);
    app.start_turn();
    assert!(app.loading);
    let commands = app.handle_event(CliEvent::TextReady { chat_id: 1 });
    assert_eq!(log(&commands), vec!["LoadMessages { chat_id: 1 }"]);
    assert!(!app.loading);
    assert_eq!(app.loading_chat_id, None);
    assert!(app.handle_event(CliEvent::TextReady { chat_id: 2 }).is_empty());
}

#[test]
fn calls_that_come_are_loaded() {
    let mut app = shown(1);
    let commands = app.handle_event(CliEvent::ToolCallsPending { chat_id: 1 });
    assert_eq!(log(&commands), vec!["LoadMessages { chat_id: 1 }", "LoadPending { chat_id: 1 }"]);
    assert!(app.handle_event(CliEvent::ToolCallsPending { chat_id: 2 }).is_empty());
}

#[test]
fn an_error_is_left_in_the_chat() {
    let mut app = shown(1);
    app.start_turn();
    let commands = app.handle_event(CliEvent::Error { chat_id: 1, message: "boom".to_string() });
    assert_eq!(
        log(&commands),
        vec![
            "store 1 assistant Error: boom",
            "Publish(Upsert { id: 1 })",
            "Publish(Activity { id: 1, state: Idle })",
            "LoadMessages { chat_id: 1 }",
        ]
    );
    assert!(!app.loading);
}

#[test]
fn changes_of_others_are_followed() {
    let mut app = shown(1);
    let commands = app.handle_change(ChatChange::Upsert { id: 1 });
    assert_eq!(log(&commands), vec!["LoadMessages { chat_id: 1 }", "LoadPending { chat_id: 1 }"]);
    assert!(app.handle_change(ChatChange::Upsert { id: 2 }).is_empty());
    app.load_pending(1, Some(vec![call("glob")]));
    let commands = app.handle_change(ChatChange::Upsert { id: 1 });
    assert_eq!(log(&commands), vec!["LoadMessages { chat_id: 1 }"]);
    app.loading = true;
    assert!(app.handle_change(ChatChange::Upsert { id: 1 }).is_empty());
    app.handle_change(ChatChange::Deleted { id: 1 });
    assert_eq!(app.active_chat_id, None);
}

#[test]
fn an_idle_chat_waits_for_nothing_else() {
    let mut app = shown(1);
    app.load_pending(2, Some(vec![call("glob")]));
    app.handle_change(ChatChange::Activity { id: 1, state: ChatActivityState::Thinking });
    assert!(app.waiting_confirmation);
    app.handle_change(ChatChange::Activity { id: 1, state: ChatActivityState::Idle });
    assert!(!app.waiting_confirmation);
    app.load_pending(1, Some(vec![call("glob")]));
    app.handle_change(ChatChange::Activity { id: 1, state: ChatActivityState::Idle });
    assert!(app.waiting_confirmation);
}

#[test]
fn the_end_of_a_turn_is_reported() {
    assert_eq!(
        log(&report_outcome(Ok(TurnOutcome::Reply("x".to_string())), 3)),
        vec!["Publish(Activity { id: 3, state: Idle })", "Notify(TextReady { chat_id: 3 })"]
    );
    assert_eq!(
        log(&report_outcome(Ok(TurnOutcome::PendingTools(Vec::new())), 3)),
        vec!["Notify(ToolCallsPending { chat_id: 3 })"]
    );
    assert_eq!(
        log(&report_outcome(Err("e".to_string()), 3)),
        vec![
            "store 3 assistant Error: e",
            "Publish(Upsert { id: 3 })",
            "Publish(Activity { id: 3, state: Idle })",
            "Notify(Error { chat_id: 3, message: \"e\" })",
        ]
    );
}

#[test]
fn a_stale_connection_is_replaced() {
    assert_eq!(begin_poll(Some(true)), PollStep::Receive);
    assert_eq!(begin_poll(Some(false)), PollStep::Reconnect);
    assert_eq!(begin_poll(None), PollStep::Reconnect);
    assert_eq!(log(&reconnected(true)), vec!["LoadChats"]);
    assert!(reconnected(false).is_empty());
}

#[test]
fn changes_are_gathered_in_order() {
    let mut changes = Vec::new();
    let (a, b) = (ChatChange::Upsert { id: 1 }, ChatChange::Deleted { id: 2 });
    assert_eq!(take_polled(&mut changes, Polled::Change(a)), PollStep::Receive);
    assert_eq!(take_polled(&mut changes, Polled::Change(b)), PollStep::Receive);
    assert_eq!(take_polled(&mut changes, Polled::Quiet), PollStep::Keep);
    assert_eq!(take_polled(&mut changes, Polled::Gone), PollStep::Reconnect);
    assert_eq!(changes, vec![a, b]);
    assert!(matches!(next_change(&changes, 0), BatchStep::Handle(c) if c == a));
    assert!(matches!(next_change(&changes, 1), BatchStep::Handle(c) if c == b));
    assert!(matches!(next_change(&changes, 2), BatchStep::Finish(last) if log(&last) == vec!["LoadChats"]));
    assert!(matches!(next_change(&Vec::new(), 0), BatchStep::Finish(last) if last.is_empty()));
}
