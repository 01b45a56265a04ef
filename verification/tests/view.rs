use pj::chat::{ChatSummary, MessageOut};
use pj::json::Json;
use pj::tools::{ToolCall, ToolCallFunction};
use pj::tui::{App, Focus};
use pj::view::{
    confirmation_panel, count_fitting, cursor_at, cursor_position, help_area, input_text,
    lower_height, main_body, main_title, messages_can_be_shown, sidebar_help, sidebar_label,
    sidebar_rows, top_bar, truncate_display_width, Area, LineStyle, MainBody, RowStyle, StyledLine,
    TopBar,
};

fn chat(id: i64, title: &str) -> ChatSummary {
    ChatSummary { id, title: title.to_string(), created_at: String::new(), message_count: 0 }
}

fn message(role: &str, content: &str) -> MessageOut {
    MessageOut {
        id: 1,
        role: role.to_string(),
        content: content.to_string(),
        created_at: String::new(),
        images: None,
        name: None,
        tool_calls: None,
    }
}

fn call(name: &str) -> ToolCall {
    ToolCall { function: ToolCallFunction { name: name.to_string(), arguments: Json::Null } }
}

fn shown() -> App {
    let mut app = App::new();
    app.load_chats(vec![chat(1, "first"), chat(2, "second")]);
    app.select_chat(0);
    app
}

fn plain(lines: &[StyledLine]) -> Vec<(&str, LineStyle)> {
    lines.iter().map(|l| (l.text.as_str(), l.style)).collect()
}

#[test]
fn wide_characters_take_two_columns() {
    assert_eq!(truncate_display_width("\u{4e2d}\u{6587}\u{5b57}", 5), "\u{4e2d}\u{6587}");
    assert_eq!(truncate_display_width("\u{4e2d}\u{6587}\u{5b57}", 6), "\u{4e2d}\u{6587}\u{5b57}");
    assert_eq!(truncate_display_width("abcdef", 4), "abcd");
    assert_eq!(truncate_display_width("abc", 0), "");
    assert_eq!(truncate_display_width("a\u{7}b", 2), "a\u{7}b");
}

#[test]
fn as_much_as_fits_is_counted() {
    assert_eq!(count_fitting(&vec![1, 2, 2], 3), 2);
    assert_eq!(count_fitting(&vec![1, 2, 0], 3), 3);
    assert_eq!(count_fitting(&vec![4], 3), 0);
    assert_eq!(count_fitting(&vec![usize::MAX, 1], usize::MAX), 1);
    assert_eq!(count_fitting(&Vec::new(), 3), 0);
}

#[test]
fn long_titles_are_cut() {
    let mut app = App::new();
    let long = "\u{4e2d}".repeat(12);
    app.load_chats(vec![chat(1, "short"), chat(2, &long), chat(3, &"x".repeat(23))]);
    app.active_chat_id = Some(2);
    let rows = sidebar_rows(&app);
    assert_eq!(rows[0].label, "   short");
    assert_eq!(rows[1].label, format!(" \u{25b6} {}", "\u{4e2d}".repeat(11)));
    assert_eq!(rows[2].label, format!("   {}", "x".repeat(22)));
    assert_eq!(rows[0].style, RowStyle::Plain);
    assert_eq!(rows[1].style, RowStyle::Active);
    app.focus = Focus::Sidebar;
    app.sidebar_index = 1;
    assert_eq!(sidebar_rows(&app)[1].style, RowStyle::Selected);
    assert_eq!(sidebar_label("t", 22, "c", false), "   t");
    assert_eq!(sidebar_label("t", 23, "c", true), " \u{25b6} c");
}

#[test]
fn keys_are_named_below_the_list() {
    assert_eq!(sidebar_help(Focus::Sidebar), " [n] new  [d] del  [Tab] focus  [q] quit ");
    assert_eq!(sidebar_help(Focus::Input), " [Tab] focus  [q] quit ");
}

#[test]
fn messages_become_lines() {
    let mut app = shown();
    let mut tool = message("tool", "first line\nsecond");
    tool.name = Some("glob".to_string());
    let mut asked = message("assistant", "");
    asked.tool_calls = Some(vec![call("edit_file")]);
    app.load_messages(vec![
        message("user", "hello"),
        asked,
        tool,
        message("tool", ""),
        message("critic", "```x\ncode\n```"),
    ]);
    assert!(messages_can_be_shown(&app.messages));
    match main_body(&app) {
        MainBody::Lines(lines) => assert_eq!(
            plain(&lines),
            vec![
                ("[You]", LineStyle::User),
                ("hello", LineStyle::Plain),
                ("", LineStyle::Plain),
                ("[AI]", LineStyle::Assistant),
                ("  Edit file: ?", LineStyle::Faint),
                ("    Replace: ?", LineStyle::Faint),
                ("    With:    ?", LineStyle::Faint),
                ("", LineStyle::Plain),
                ("  [glob] first line", LineStyle::Faint),
                ("  [tool] ", LineStyle::Faint),
                ("[critic]", LineStyle::OtherRole),
                ("code\n", LineStyle::Plain),
                ("", LineStyle::Plain),
            ]
        ),
        other => panic!("{other:?}"),
    }
}

#[test]
fn results_of_tools_are_cut() {
    let mut app = shown();
    app.load_messages(vec![message("tool", &"x".repeat(300))]);
    match main_body(&app) {
        MainBody::Lines(lines) => {
            assert_eq!(lines[0].text, format!("  [tool] {}", "x".repeat(200)));
        }
        other => panic!("{other:?}"),
    }
}

#[test]
fn a_fence_that_does_not_end_is_told() {
    assert!(!messages_can_be_shown(&vec![message("user", "```rust")]));
    assert!(messages_can_be_shown(&vec![message("tool", "```rust")]));
    assert!(messages_can_be_shown(&Vec::new()));
}

#[test]
fn notices_stand_in_for_messages() {
    let mut app = App::new();
    assert!(matches!(
        main_body(&app),
        MainBody::Notice("Select a chat from the sidebar or press n to create one.")
    ));
    assert_eq!(main_title(&app), "");
    app = shown();
    assert!(matches!(
        main_body(&app),
        MainBody::Notice("No messages yet. Type below to start chatting.")
    ));
    app.start_turn();
    match main_body(&app) {
        MainBody::Lines(lines) => {
            assert_eq!(plain(&lines), vec![("[AI] Thinking...", LineStyle::Busy)]);
        }
        other => panic!("{other:?}"),
    }
}

#[test]
fn the_title_is_that_of_the_chat() {
    let mut app = shown();
    assert_eq!(main_title(&app), " first ");
    app.active_chat_id = Some(99);
    assert_eq!(main_title(&app), " Chat ");
}

#[test]
fn calls_that_wait_are_described() {
    let mut app = shown();
    assert_eq!(lower_height(&app), 7);
    app.load_pending(1, Some(vec![call("read_file"), call("glob")]));
    assert_eq!(lower_height(&app), 10);
    let panel = confirmation_panel(&app);
    assert_eq!(
        plain(&panel),
        vec![
            ("AI wants to use tools", LineStyle::Heading),
            ("", LineStyle::Plain),
            ("  Read file: ?", LineStyle::Detail),
            ("", LineStyle::Plain),
            ("  Glob: ?", LineStyle::Detail),
        ]
    );
    assert_eq!(panel.len() as u128, app.confirmation_line_count() + 1);
    assert_eq!(confirmation_panel(&App::new()).len(), 1);
}

#[test]
fn the_line_at_the_top_tells_what_goes_on() {
    let mut app = shown();
    assert!(matches!(top_bar(&app), TopBar::Chats(text) if text == " 2 chats "));
    app.load_pending(1, Some(Vec::new()));
    assert!(matches!(top_bar(&app), TopBar::Confirming));
    app.start_turn();
    assert!(matches!(top_bar(&app), TopBar::Thinking));
}

#[test]
fn the_input_line_has_a_hint() {
    let mut app = shown();
    assert_eq!(input_text(&app), " Type a message...");
    app.input = "x".to_string();
    assert_eq!(input_text(&app), "x");
}

#[test]
fn the_cursor_follows_what_is_typed() {
    let mut app = shown();
    let area = Area { x: 30, y: 10, width: 10, height: 7 };
    assert_eq!(cursor_position(&app, area), Some((31, 11)));
    app.input = "\u{4e2d}a".to_string();
    assert_eq!(cursor_position(&app, area), Some((34, 11)));
    app.input = "a".repeat(50);
    assert_eq!(cursor_position(&app, area), Some((38, 11)));
    assert_eq!(cursor_at(&app, 65_535, area), Some((30, 11)));
    assert_eq!(cursor_at(&app, 1, Area { width: 2, ..area }), None);
    assert_eq!(cursor_at(&app, 1, Area { height: 2, ..area }), None);
    app.focus = Focus::Sidebar;
    assert_eq!(cursor_position(&app, area), None);
    app.focus = Focus::Input;
    app.load_pending(1, Some(Vec::new()));
    assert_eq!(cursor_position(&app, area), None);
}

#[test]
fn the_help_stands_in_the_middle() {
    assert_eq!(help_area(60, 30), Area { x: 10, y: 5, width: 40, height: 20 });
    assert_eq!(help_area(40_000, 1), Area { x: 6666, y: 0, width: 4821, height: 0 });
}
