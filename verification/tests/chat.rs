use pj::chat::{
    add_assistant_message_with_tools, add_message, add_message_with_name, add_tool_result_message,
    build_messages_from_db, delete_pending_tools, get_coding_system_prompt, get_messages, load_pending_tools,
    message_from_row, save_pending_tools, title_from_message, update_title_from_message, ChatRequest, ChatSummary, MessageOut,
    MessageRow, NewMessage, PendingToolCall, PendingWrite, StoredCalls,
};
use pj::json::Json;
use pj::tools::{ToolCall, ToolCallFunction};

fn call(name: &str) -> ToolCall {
    ToolCall { function: ToolCallFunction { name: name.to_string(), arguments: Json::Null } }
}

fn row(new: NewMessage, id: i64) -> MessageRow {
    MessageRow {
        id,
        role: new.role,
        content: new.content,
        created_at: "now".to_string(),
        images: new.images,
        name: new.name,
        tool_calls: new.tool_calls,
    }
}

fn message(role: &str, content: &str, tool_calls: Option<Vec<ToolCall>>) -> MessageOut {
    MessageOut {
        id: 1,
        role: role.to_string(),
        content: content.to_string(),
        created_at: "now".to_string(),
        images: None,
        name: Some("who".to_string()),
        tool_calls,
    }
}

#[test]
fn a_stored_message_is_read_back() {
    let images = vec!["aGk=".to_string(), "\"".to_string()];
    let new = add_message_with_name(7, "user", "hello", Some("me"), Some(&images));
    assert_eq!(new.chat_id, 7);
    assert_eq!(new.images, Some("[\"aGk=\",\"\\\"\"]".to_string()));
    let read = get_messages(&vec![row(new, 3)]);
    assert_eq!(read.len(), 1);
    assert_eq!(read[0].id, 3);
    assert_eq!(read[0].role, "user");
    assert_eq!(read[0].content, "hello");
    assert_eq!(read[0].created_at, "now");
    assert_eq!(read[0].name, Some("me".to_string()));
    assert_eq!(read[0].images, Some(images));
    assert!(read[0].tool_calls.is_none());
}

#[test]
fn a_message_without_images_has_none() {
    let new = add_message(7, "assistant", "hi", None);
    assert_eq!(new.images, None);
    assert_eq!(new.name, None);
    let read = get_messages(&vec![row(new, 3)]);
    assert_eq!(read[0].images, None);
}

#[test]
fn images_that_cannot_be_read_are_left_out() {
    let mut broken = row(add_message(7, "user", "hi", None), 1);
    broken.images = Some("not json".to_string());
    broken.tool_calls = Some(Vec::new());
    let read = get_messages(&vec![broken]);
    assert_eq!(read[0].images, None);
    assert!(read[0].tool_calls.is_none());
}

#[test]
fn a_row_takes_the_images_that_were_read() {
    let read = message_from_row(&row(add_message(7, "user", "hi", None), 4), Some(vec!["x".to_string()]));
    assert_eq!(read.id, 4);
    assert_eq!(read.images, Some(vec!["x".to_string()]));
}

#[test]
fn results_of_tools_carry_the_tool() {
    let new = add_tool_result_message(7, "glob", "no matches");
    assert_eq!(new.role, "tool");
    assert_eq!(new.name, Some("glob".to_string()));
    assert_eq!(new.content, "no matches");
}

#[test]
fn calls_are_stored_with_the_reply() {
    let new = add_assistant_message_with_tools(7, "let me look", &vec![call("glob")]);
    assert_eq!(new.role, "assistant");
    assert_eq!(new.content, "let me look");
    assert_eq!(new.tool_calls.as_ref().map(|c| c.len()), Some(1));
    let read = get_messages(&vec![row(new, 1)]);
    assert_eq!(read[0].tool_calls.as_ref().unwrap()[0].function.name, "glob");
}

#[test]
fn a_new_chat_gets_its_title_from_the_first_message() {
    let long = "\u{4e2d}".repeat(60);
    assert_eq!(update_title_from_message(Some("New Chat"), &long), Some("\u{4e2d}".repeat(50)));
    assert_eq!(update_title_from_message(Some("New Chat"), "hi"), Some("hi".to_string()));
    assert_eq!(update_title_from_message(Some("hi"), "again"), None);
    assert_eq!(update_title_from_message(None, "hi"), None);
    assert_eq!(title_from_message(&long).chars().count(), 50);
}

#[test]
fn a_conversation_begins_with_the_system_prompt() {
    let messages = build_messages_from_db(&Vec::new());
    assert_eq!(messages.len(), 1);
    assert_eq!(messages[0].role, "system");
    assert_eq!(messages[0].content, get_coding_system_prompt());
}

#[test]
fn the_system_prompt_is_what_it_is() {
    let prompt = get_coding_system_prompt();
    assert!(prompt.starts_with("You are pj, a pragmatic coding agent working directly in the user's filesystem. You get real work done with tools instead of describing what could be done.\n\nWorking rules:\n- Read before you edit:"));
    assert!(prompt.ends_with("No filler.\nIf you cannot use tools for something, say so plainly."));
    assert_eq!(prompt.lines().count(), 9);
}

#[test]
fn empty_replies_are_not_sent() {
    let messages = build_messages_from_db(&vec![
        message("user", "", None),
        message("assistant", " \n", None),
        message("assistant", "", Some(Vec::new())),
        message("assistant", "", Some(vec![call("glob")])),
        message("tool", "", None),
        message("assistant", "done", None),
    ]);
    let roles: Vec<&str> = messages.iter().map(|m| m.role.as_str()).collect();
    assert_eq!(roles, vec!["system", "user", "assistant", "tool", "assistant"]);
    assert_eq!(messages[2].tool_calls.as_ref().unwrap()[0].function.name, "glob");
    assert!(messages.iter().all(|m| m.name.is_none()));
    assert_eq!(messages[4].clone().content, "done");
}

#[test]
fn pending_calls_are_read() {
    assert!(matches!(load_pending_tools(5, StoredCalls::Missing), Ok(None)));
    match load_pending_tools(5, StoredCalls::Read(vec![call("grep")])) {
        Ok(Some(calls)) => assert_eq!(calls[0].function.name, "grep"),
        other => panic!("{other:?}"),
    }
    match load_pending_tools(5, StoredCalls::Unreadable("eof".to_string())) {
        Err(error) => assert_eq!(error, "Corrupt pending tools for chat 5: eof"),
        other => panic!("{other:?}"),
    }
}

#[test]
fn records_are_copied() {
    let chat = ChatSummary { id: 1, title: "t".to_string(), created_at: "c".to_string(), message_count: 2 };
    assert_eq!(chat.clone().title, "t");
    assert_eq!(message("user", "x", None).clone().content, "x");
    assert_eq!(PendingToolCall { tool_calls: vec![call("a")] }.clone().tool_calls.len(), 1);
    let request = ChatRequest { chat_id: Some(1), message: "m".to_string() };
    assert_eq!(request.chat_id, Some(1));
}

#[test]
fn the_last_save_is_loaded() {
    let mut table: std::collections::BTreeMap<i64, Vec<ToolCall>> = std::collections::BTreeMap::new();
    let writes = vec![
        save_pending_tools(1, &vec![call("a"), call("b")]),
        save_pending_tools(2, &vec![call("other")]),
        save_pending_tools(1, &vec![call("c"), call("d")]),
        delete_pending_tools(3),
    ];
    for write in writes {
        match write {
            PendingWrite::Save { chat_id, calls } => {
                table.insert(chat_id, calls);
            }
            PendingWrite::Delete { chat_id } => {
                table.remove(&chat_id);
            }
        }
    }
    let stored = |table: &std::collections::BTreeMap<i64, Vec<ToolCall>>, id: i64| match table.get(&id) {
        Some(calls) => StoredCalls::Read(calls.clone()),
        None => StoredCalls::Missing,
    };
    let names: Vec<String> = load_pending_tools(1, stored(&table, 1))
        .unwrap()
        .unwrap()
        .iter()
        .map(|c| c.function.name.clone())
        .collect();
    assert_eq!(names, vec!["c".to_string(), "d".to_string()]);
    if let PendingWrite::Delete { chat_id } = delete_pending_tools(1) {
        table.remove(&chat_id);
    }
    assert!(matches!(load_pending_tools(1, stored(&table, 1)), Ok(None)));
    assert!(matches!(load_pending_tools(2, stored(&table, 2)), Ok(Some(_))));
}
