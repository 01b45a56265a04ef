use pj::engine::{Effect, TurnOutcome};
use pj::events::{ChatActivityState, ChatChange};
use pj::json::Json;
use pj::tools::{ToolCall, ToolCallFunction};
use pj::web::{
    chat_streamed, chat_unreachable, check_workdir, confirm_begins, confirm_failed, ensure_chat,
    handle_chat, handle_tool_chat, open_chat, status_code, stream_failure, turn_failed,
    turn_response, workdir_looked_up, ChatOpening, Ending, ToolChatPlan, ToolChatRequest,
    ToolConfirmRequest, WorkdirStep,
};

fn log(effects: &[Effect]) -> Vec<String> {
    effects
        .iter()
        .map(|effect| match effect {
            Effect::Store(m) => format!("store {} {} {:?}", m.role, m.content, m.images),
            other => format!("{other:?}"),
        })
        .collect()
}

#[test]
fn a_chat_has_to_exist() {
    assert_eq!(ensure_chat(Some(4), true), Ok(Some(4)));
    assert_eq!(ensure_chat(Some(4), false), Err("chat 4 not found".to_string()));
    assert_eq!(ensure_chat(Some(-4), false), Err("chat -4 not found".to_string()));
    assert_eq!(ensure_chat(None, false), Ok(None));
}

#[test]
fn a_working_directory_is_checked() {
    assert!(matches!(check_workdir(None), WorkdirStep::Accept));
    assert!(matches!(check_workdir(Some("  ")), WorkdirStep::Accept));
    assert!(matches!(check_workdir(Some("rel")), WorkdirStep::Reject(e) if e == "workdir must be an absolute path"));
    assert!(matches!(check_workdir(Some(" /d ")), WorkdirStep::Look(path) if path == "/d"));
    assert!(matches!(workdir_looked_up("/d", true), WorkdirStep::Accept));
    assert!(matches!(workdir_looked_up("/d", false), WorkdirStep::Reject(e) if e == "directory does not exist: /d"));
}

#[test]
fn turns_are_answered() {
    let response = turn_response(3, TurnOutcome::Reply("hi".to_string()));
    assert_eq!(response.kind, "text");
    assert_eq!(response.content, "hi");
    assert!(response.tool_calls.is_none());
    assert_eq!(response.chat_id, 3);
    let call = ToolCall {
        function: ToolCallFunction { name: "glob".to_string(), arguments: Json::Null },
    };
    let response = turn_response(3, TurnOutcome::PendingTools(vec![call]));
    assert_eq!(response.kind, "tool_calls");
    assert_eq!(response.content, "");
    assert_eq!(response.tool_calls.unwrap()[0].function.name, "glob");
}

#[test]
fn images_need_vision() {
    let images = Some(vec!["aGk=".to_string()]);
    match handle_tool_chat(3, "look", &images, "gpt", false) {
        ToolChatPlan::Refuse(effects, response) => {
            let reply = "I can't read images \u{2014} the current model 'gpt' doesn't support vision. Switch to a vision-capable model (e.g. llava, bakllava, llava-phi3) to send images.";
            assert_eq!(
                log(&effects),
                vec![
                    "store user look None".to_string(),
                    format!("store assistant {reply} None"),
                    "Publish(Upsert { id: 3 })".to_string(),
                ]
            );
            assert_eq!(response.content, reply);
            assert_eq!(response.kind, "text");
        }
        other => panic!("{other:?}"),
    }
}

#[test]
fn a_message_is_stored_before_the_turn() {
    let images = Some(vec!["aGk=".to_string()]);
    let cases = [(&images, true, "Some(\"[\\\"aGk=\\\"]\")"), (&None, false, "None"), (&Some(Vec::new()), false, "Some(\"[]\")")];
    for (images, vision, stored) in cases {
        match handle_tool_chat(3, "hi", images, "m", vision) {
            ToolChatPlan::TakeTurn(effects) => assert_eq!(
                log(&effects),
                vec![
                    "Publish(Upsert { id: 3 })".to_string(),
                    format!("store user hi {stored}"),
                    "Publish(Activity { id: 3, state: Thinking })".to_string(),
                    "Publish(Upsert { id: 3 })".to_string(),
                ]
            ),
            other => panic!("{other:?}"),
        }
    }
}

#[test]
fn a_streamed_chat_begins_and_ends() {
    assert_eq!(
        log(&handle_chat(2, "hi")),
        vec![
            "Retitle { chat_id: 2, message: \"hi\" }",
            "Publish(Upsert { id: 2 })",
            "store user hi None",
            "Publish(Activity { id: 2, state: Thinking })",
        ]
    );
    assert_eq!(
        log(&chat_streamed(2, "yes")),
        vec![
            "store assistant yes None",
            "Publish(Upsert { id: 2 })",
            "Publish(Activity { id: 2, state: Idle })",
        ]
    );
    let silent = chat_streamed(2, "");
    assert_eq!(silent.len(), 1);
    assert!(matches!(
        silent[0],
        Effect::Publish(ChatChange::Activity { id: 2, state: ChatActivityState::Idle })
    ));
    assert_eq!(stream_failure("eof"), "Error: eof");
}

#[test]
fn requests_are_plain_records() {
    let request = ToolChatRequest { chat_id: None, message: "m".to_string(), images: None };
    assert_eq!(request.message, "m");
    let confirm = ToolConfirmRequest { chat_id: 1, approved: true };
    assert!(confirm.approved);
}

#[test]
fn an_unreachable_chat_becomes_idle() {
    let mut effects = handle_chat(2, "hi");
    let (idle, error) = chat_unreachable(2, "refused");
    effects.extend(idle);
    assert_eq!(error, "Failed to connect to Ollama: refused");
    assert_eq!(
        log(&effects),
        vec![
            "Retitle { chat_id: 2, message: \"hi\" }",
            "Publish(Upsert { id: 2 })",
            "store user hi None",
            "Publish(Activity { id: 2, state: Thinking })",
            "Publish(Activity { id: 2, state: Idle })",
        ]
    );
    assert_eq!(status_code(Ending::Unreachable), 500);
}

#[test]
fn a_message_opens_its_chat() {
    assert!(matches!(open_chat(Some(4), true, "hi"), Ok(ChatOpening::Existing(4))));
    assert!(matches!(open_chat(Some(4), false, "hi"), Err(error) if error == "chat 4 not found"));
    let long = "x".repeat(60);
    assert!(matches!(
        open_chat(None, false, &long),
        Ok(ChatOpening::Create { title }) if title == "x".repeat(50)
    ));
}

#[test]
fn failed_turns_leave_the_chat_idle() {
    let (effects, text) = turn_failed(6, "boom");
    assert_eq!(log(&effects), vec!["Publish(Activity { id: 6, state: Idle })"]);
    assert_eq!(text, "Ollama error: boom");
    assert_eq!(log(&confirm_begins(6)), vec!["Publish(Activity { id: 6, state: Thinking })"]);
    let (effects, text) = confirm_failed(6, "boom");
    assert_eq!(log(&effects), vec!["Publish(Activity { id: 6, state: Idle })"]);
    assert_eq!(text, "boom");
}

#[test]
fn answers_have_status_codes() {
    let codes = [
        (Ending::Answered, 200),
        (Ending::ChatNotFound, 400),
        (Ending::WorkdirRejected, 400),
        (Ending::StoreFailed, 500),
        (Ending::TurnFailed, 500),
        (Ending::ConfirmFailed, 500),
    ];
    for (ending, code) in codes {
        assert_eq!(status_code(ending), code);
    }
}
