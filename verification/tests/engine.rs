use pj::chat::OllamaChatMessage;
use pj::engine::{
    calls_to_parse, next_effect, pending_deleted, readable_calls, resolve_pending_tools, result_recorded,
    run_chat_turn, tool_executed, Effect, EffectStep, Occasion, ResolveStep, TurnOutcome,
};
use pj::events::{ChatActivityState, ChatChange};
use pj::json::Json;
use pj::tools::{ToolCall, ToolCallFunction};

fn call(name: &str, path: &str) -> ToolCall {
    ToolCall {
        function: ToolCallFunction {
            name: name.to_string(),
            arguments: Json::Object(vec![("path".to_string(), Json::Text(path.to_string()))]),
        },
    }
}

fn reply(content: &str, tool_calls: Option<Vec<ToolCall>>) -> OllamaChatMessage {
    OllamaChatMessage {
        role: "assistant".to_string(),
        content: content.to_string(),
        tool_calls,
        name: None,
        images: None,
    }
}

#[test]
fn a_reply_is_stored_and_published() {
    let turn = run_chat_turn(5, &reply(" <think>x</think>hello ", None), Vec::new(), None);
    assert!(matches!(&turn.outcome, TurnOutcome::Reply(text) if text == "hello"));
    assert_eq!(turn.effects.len(), 2);
    match &turn.effects[0] {
        Effect::Store(message) => {
            assert_eq!(message.chat_id, 5);
            assert_eq!(message.role, "assistant");
            assert_eq!(message.content, "hello");
        }
        other => panic!("{other:?}"),
    }
    assert!(matches!(turn.effects[1], Effect::Publish(ChatChange::Upsert { id: 5 })));
}

#[test]
fn an_empty_reply_leaves_no_trace() {
    let turn = run_chat_turn(5, &reply(" <think>only</think> ", Some(Vec::new())), Vec::new(), None);
    assert!(matches!(&turn.outcome, TurnOutcome::Reply(text) if text.is_empty()));
    assert!(turn.effects.is_empty());
}

#[test]
fn tool_calls_wait() {
    let turn = run_chat_turn(
        5,
        &reply("looking", Some(vec![call("read_file", "a")])),
        vec![Some(call("glob", "ignored"))],
        Some("/cwd"),
    );
    match &turn.outcome {
        TurnOutcome::PendingTools(calls) => {
            assert_eq!(calls.len(), 1);
            assert_eq!(calls[0].function.arguments.get_text("path"), Some("/cwd/a".to_string()));
        }
        other => panic!("{other:?}"),
    }
    assert_eq!(turn.effects.len(), 4);
    assert!(matches!(&turn.effects[0], Effect::Store(m) if m.content == "looking" && m.tool_calls.is_some()));
    assert!(matches!(&turn.effects[1], Effect::SavePending { chat_id: 5, calls } if calls.len() == 1));
    assert!(matches!(turn.effects[2], Effect::Publish(ChatChange::Upsert { id: 5 })));
    assert!(matches!(
        turn.effects[3],
        Effect::Publish(ChatChange::Activity { id: 5, state: ChatActivityState::AwaitingToolConfirmation })
    ));
}

#[test]
fn calls_in_the_text_count_where_there_are_no_others() {
    let text = "ok <tool_call>{\"a\"}</tool_call><tool_call>bad</tool_call>";
    assert_eq!(calls_to_parse(&reply(text, None)), vec!["{\"a\"}".to_string(), "bad".to_string()]);
    assert!(calls_to_parse(&reply(text, Some(vec![call("glob", "x")]))).is_empty());
    assert_eq!(calls_to_parse(&reply(text, Some(Vec::new()))).len(), 2);
    let turn = run_chat_turn(1, &reply(text, None), vec![Some(call("grep", "x")), None], None);
    match &turn.outcome {
        TurnOutcome::PendingTools(calls) => {
            assert_eq!(calls.len(), 1);
            assert_eq!(calls[0].function.name, "grep");
        }
        other => panic!("{other:?}"),
    }
    assert_eq!(readable_calls(vec![None, Some(call("a", "")), None]).len(), 1);
}

fn resolve(approved: bool) -> Vec<String> {
    let mut log = Vec::new();
    let pending = Ok(Some(vec![call("read_file", "a"), call("glob", "b")]));
    let mut step = resolve_pending_tools(9, approved, pending);
    loop {
        step = match step {
            ResolveStep::Failed(error) => {
                log.push(format!("failed {error}"));
                return log;
            }
            ResolveStep::DeletePending(rest) => {
                log.push("delete".to_string());
                pending_deleted(rest, Ok(()))
            }
            ResolveStep::Execute(call, rest) => {
                log.push(format!("run {}", call.function.name));
                let result = if call.function.name == "glob" {
                    Err("oops".to_string())
                } else {
                    Ok("fine".to_string())
                };
                tool_executed(rest, result)
            }
            ResolveStep::Record(message, rest) => {
                log.push(format!("{} {:?} {}", message.role, message.name, message.content));
                result_recorded(rest, Ok(()))
            }
            ResolveStep::Resolved(changes) => {
                assert_eq!(changes.len(), 2);
                assert_eq!(changes[0], ChatChange::Upsert { id: 9 });
                assert_eq!(changes[1], ChatChange::Activity { id: 9, state: ChatActivityState::Thinking });
                log.push("resolved".to_string());
                return log;
            }
        };
    }
}

#[test]
fn approved_calls_run_in_order() {
    assert_eq!(
        resolve(true),
        vec![
            "delete",
            "run read_file",
            "tool Some(\"read_file\") fine",
            "run glob",
            "tool Some(\"glob\") Error: oops",
            "resolved",
        ]
    );
}

#[test]
fn declined_calls_do_not_run() {
    assert_eq!(
        resolve(false),
        vec![
            "delete",
            "tool Some(\"read_file\") User declined to execute this tool call.",
            "tool Some(\"glob\") User declined to execute this tool call.",
            "resolved",
        ]
    );
}

#[test]
fn calls_are_resolved_once() {
    match resolve_pending_tools(9, true, Ok(None)) {
        ResolveStep::Failed(error) => {
            assert_eq!(error, "No pending tool calls for chat 9 (already resolved elsewhere?)");
        }
        other => panic!("{other:?}"),
    }
    match resolve_pending_tools(9, true, Err("Corrupt".to_string())) {
        ResolveStep::Failed(error) => assert_eq!(error, "Corrupt"),
        other => panic!("{other:?}"),
    }
}

#[test]
fn a_store_that_fails_stops_the_rest() {
    let step = resolve_pending_tools(9, true, Ok(Some(vec![call("glob", "x")])));
    match step {
        ResolveStep::DeletePending(rest) => match pending_deleted(rest, Err("locked".to_string())) {
            ResolveStep::Failed(error) => assert_eq!(error, "locked"),
            other => panic!("{other:?}"),
        },
        other => panic!("{other:?}"),
    }
    let step = resolve_pending_tools(9, false, Ok(Some(vec![call("glob", "x")])));
    if let ResolveStep::DeletePending(rest) = step {
        if let ResolveStep::Record(_, rest) = pending_deleted(rest, Ok(())) {
            match result_recorded(rest, Err("full".to_string())) {
                ResolveStep::Failed(error) => assert_eq!(error, "full"),
                other => panic!("{other:?}"),
            }
            return;
        }
    }
    panic!("no record");
}

fn run(occasion: Occasion, failing: usize) -> (usize, Result<(), String>) {
    let effects = vec![
        Effect::Retitle { chat_id: 1, message: "m".to_string() },
        Effect::Publish(ChatChange::Upsert { id: 1 }),
        Effect::Retitle { chat_id: 1, message: "m".to_string() },
    ];
    let mut done = 0;
    let mut last = Ok(());
    loop {
        match next_effect(occasion, &effects, done, last) {
            EffectStep::Perform(i) => {
                assert_eq!(i, done);
                last = if i == failing { Err(format!("no {i}")) } else { Ok(()) };
                done = i + 1;
            }
            EffectStep::Finished => return (done, Ok(())),
            EffectStep::Failed(error) => return (done, Err(error)),
        }
    }
}

#[test]
fn a_failed_store_stops_a_turn_and_a_request() {
    for occasion in [Occasion::TurnEnd, Occasion::Request] {
        assert_eq!(run(occasion, 0), (1, Err("no 0".to_string())));
        assert_eq!(run(occasion, 1), (3, Ok(())));
        assert_eq!(run(occasion, 2), (3, Err("no 2".to_string())));
        assert_eq!(run(occasion, 9), (3, Ok(())));
    }
}

#[test]
fn elsewhere_failures_are_passed_over() {
    for occasion in [Occasion::StreamEnd, Occasion::Question, Occasion::Notice] {
        for failing in 0..4 {
            assert_eq!(run(occasion, failing), (3, Ok(())));
        }
    }
}

#[test]
fn several_calls_in_the_text_are_read_in_order() {
    let texts = ["{\"function\":{\"name\":\"a\"}}", "{\"function\":{\"name\":\"b\"}}", "{}"];
    let content: String = texts.iter().map(|t| format!("so <tool_call>{t}</tool_call>")).collect();
    assert_eq!(calls_to_parse(&reply(&content, None)), texts.to_vec());
    let calls = readable_calls(vec![Some(call("a", "")), Some(call("b", ""))]);
    let names: Vec<&str> = calls.iter().map(|c| c.function.name.as_str()).collect();
    assert_eq!(names, vec!["a", "b"]);
}
