use pj::cli::{ask_question, cli_mode, is_approval, plain_input, run_cli_turn, CliTurn, Mode, PlainInput};
use pj::engine::{Effect, TurnOutcome};
use pj::json::Json;
use pj::tools::{ToolCall, ToolCallFunction};

fn args(list: &[&str]) -> Vec<String> {
    list.iter().map(|s| s.to_string()).collect()
}

#[test]
fn the_program_is_used_in_four_ways() {
    assert!(matches!(cli_mode(&args(&["pj"])), Mode::Tui));
    assert!(matches!(cli_mode(&args(&[])), Mode::Tui));
    assert!(matches!(cli_mode(&args(&["pj", "--tui"])), Mode::Tui));
    assert!(matches!(cli_mode(&args(&["pj", "--plain", "x"])), Mode::Plain));
    assert!(matches!(
        cli_mode(&args(&["pj", "What is the capital of France?"])),
        Mode::OneShot(q) if q == "What is the capital of France?"
    ));
    assert!(matches!(cli_mode(&args(&["pj", "a", "b", "--plain"])), Mode::OneShot(q) if q == "a b --plain"));
}

#[test]
fn lines_are_understood() {
    assert!(matches!(plain_input(" \n"), PlainInput::Skip));
    assert!(matches!(plain_input(" /exit\n"), PlainInput::Quit));
    assert!(matches!(plain_input(" why? \n"), PlainInput::Ask(q) if q == "why?"));
    assert!(matches!(plain_input("/exit now\n"), PlainInput::Ask(_)));
}

#[test]
fn only_y_approves() {
    for answer in ["y", "Y", " y \n", "Y\r\n"] {
        assert!(is_approval(answer));
    }
    for answer in ["", "\n", "n", "yes", "yy", "N"] {
        assert!(!is_approval(answer));
    }
}

#[test]
fn a_question_is_stored() {
    let effects = ask_question(4, "why?");
    assert_eq!(effects.len(), 3);
    assert!(matches!(&effects[0], Effect::Retitle { chat_id: 4, message } if message == "why?"));
    assert!(matches!(&effects[1], Effect::Store(m) if m.role == "user" && m.content == "why?"));
    assert!(matches!(&effects[2], Effect::Publish(_)));
}

#[test]
fn turns_are_printed() {
    let reply = Ok(TurnOutcome::Reply("see\n```x\ncode\n```".to_string()));
    assert!(matches!(run_cli_turn(&reply), CliTurn::Print(Some(text)) if text == "see\ncode\n"));
    let silence = Ok(TurnOutcome::Reply(" ".to_string()));
    assert!(matches!(run_cli_turn(&silence), CliTurn::Print(None)));
    let call = ToolCall {
        function: ToolCallFunction { name: "glob".to_string(), arguments: Json::Null },
    };
    let waiting = Ok(TurnOutcome::PendingTools(vec![call]));
    assert!(matches!(run_cli_turn(&waiting), CliTurn::Confirm(list) if list == vec!["  Glob: ?".to_string()]));
    let error = Err("boom".to_string());
    assert!(matches!(run_cli_turn(&error), CliTurn::Fail(text) if text == "\nError: boom"));
}
