use pj::json::{Json, JsonNumber};
use pj::tools::{
    copy_calls, get_tool_definitions, normalize_tool_call, normalize_tool_call_in,
    normalize_tool_calls, normalize_tool_calls_in, tool_call_description, tool_kind, ToolCall,
    ToolCallFunction, ToolKind,
};

fn call(name: &str, members: Vec<(&str, &str)>) -> ToolCall {
    ToolCall {
        function: ToolCallFunction {
            name: name.to_string(),
            arguments: Json::Object(
                members
                    .into_iter()
                    .map(|(n, v)| (n.to_string(), Json::Text(v.to_string())))
                    .collect(),
            ),
        },
    }
}

fn path_of(call: &ToolCall) -> Option<String> {
    call.function.arguments.get_text("path")
}

#[test]
fn paths_are_made_absolute() {
    for name in ["read_file", "write_file", "edit_file", "read_directory"] {
        let normal = normalize_tool_call_in(&call(name, vec![("path", " a.txt ")]), Some("/base"), Some("/cwd"));
        assert_eq!(path_of(&normal), Some("/base/a.txt".to_string()));
        let normal = normalize_tool_call(&call(name, vec![("path", "a.txt")]), Some("/cwd"));
        assert_eq!(path_of(&normal), Some("/cwd/a.txt".to_string()));
        let normal = normalize_tool_call(&call(name, vec![("path", "/x")]), Some("/cwd"));
        assert_eq!(path_of(&normal), Some("/x".to_string()));
    }
}

#[test]
fn other_calls_are_kept() {
    for name in ["run_command", "glob", "grep", "nonsense"] {
        let normal = normalize_tool_call(&call(name, vec![("path", " a ")]), Some("/cwd"));
        assert_eq!(path_of(&normal), Some(" a ".to_string()));
    }
    let normal = normalize_tool_call(&call("read_file", vec![("path", "  ")]), Some("/cwd"));
    assert_eq!(path_of(&normal), Some("  ".to_string()));
    let normal = normalize_tool_call(&call("read_file", vec![("offset", "1")]), Some("/cwd"));
    assert_eq!(normal.function.arguments.to_text(), "{\"offset\":\"1\"}");
}

#[test]
fn normalizing_keeps_the_other_arguments_and_is_final() {
    let first = call("edit_file", vec![("old_string", "a"), ("path", "f"), ("new_string", "b")]);
    let once = normalize_tool_call(&first, Some("/d"));
    assert_eq!(
        once.function.arguments.to_text(),
        "{\"old_string\":\"a\",\"path\":\"/d/f\",\"new_string\":\"b\"}"
    );
    let twice = normalize_tool_call(&once, Some("/d"));
    assert_eq!(twice.function.arguments.to_text(), once.function.arguments.to_text());
}

#[test]
fn lists_of_calls_are_normalized() {
    let calls = vec![call("read_file", vec![("path", "a")]), call("grep", vec![("pattern", "x")])];
    let normal = normalize_tool_calls(&calls, Some("/c"));
    assert_eq!(normal.len(), 2);
    assert_eq!(path_of(&normal[0]), Some("/c/a".to_string()));
    assert_eq!(path_of(&normalize_tool_calls_in(&calls, Some("/b"), None)[0]), Some("/b/a".to_string()));
    assert_eq!(copy_calls(&normal)[1].function.name, "grep");
}

#[test]
fn kinds_go_by_name() {
    assert_eq!(tool_kind("read_file"), ToolKind::ReadFile);
    assert_eq!(tool_kind("write_file"), ToolKind::WriteFile);
    assert_eq!(tool_kind("edit_file"), ToolKind::EditFile);
    assert_eq!(tool_kind("run_command"), ToolKind::RunCommand);
    assert_eq!(tool_kind("glob"), ToolKind::Glob);
    assert_eq!(tool_kind("grep"), ToolKind::Grep);
    assert_eq!(tool_kind("read_directory"), ToolKind::ReadDirectory);
    assert_eq!(tool_kind("Read_File"), ToolKind::Unknown);
}

#[test]
fn calls_are_described() {
    assert_eq!(tool_call_description(&call("read_file", vec![("path", "/a")])), "Read file: /a");
    assert_eq!(tool_call_description(&call("read_file", vec![])), "Read file: ?");
    assert_eq!(
        tool_call_description(&call("write_file", vec![("path", "/a"), ("content", "hi\u{e9}")])),
        "Write file: /a (4 bytes)\n  hi\u{e9}"
    );
    let long = "x".repeat(81);
    assert_eq!(
        tool_call_description(&call("write_file", vec![("path", "/a"), ("content", &long)])),
        format!("Write file: /a (81 bytes)\n  {}...", "x".repeat(80))
    );
    assert_eq!(
        tool_call_description(&call("edit_file", vec![("path", "p"), ("old_string", "o"), ("new_string", "n")])),
        "Edit file: p\n  Replace: o\n  With:    n"
    );
    assert_eq!(tool_call_description(&call("run_command", vec![("command", "ls")])), "Run: ls");
    assert_eq!(tool_call_description(&call("glob", vec![("pattern", "*")])), "Glob: *");
    assert_eq!(tool_call_description(&call("grep", vec![("pattern", "x")])), "Grep: 'x' in .");
    assert_eq!(
        tool_call_description(&call("grep", vec![("pattern", "x"), ("path", "src")])),
        "Grep: 'x' in src"
    );
    assert_eq!(tool_call_description(&call("read_directory", vec![("path", "d")])), "List dir: d");
    assert_eq!(
        tool_call_description(&call("dance", vec![("how", "fast")])),
        "Tool: dance({\"how\":\"fast\"})"
    );
}

#[test]
fn an_edit_of_all_places_says_so() {
    let edit = ToolCall {
        function: ToolCallFunction {
            name: "edit_file".to_string(),
            arguments: Json::Object(vec![
                ("path".to_string(), Json::Text("p".to_string())),
                ("replace_all".to_string(), Json::Bool(true)),
                ("n".to_string(), Json::Number(JsonNumber::Unsigned(1))),
            ]),
        },
    };
    assert_eq!(tool_call_description(&edit), "Edit file (all): p\n  Replace: ?\n  With:    ?");
}

#[test]
fn seven_tools_are_offered() {
    let definitions = get_tool_definitions();
    let names: Vec<&str> = definitions.iter().map(|d| d.function.name.as_str()).collect();
    assert_eq!(
        names,
        vec!["read_file", "write_file", "edit_file", "run_command", "glob", "grep", "read_directory"]
    );
    for definition in &definitions {
        assert_eq!(definition.tool_type, "function");
        assert_eq!(definition.function.parameters.get_text("type"), Some("object".to_string()));
    }
    let read: serde_json::Value =
        serde_json::from_str(&definitions[0].function.parameters.to_text()).unwrap();
    assert_eq!(read["required"][0], "path");
    assert_eq!(read["properties"]["limit"]["type"], "integer");
    assert_eq!(
        read["properties"]["offset"]["description"],
        "1-based line number to start reading from (default: 1)"
    );
    let edit: serde_json::Value =
        serde_json::from_str(&definitions[2].function.parameters.to_text()).unwrap();
    assert_eq!(edit["required"], serde_json::Value::from(vec!["path", "old_string", "new_string"]));
    assert_eq!(edit["properties"]["replace_all"]["type"], "boolean");
    assert_eq!(
        definitions[3].function.description,
        "Run a shell command via `sh -c` and capture stdout/stderr plus the exit code. Use for builds, tests, git, and other verification. Times out if a command hangs."
    );
}
