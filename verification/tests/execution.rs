use pj::execution::{
    execute_tool, execute_tool_with_base, resume_tool, ActionOf, EventOf, TaskOf, ToolAction,
    ToolEvent, ToolStep, ToolTask,
};
use pj::json::{Json, JsonNumber};
use pj::output::{
    report_command, report_directory, report_file, report_glob, report_grep, report_timeout,
    truncate_output, DirectoryEntry, GlobMatch,
};
use pj::tools::{ToolCall, ToolCallFunction};

fn call(name: &str, members: Vec<(&str, Json)>) -> ToolCall {
    ToolCall {
        function: ToolCallFunction {
            name: name.to_string(),
            arguments: Json::Object(
                members.into_iter().map(|(n, v)| (n.to_string(), v)).collect(),
            ),
        },
    }
}

fn text(s: &str) -> Json {
    Json::Text(s.to_string())
}

fn number(n: u64) -> Json {
    Json::Number(JsonNumber::Unsigned(n))
}

fn perform(step: ToolStep) -> (ToolAction, ToolTask) {
    match step {
        ToolStep::Perform(action, task) => (action, task),
        ToolStep::Finished(result) => panic!("finished with {result:?}"),
    }
}

fn finish(step: ToolStep) -> Result<String, String> {
    match step {
        ToolStep::Finished(result) => result,
        ToolStep::Perform(action, _) => panic!("wants {action:?}"),
    }
}

fn failed(reason: &str) -> ToolEvent {
    EventOf::Failed { reason: reason.to_string() }
}

fn content(text: &str) -> ToolEvent {
    EventOf::Content { text: text.to_string() }
}

#[test]
fn a_file_is_read_with_numbered_lines() {
    let (action, task) = perform(execute_tool(&call("read_file", vec![("path", text("/f"))]), None));
    assert!(matches!(action, ActionOf::ReadFile { path } if path == "/f"));
    assert_eq!(
        finish(resume_tool(task, content("one\ntwo\r\n"))),
        Ok("     1\tone\n     2\ttwo\n\n[2 of 2 total lines]".to_string())
    );
}

#[test]
fn a_part_of_a_file_is_read() {
    let read = call("read_file", vec![("path", text("/f")), ("offset", number(2)), ("limit", number(1))]);
    let (_, task) = perform(execute_tool(&read, None));
    assert_eq!(
        finish(resume_tool(task, content("a\nb\nc"))),
        Ok("     2\tb\n\n[1 of 3 total lines]".to_string())
    );
    let read = call("read_file", vec![("path", text("/f")), ("offset", number(0)), ("limit", number(0))]);
    let (_, task) = perform(execute_tool(&read, None));
    assert_eq!(
        finish(resume_tool(task, content("a\nb\nc"))),
        Ok("     1\ta\n\n[1 of 3 total lines]".to_string())
    );
    assert_eq!(report_file("a\nb", 5, 10), "\n[0 of 2 total lines]");
    assert_eq!(report_file("a\nb", u64::MAX, u64::MAX), "\n[0 of 2 total lines]");
}

#[test]
fn a_long_file_is_cut() {
    let line = "x".repeat(40_000);
    let report = report_file(&line, 0, 2000);
    assert!(report.ends_with("\n[... file truncated ...]\n[1 of 1 total lines]"));
    assert!(report.starts_with("     1\txxx"));
    let notes = "\n[... file truncated ...]\n[1 of 1 total lines]".len();
    assert_eq!(report.len(), 30_000 + notes);
}

#[test]
fn missing_arguments_are_errors() {
    let cases = [
        ("read_file", vec![], "missing path"),
        ("write_file", vec![], "missing path"),
        ("write_file", vec![("path", text("/a"))], "missing content"),
        ("edit_file", vec![], "missing path"),
        ("edit_file", vec![("path", text("/a"))], "missing old_string"),
        ("edit_file", vec![("path", text("/a")), ("old_string", text("x"))], "missing new_string"),
        ("run_command", vec![], "missing command"),
        ("glob", vec![], "missing pattern"),
        ("grep", vec![("pattern", number(1))], "missing pattern"),
        ("read_directory", vec![], "missing path"),
        ("dance", vec![], "unknown tool: dance"),
    ];
    for (name, members, error) in cases {
        assert_eq!(finish(execute_tool(&call(name, members), None)), Err(error.to_string()));
    }
}

#[test]
fn a_file_is_written_below_its_parent() {
    let write = call("write_file", vec![("path", text("/d/f")), ("content", text("h\u{e9}"))]);
    let (action, task) = perform(execute_tool(&write, None));
    assert!(matches!(action, ActionOf::CreateDirectory { path } if path == "/d"));
    let (action, task) = perform(resume_tool(task, EventOf::Done));
    assert!(matches!(action, ActionOf::WriteFile { path, content } if path == "/d/f" && content == "h\u{e9}"));
    assert_eq!(finish(resume_tool(task, EventOf::Done)), Ok("wrote 3 bytes to /d/f".to_string()));
}

#[test]
fn a_root_has_no_parent_to_make() {
    let write = call("write_file", vec![("path", text("/")), ("content", text(""))]);
    let (action, task) = perform(execute_tool(&write, None));
    assert!(matches!(action, ActionOf::WriteFile { path, .. } if path == "/"));
    assert_eq!(
        finish(resume_tool(task, failed("is a directory"))),
        Err("write_file error: is a directory".to_string())
    );
}

#[test]
fn failures_are_told_by_tool() {
    let write = call("write_file", vec![("path", text("/d/f")), ("content", text(""))]);
    let (_, task) = perform(execute_tool(&write, None));
    assert_eq!(finish(resume_tool(task, failed("no"))), Err("write_file mkdir error: no".to_string()));

    let (_, task) = perform(execute_tool(&call("read_file", vec![("path", text("/f"))]), None));
    assert_eq!(finish(resume_tool(task, failed("no"))), Err("read_file error: no".to_string()));

    let edit = call("edit_file", vec![("path", text("/f")), ("old_string", text("a")), ("new_string", text("b"))]);
    let (_, task) = perform(execute_tool(&edit, None));
    assert_eq!(finish(resume_tool(task, failed("no"))), Err("edit_file read error: no".to_string()));
    let (_, task) = perform(execute_tool(&edit, None));
    let (_, task) = perform(resume_tool(task, content("a")));
    assert_eq!(finish(resume_tool(task, failed("no"))), Err("edit_file write error: no".to_string()));

    let run = call("run_command", vec![("command", text("ls"))]);
    let (_, task) = perform(execute_tool(&run, None));
    assert_eq!(finish(resume_tool(task, failed("no"))), Err("run_command spawn error: no".to_string()));
    let (_, task) = perform(execute_tool(&run, None));
    let (_, task) = perform(resume_tool(task, EventOf::Done));
    assert_eq!(finish(resume_tool(task, failed("no"))), Err("run_command wait error: no".to_string()));

    let (_, task) = perform(execute_tool(&call("glob", vec![("pattern", text("["))]), None));
    assert_eq!(finish(resume_tool(task, failed("no"))), Err("glob error: no".to_string()));

    let (_, task) = perform(execute_tool(&call("grep", vec![("pattern", text("x"))]), None));
    let (_, task) = perform(resume_tool(task, failed("no rg")));
    assert_eq!(finish(resume_tool(task, failed("no"))), Err("grep error: no".to_string()));

    let (_, task) = perform(execute_tool(&call("read_directory", vec![("path", text("/d"))]), None));
    assert_eq!(finish(resume_tool(task, failed("no"))), Err("read_dir error: no".to_string()));
}

fn edit(old: &str, new: &str, all: Option<bool>) -> ToolCall {
    let mut members = vec![("path", text("/f")), ("old_string", text(old)), ("new_string", text(new))];
    if let Some(all) = all {
        members.push(("replace_all", Json::Bool(all)));
    }
    call("edit_file", members)
}

#[test]
fn an_edit_replaces_the_only_match() {
    let (action, task) = perform(execute_tool(&edit("b", "X", None), None));
    assert!(matches!(action, ActionOf::ReadFile { path } if path == "/f"));
    let (action, task) = perform(resume_tool(task, content("abc")));
    assert!(matches!(action, ActionOf::WriteFile { path, content } if path == "/f" && content == "aXc"));
    assert_eq!(
        finish(resume_tool(task, EventOf::Done)),
        Ok("edited /f: replaced 1 occurrence(s)".to_string())
    );
}

#[test]
fn an_edit_refuses_what_is_not_unique() {
    let (_, task) = perform(execute_tool(&edit("b", "X", Some(false)), None));
    assert_eq!(
        finish(resume_tool(task, content("b b b"))),
        Err("old_string matches 3 locations in /f; it must be unique. Add surrounding lines to disambiguate or set replace_all=true.".to_string())
    );
    let (_, task) = perform(execute_tool(&edit("z", "X", None), None));
    assert_eq!(
        finish(resume_tool(task, content("abc"))),
        Err("old_string not found in /f. Re-read the file and include enough surrounding lines to match exactly.".to_string())
    );
    assert_eq!(
        finish(execute_tool(&edit("same", "same", None), None)),
        Err("old_string and new_string are identical; nothing to change".to_string())
    );
}

#[test]
fn an_edit_replaces_every_match_when_asked() {
    let (_, task) = perform(execute_tool(&edit("b", "X", Some(true)), None));
    let (action, task) = perform(resume_tool(task, content("b b b")));
    assert!(matches!(action, ActionOf::WriteFile { content, .. } if content == "X X X"));
    assert_eq!(
        finish(resume_tool(task, EventOf::Done)),
        Ok("edited /f: replaced 3 occurrence(s)".to_string())
    );
}

#[test]
fn a_command_runs_to_its_end() {
    let run = call("run_command", vec![("command", text("make")), ("timeout_secs", number(5))]);
    let (action, task) = perform(execute_tool_with_base(&run, Some("/w"), Some("/cwd")));
    match action {
        ActionOf::Spawn { command, directory } => {
            assert_eq!(command, "make");
            assert_eq!(directory, Some("/w".to_string()));
        }
        other => panic!("{other:?}"),
    }
    let (action, task) = perform(resume_tool(task, EventOf::Done));
    assert!(matches!(action, ActionOf::Poll));
    let (action, task) = perform(resume_tool(task, EventOf::Running { elapsed_secs: 4 }));
    assert!(matches!(action, ActionOf::Pause));
    let (action, task) = perform(resume_tool(task, EventOf::Done));
    assert!(matches!(action, ActionOf::Poll));
    let (action, task) = perform(resume_tool(task, EventOf::Exited { code: Some(2) }));
    assert!(matches!(action, ActionOf::Collect));
    let output = EventOf::Output {
        stdout: "out\n".to_string(),
        stderr: "err \n".to_string(),
        elapsed: "4.2".to_string(),
    };
    assert_eq!(finish(resume_tool(task, output)), Ok("out\nerr\nexit code: 2 (4.2s)".to_string()));
}

#[test]
fn a_command_without_a_base_runs_where_the_program_runs() {
    let run = call("run_command", vec![("command", text("ls"))]);
    let (action, _) = perform(execute_tool(&run, Some("/cwd")));
    assert!(matches!(action, ActionOf::Spawn { directory: None, .. }));
}

#[test]
fn a_command_is_stopped_in_time() {
    for (asked, seconds) in [(None, 120), (Some(0), 1), (Some(5), 5), (Some(10_000), 600)] {
        let mut members = vec![("command", text("sleep 9999"))];
        if let Some(n) = asked {
            members.push(("timeout_secs", number(n)));
        }
        let (_, task) = perform(execute_tool(&call("run_command", members), None));
        let (_, task) = perform(resume_tool(task, EventOf::Done));
        let (action, task) = perform(resume_tool(task, EventOf::Running { elapsed_secs: seconds }));
        assert!(matches!(action, ActionOf::Kill));
        let output = EventOf::Output {
            stdout: " \n".to_string(),
            stderr: String::new(),
            elapsed: "0.0".to_string(),
        };
        assert_eq!(
            finish(resume_tool(task, output)),
            Err(format!("command timed out after {seconds}s and was killed; no output was produced"))
        );
    }
}

#[test]
fn what_a_stopped_command_wrote_is_kept() {
    assert_eq!(
        report_timeout("  half\n", "", 3),
        "command timed out after 3s and was killed; output so far:\nhalf"
    );
}

#[test]
fn a_killed_command_has_no_code() {
    assert_eq!(report_command("", "", None, "0.1"), "\nexit code: -1 (0.1s)");
    assert_eq!(report_command("", "e", Some(0), "1.0"), "e\nexit code: 0 (1.0s)");
}

#[test]
fn files_are_searched_from_the_root_that_is_asked_for() {
    let cases: [(Vec<(&str, Json)>, &str); 5] = [
        (vec![("pattern", text("*.rs"))], "/base/*.rs"),
        (vec![("pattern", text("/x/*"))], "/x/*"),
        (vec![("pattern", text("*")), ("path", text("src"))], "/base/src/*"),
        (vec![("pattern", text("*")), ("path", text("/src//"))], "/src/*"),
        (vec![("pattern", text("*")), ("path", text("/"))], "/*"),
    ];
    for (members, wanted) in cases {
        let (action, _) = perform(execute_tool_with_base(&call("glob", members), Some("/base"), Some("/cwd")));
        assert!(matches!(action, ActionOf::FindFiles { pattern } if pattern == wanted));
    }
    let (action, _) = perform(execute_tool(&call("glob", vec![("pattern", text("*"))]), Some("/cwd")));
    assert!(matches!(action, ActionOf::FindFiles { pattern } if pattern == "/cwd/*"));
    let (action, _) = perform(execute_tool(&call("glob", vec![("pattern", text("*"))]), None));
    assert!(matches!(action, ActionOf::FindFiles { pattern } if pattern == "./*"));
}

fn file(modified: i128, path: &str) -> GlobMatch {
    GlobMatch { modified, path: path.to_string() }
}

#[test]
fn the_newest_files_come_first() {
    let (_, task) = perform(execute_tool(&call("glob", vec![("pattern", text("*"))]), None));
    let files = vec![file(1, "old"), file(5, "new"), file(3, "mid"), file(5, "new too")];
    assert_eq!(
        finish(resume_tool(task, EventOf::Found { files })),
        Ok("new\nnew too\nmid\nold".to_string())
    );
    assert_eq!(report_glob(Vec::new()), "no matches");
}

#[test]
fn at_most_a_thousand_files_are_listed() {
    let files: Vec<GlobMatch> = (0..1001).map(|i| file(i, &format!("f{i}"))).collect();
    let report = report_glob(files);
    assert!(report.starts_with("f1000\nf999\n"));
    assert!(report.ends_with("\nf1\n[... more than 1000 matches, showing newest 1000 ...]"));
    let files: Vec<GlobMatch> = (0..1000).map(|i| file(i, &format!("f{i}"))).collect();
    assert!(report_glob(files).ends_with("\nf0"));
}

fn ran(success: bool, code: Option<i32>, stdout: &str) -> ToolEvent {
    EventOf::Ran { success, code, stdout: stdout.to_string() }
}

#[test]
fn a_search_in_files_uses_ripgrep_first() {
    let grep = call("grep", vec![("pattern", text("x")), ("path", text("src")), ("include", text("*.rs"))]);
    let (action, task) = perform(execute_tool(&grep, Some("/cwd")));
    match action {
        ActionOf::Run { program, arguments } => {
            assert_eq!(program, "rg");
            assert_eq!(arguments, vec!["-n", "--no-heading", "x", "/cwd/src", "-g", "*.rs"]);
        }
        other => panic!("{other:?}"),
    }
    assert_eq!(finish(resume_tool(task, ran(true, Some(0), " a:1:x\n"))), Ok("a:1:x".to_string()));
    let (_, task) = perform(execute_tool(&grep, None));
    assert_eq!(finish(resume_tool(task, ran(false, Some(1), ""))), Ok("no matches".to_string()));
}

#[test]
fn a_search_in_files_falls_back_to_grep() {
    let grep = call("grep", vec![("pattern", text("x")), ("include", text("*.rs"))]);
    for event in [failed("no rg"), ran(false, Some(2), "junk"), ran(false, None, "")] {
        let (_, task) = perform(execute_tool(&grep, Some("/cwd")));
        let (action, task) = perform(resume_tool(task, event));
        match action {
            ActionOf::Run { program, arguments } => {
                assert_eq!(program, "grep");
                assert_eq!(arguments, vec!["-rn", "--include=*.rs", "x", "/cwd"]);
            }
            other => panic!("{other:?}"),
        }
        assert_eq!(finish(resume_tool(task, ran(false, Some(2), "a:1:x"))), Ok("a:1:x".to_string()));
    }
    let (_, task) = perform(execute_tool(&call("grep", vec![("pattern", text("x"))]), None));
    let (action, _) = perform(resume_tool(task, failed("no rg")));
    assert!(matches!(action, ActionOf::Run { arguments, .. } if arguments == vec!["-rn", "x", "."]));
    assert_eq!(report_grep(" \n"), "no matches");
}

#[test]
fn a_directory_is_listed_in_order() {
    let (action, task) = perform(execute_tool(&call("read_directory", vec![("path", text("d"))]), Some("/cwd")));
    assert!(matches!(action, ActionOf::ListDirectory { path } if path == "/cwd/d"));
    let entries = vec![
        DirectoryEntry { name: "b".to_string(), is_directory: false },
        DirectoryEntry { name: "a".to_string(), is_directory: true },
    ];
    assert_eq!(finish(resume_tool(task, EventOf::Entries { entries })), Ok("a/\nb".to_string()));
    assert_eq!(report_directory(&Vec::new()), "empty directory");
}

#[test]
fn short_output_is_kept() {
    assert_eq!(truncate_output("hello"), "hello");
    let long = "x".repeat(30_000);
    assert_eq!(truncate_output(&long), long);
}

#[test]
fn long_output_keeps_both_ends() {
    let long = format!("{}{}{}", "a".repeat(15_000), "b".repeat(7), "c".repeat(15_000));
    assert_eq!(
        truncate_output(&long),
        format!(
            "{}\n\n[... output truncated, 7 characters omitted ...]\n\n{}",
            "a".repeat(15_000),
            "c".repeat(15_000)
        )
    );
}

#[test]
fn ends_that_overlap_are_both_kept() {
    // 20,000 characters of two bytes each: the ends share 10,000 of them.
    let long = "\u{e9}".repeat(20_000);
    let short = truncate_output(&long);
    assert!(short.starts_with(&"\u{e9}".repeat(15_000)));
    assert!(short.ends_with(&"\u{e9}".repeat(15_000)));
    let omitted = 40_000u64.wrapping_sub(30_000).wrapping_sub(30_000);
    assert!(short.contains(&format!("[... output truncated, {omitted} characters omitted ...]")));
}

#[test]
fn tasks_can_be_printed() {
    let task: ToolTask = TaskOf::Listing;
    assert_eq!(format!("{task:?}"), "Listing");
}

#[test]
fn a_written_file_is_read_back() {
    let write = call("write_file", vec![("path", text("/d/f")), ("content", text("x\ny"))]);
    let (_, task) = perform(execute_tool(&write, None));
    let (action, _) = perform(resume_tool(task, EventOf::Done));
    let written = match action {
        ActionOf::WriteFile { content, .. } => content,
        other => panic!("{other:?}"),
    };
    let (_, task) = perform(execute_tool(&call("read_file", vec![("path", text("/d/f"))]), None));
    assert_eq!(
        finish(resume_tool(task, EventOf::Content { text: written })),
        Ok("     1\tx\n     2\ty\n\n[2 of 2 total lines]".to_string())
    );
}

#[test]
fn tools_that_look_ask_for_nothing_else() {
    for (name, argument) in [("read_file", "path"), ("glob", "pattern"), ("grep", "pattern"), ("read_directory", "path")] {
        let (action, _) = perform(execute_tool(&call(name, vec![(argument, text("x"))]), None));
        assert!(matches!(
            action,
            ActionOf::ReadFile { .. }
                | ActionOf::FindFiles { .. }
                | ActionOf::Run { .. }
                | ActionOf::ListDirectory { .. }
        ));
    }
}

#[test]
fn an_empty_text_is_edited_into_an_empty_file() {
    let (_, task) = perform(execute_tool(&edit("", "new", None), None));
    let (action, _) = perform(resume_tool(task, content("")));
    assert!(matches!(action, ActionOf::WriteFile { content, .. } if content == "new"));
    let (_, task) = perform(execute_tool(&edit("", "new", None), None));
    let error = finish(resume_tool(task, content("ab"))).unwrap_err();
    assert!(error.starts_with("old_string matches 3 locations in /f;"));
}
