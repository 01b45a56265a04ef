//! Tools: what a model may call, how a call is written down, and how it is described.

use vstd::prelude::*;

use crate::json::{
    bool_member, json_text, json_views, member_views, text_member, with_member, Json, JsonView,
};
use crate::number::{decimal, decimal_text};
use crate::paths::{absolute_path, absolute_path_in, directory};
use crate::text::{
    blank, byte_len, is_blank, prefix, same_text, take_chars, trim, trimmed, utf8_len,
};

verus! {

/// A tool that is offered to a model.
#[derive(Debug)]
pub struct ToolDefinition {
    pub tool_type: String,
    pub function: ToolFunction,
}

/// The name of a tool, what it does, and the schema of its arguments.
#[derive(Debug)]
pub struct ToolFunction {
    pub name: String,
    pub description: String,
    pub parameters: Json,
}

/// A call that a model makes.
#[derive(Debug)]
pub struct ToolCall {
    pub function: ToolCallFunction,
}

/// The tool that is called, and its arguments.
#[derive(Debug)]
pub struct ToolCallFunction {
    pub name: String,
    pub arguments: Json,
}

/// What a [`ToolDefinition`] stands for.
pub struct ToolDefinitionView {
    pub tool_type: Seq<char>,
    pub name: Seq<char>,
    pub description: Seq<char>,
    pub parameters: JsonView,
}

/// What a [`ToolCall`] stands for.
pub struct ToolCallView {
    pub name: Seq<char>,
    pub arguments: JsonView,
}

impl View for ToolDefinition {
    type V = ToolDefinitionView;

    open spec fn view(&self) -> ToolDefinitionView {
        ToolDefinitionView {
            tool_type: self.tool_type@,
            name: self.function.name@,
            description: self.function.description@,
            parameters: self.function.parameters@,
        }
    }
}

impl View for ToolCall {
    type V = ToolCallView;

    open spec fn view(&self) -> ToolCallView {
        ToolCallView { name: self.function.name@, arguments: self.function.arguments@ }
    }
}

/// The views of a sequence of tool definitions.
pub open spec fn definition_views(list: Seq<ToolDefinition>) -> Seq<ToolDefinitionView> {
    Seq::new(list.len(), |i: int| list[i]@)
}

/// The views of a sequence of tool calls.
pub open spec fn call_views(list: Seq<ToolCall>) -> Seq<ToolCallView> {
    Seq::new(list.len(), |i: int| list[i]@)
}

/// What stands for calls holds the name and the arguments of each, in their order.
pub proof fn law_calls_are_seen_whole(calls: Vec<ToolCall>, i: int)
    requires
        0 <= i < calls@.len(),
    ensures
        call_views(calls@).len() == calls@.len(),
        call_views(calls@)[i].name == calls@[i].function.name@,
        call_views(calls@)[i].arguments == calls@[i].function.arguments@,
{
}

impl Clone for ToolCallFunction {
    fn clone(&self) -> (other: Self)
        ensures
            other.name@ == self.name@,
            other.arguments@ == self.arguments@,
    {
        ToolCallFunction { name: self.name.clone(), arguments: self.arguments.copy() }
    }
}

impl Clone for ToolCall {
    fn clone(&self) -> (other: Self)
        ensures
            other@ == self@,
    {
        ToolCall { function: self.function.clone() }
    }
}

impl Clone for ToolFunction {
    fn clone(&self) -> (other: Self)
        ensures
            other.name@ == self.name@,
            other.description@ == self.description@,
            other.parameters@ == self.parameters@,
    {
        ToolFunction {
            name: self.name.clone(),
            description: self.description.clone(),
            parameters: self.parameters.copy(),
        }
    }
}

impl Clone for ToolDefinition {
    fn clone(&self) -> (other: Self)
        ensures
            other@ == self@,
    {
        ToolDefinition { tool_type: self.tool_type.clone(), function: self.function.clone() }
    }
}

/// Another list of the same tool calls.
pub fn copy_calls(calls: &Vec<ToolCall>) -> (copies: Vec<ToolCall>)
    ensures
        call_views(copies@) == call_views(calls@),
{
    let mut copies: Vec<ToolCall> = Vec::new();
    let mut i: usize = 0;
    while i < calls.len()
        invariant
            i <= calls@.len(),
            call_views(copies@) == call_views(calls@).take(i as int),
        decreases calls@.len() - i,
    {
        let ghost before = call_views(copies@);
        copies.push(calls[i].clone());
        assert(call_views(copies@) =~= before.push(calls@[i as int]@));
        i = i + 1;
        assert(call_views(copies@) =~= call_views(calls@).take(i as int));
    }
    assert(call_views(calls@).take(calls@.len() as int) =~= call_views(calls@));
    copies
}

/// A call as it is written in JSON.
pub open spec fn call_json(call: ToolCallView) -> JsonView {
    JsonView::Object(
        seq![
            (
                "function"@,
                JsonView::Object(
                    seq![
                        ("name"@, JsonView::Text(call.name)),
                        ("arguments"@, call.arguments),
                    ],
                ),
            ),
        ],
    )
}

/// The text of a call as it is written in JSON.
pub open spec fn call_text(call: ToolCallView) -> Seq<char> {
    json_text(call_json(call))
}

/// The text of a call has no white space around it.
pub proof fn lemma_call_text_is_trimmed(call: ToolCallView)
    ensures
        trim(call_text(call)) == call_text(call),
{
    reveal_strlit("{");
    reveal_strlit("}");
    let text = call_text(call);
    assert(text[0] == '{');
    assert(text.last() == '}');
    crate::text::lemma_trim_fixed(text);
}

/// The tools that there are.
#[derive(Clone, Copy, PartialEq, Eq, Structural, Debug)]
pub enum ToolKind {
    ReadFile,
    WriteFile,
    EditFile,
    RunCommand,
    Glob,
    Grep,
    ReadDirectory,
    Unknown,
}

/// The tool of a given name.
pub open spec fn kind_of(name: Seq<char>) -> ToolKind {
    if name == "read_file"@ {
        ToolKind::ReadFile
    } else if name == "write_file"@ {
        ToolKind::WriteFile
    } else if name == "edit_file"@ {
        ToolKind::EditFile
    } else if name == "run_command"@ {
        ToolKind::RunCommand
    } else if name == "glob"@ {
        ToolKind::Glob
    } else if name == "grep"@ {
        ToolKind::Grep
    } else if name == "read_directory"@ {
        ToolKind::ReadDirectory
    } else {
        ToolKind::Unknown
    }
}

/// Each tool answers to its own name and to no other; no other name is a tool's.
pub proof fn law_tools_have_their_names(name: Seq<char>)
    ensures
        kind_of(name) is ReadFile <==> name == "read_file"@,
        kind_of(name) is WriteFile <==> name == "write_file"@,
        kind_of(name) is EditFile <==> name == "edit_file"@,
        kind_of(name) is RunCommand <==> name == "run_command"@,
        kind_of(name) is Glob <==> name == "glob"@,
        kind_of(name) is Grep <==> name == "grep"@,
        kind_of(name) is ReadDirectory <==> name == "read_directory"@,
{
    reveal_strlit("read_file");
    reveal_strlit("write_file");
    reveal_strlit("edit_file");
    reveal_strlit("run_command");
    reveal_strlit("glob");
    reveal_strlit("grep");
    reveal_strlit("read_directory");
    assert("read_file"@.len() == 9 && "write_file"@.len() == 10 && "edit_file"@.len() == 9);
    assert("run_command"@.len() == 11 && "read_directory"@.len() == 14);
    assert("glob"@.len() == 4 && "grep"@.len() == 4);
    assert("read_file"@[0] == 'r' && "edit_file"@[0] == 'e');
    assert("glob"@[1] == 'l' && "grep"@[1] == 'r');
}

/// The tool of a given name.
pub fn tool_kind(name: &str) -> (kind: ToolKind)
    ensures
        kind == kind_of(name@),
{
    if same_text(name, "read_file") {
        ToolKind::ReadFile
    } else if same_text(name, "write_file") {
        ToolKind::WriteFile
    } else if same_text(name, "edit_file") {
        ToolKind::EditFile
    } else if same_text(name, "run_command") {
        ToolKind::RunCommand
    } else if same_text(name, "glob") {
        ToolKind::Glob
    } else if same_text(name, "grep") {
        ToolKind::Grep
    } else if same_text(name, "read_directory") {
        ToolKind::ReadDirectory
    } else {
        ToolKind::Unknown
    }
}

// ---------------------------------------------------------------------------
// Normalized calls
// ---------------------------------------------------------------------------

/// Whether a tool works on the file or directory that its argument `path` names.
pub open spec fn works_on_path(kind: ToolKind) -> bool {
    kind == ToolKind::ReadFile || kind == ToolKind::WriteFile || kind == ToolKind::EditFile || kind
        == ToolKind::ReadDirectory
}

/// `call` with the path it works on made absolute in the directory `dir`.
pub open spec fn normalized(call: ToolCallView, dir: Option<Seq<char>>) -> ToolCallView {
    match text_member(call.arguments, "path"@) {
        Some(path) if works_on_path(kind_of(call.name)) && !is_blank(path) => ToolCallView {
            name: call.name,
            arguments: with_member(
                call.arguments,
                "path"@,
                JsonView::Text(absolute_path(trim(path), dir)),
            ),
        },
        _ => call,
    }
}

/// `calls` with the paths they work on made absolute in the directory `dir`.
pub open spec fn all_normalized(
    calls: Seq<ToolCallView>,
    dir: Option<Seq<char>>,
) -> Seq<ToolCallView> {
    Seq::new(calls.len(), |i: int| normalized(calls[i], dir))
}

/// Makes the path that a call works on absolute in the directory `base`, or without one
/// in the working directory `cwd`.
pub fn normalize_tool_call_in(
    tool_call: &ToolCall,
    base: Option<&str>,
    cwd: Option<&str>,
) -> (normal: ToolCall)
    ensures
        normal@ == normalized(tool_call@, directory(base, cwd)),
{
    let kind: ToolKind = tool_kind(tool_call.function.name.as_str());
    let on_path: bool = kind == ToolKind::ReadFile || kind == ToolKind::WriteFile || kind
        == ToolKind::EditFile || kind == ToolKind::ReadDirectory;
    if !on_path {
        return tool_call.clone();
    }
    match tool_call.function.arguments.get_text("path") {
        Some(path) => {
            if blank(path.as_str()) {
                return tool_call.clone();
            }
            let short = trimmed(path.as_str());
            let whole = absolute_path_in(short.as_str(), base, cwd);
            ToolCall {
                function: ToolCallFunction {
                    name: tool_call.function.name.clone(),
                    arguments: tool_call.function.arguments.replace_member(
                        "path",
                        Json::Text(whole),
                    ),
                },
            }
        },
        None => tool_call.clone(),
    }
}

/// Makes the path that a call works on absolute in the working directory `cwd`.
pub fn normalize_tool_call(tool_call: &ToolCall, cwd: Option<&str>) -> (normal: ToolCall)
    ensures
        normal@ == normalized(tool_call@, directory(None, cwd)),
{
    normalize_tool_call_in(tool_call, None, cwd)
}

/// Makes the paths that calls work on absolute in the directory `base`, or without one
/// in the working directory `cwd`.
pub fn normalize_tool_calls_in(
    tool_calls: &Vec<ToolCall>,
    base: Option<&str>,
    cwd: Option<&str>,
) -> (normal: Vec<ToolCall>)
    ensures
        call_views(normal@) == all_normalized(call_views(tool_calls@), directory(base, cwd)),
{
    let mut normal: Vec<ToolCall> = Vec::new();
    let mut i: usize = 0;
    let ghost all = all_normalized(call_views(tool_calls@), directory(base, cwd));
    while i < tool_calls.len()
        invariant
            i <= tool_calls@.len(),
            all == all_normalized(call_views(tool_calls@), directory(base, cwd)),
            call_views(normal@) == all.take(i as int),
        decreases tool_calls@.len() - i,
    {
        let ghost before = call_views(normal@);
        let call = normalize_tool_call_in(&tool_calls[i], base, cwd);
        let ghost seen = call@;
        normal.push(call);
        assert(call_views(normal@) =~= before.push(seen));
        i = i + 1;
        assert(call_views(normal@) =~= all.take(i as int));
    }
    assert(all.take(tool_calls@.len() as int) =~= all);
    normal
}

/// Makes the paths that calls work on absolute in the working directory `cwd`.
pub fn normalize_tool_calls(
    tool_calls: &Vec<ToolCall>,
    cwd: Option<&str>,
) -> (normal: Vec<ToolCall>)
    ensures
        call_views(normal@) == all_normalized(call_views(tool_calls@), directory(None, cwd)),
{
    normalize_tool_calls_in(tool_calls, None, cwd)
}

/// Normalizing keeps the tool, and of its arguments all but the path.
pub proof fn law_normalizing_keeps_the_rest(
    call: ToolCallView,
    dir: Option<Seq<char>>,
    argument: Seq<char>,
)
    ensures
        normalized(call, dir).name == call.name,
        argument != "path"@ ==> crate::json::member(normalized(call, dir).arguments, argument)
            == crate::json::member(call.arguments, argument),
{
    if let Some(path) = text_member(call.arguments, "path"@) {
        crate::json::law_replaced_member_reads_back(
            call.arguments,
            "path"@,
            JsonView::Text(absolute_path(trim(path), dir)),
            argument,
        );
    }
}

/// A call that was normalized in an absolute directory names an absolute path, and
/// normalizing it again, in that directory or another, changes nothing; where there is no
/// directory, normalizing twice does what it does once.
pub proof fn law_normalizing_is_final(
    call: ToolCallView,
    dir: Option<Seq<char>>,
    second: Option<Seq<char>>,
)
    requires
        match dir {
            Some(base) => crate::paths::absolute(base),
            None => second is None,
        },
    ensures
        normalized(normalized(call, dir), second) == normalized(call, dir),
        dir is Some && works_on_path(kind_of(call.name)) && (text_member(
            call.arguments,
            "path"@,
        ) matches Some(path) && !is_blank(path)) ==> (text_member(
            normalized(call, dir).arguments,
            "path"@,
        ) matches Some(path) && crate::paths::absolute(path)),
{
    match text_member(call.arguments, "path"@) {
        Some(path) if works_on_path(kind_of(call.name)) && !is_blank(path) => {
            let short = trim(path);
            let whole = absolute_path(short, dir);
            let new = JsonView::Text(whole);
            let once = normalized(call, dir);
            crate::text::lemma_trim_bounds(path);
            if let Some(base) = dir {
                crate::paths::law_absolute_path_is_final(short, base, second);
            }
            crate::json::law_replaced_member_reads_back(call.arguments, "path"@, new, "path"@);
            reveal_strlit("/");
            assert(whole.last() == short.last());
            assert(!crate::text::is_white('/'));
            crate::text::lemma_trim_fixed(whole);
            crate::text::lemma_trim_bounds(whole);
            assert(once.arguments == with_member(call.arguments, "path"@, new));
            let members = call.arguments->Object_0;
            let at = crate::json::member_index(members, "path"@);
            let members_once = once.arguments->Object_0;
            crate::json::lemma_member_index(members, "path"@);
            crate::json::lemma_member_index(members_once, "path"@);
            assert(with_member(once.arguments, "path"@, new) == once.arguments) by {
                let at_once = crate::json::member_index(members_once, "path"@);
                assert(members_once[at_once].1 == new);
                assert(members_once.update(at_once, (members_once[at_once].0, new))
                    =~= members_once);
            }
        },
        _ => {},
    }
}

/// The path that a tool works on becomes the path as seen from the directory, without
/// white space around it; a call of another tool, and one without a path, stays as it is.
/// Of several calls each is made absolute by itself and in its place.
pub proof fn law_paths_are_made_absolute(
    calls: Seq<ToolCallView>,
    dir: Option<Seq<char>>,
    i: int,
)
    requires
        0 <= i < calls.len(),
    ensures
        all_normalized(calls, dir).len() == calls.len(),
        ({
            let call = calls[i];
            let normal = all_normalized(calls, dir)[i];
            let path = text_member(call.arguments, "path"@);
            let on_path = call.name == "read_file"@ || call.name == "write_file"@ || call.name
                == "edit_file"@ || call.name == "read_directory"@;
            let changes = on_path && path is Some && !is_blank(path->0);
            &&& normal.name == call.name
            &&& !changes ==> normal.arguments == call.arguments
            &&& changes ==> text_member(normal.arguments, "path"@) == Some(
                match dir {
                    Some(dir) => crate::paths::path_under(dir, trim(path->0)),
                    None => trim(path->0),
                },
            )
            &&& forall|name: Seq<char>|
                name != "path"@ ==> #[trigger] crate::json::member(normal.arguments, name)
                    == crate::json::member(call.arguments, name)
        }),
{
    let call = calls[i];
    law_tools_have_their_names(call.name);
    assert forall|name: Seq<char>| name != "path"@ implies #[trigger] crate::json::member(
        normalized(call, dir).arguments,
        name,
    ) == crate::json::member(call.arguments, name) by {
        law_normalizing_keeps_the_rest(call, dir, name);
    }
    if let Some(path) = text_member(call.arguments, "path"@) {
        crate::json::law_replaced_member_reads_back(
            call.arguments,
            "path"@,
            JsonView::Text(absolute_path(trim(path), dir)),
            "path"@,
        );
    }
}

/// A call that was written down names its tool and holds its arguments.
pub proof fn law_written_call_holds_name_and_arguments(call: ToolCallView)
    ensures
        crate::json::member(call_json(call), "function"@) matches Some(function) && {
            &&& text_member(function, "name"@) == Some(call.name)
            &&& crate::json::member(function, "arguments"@) == Some(call.arguments)
        },
        call_text(call) == json_text(call_json(call)),
{
    let name = ("name"@, JsonView::Text(call.name));
    let arguments = ("arguments"@, call.arguments);
    let none = Seq::<(Seq<char>, JsonView)>::empty();
    reveal_strlit("name");
    reveal_strlit("arguments");
    assert("name"@.len() == 4 && "arguments"@.len() == 9);
    let function = JsonView::Object(seq![name, arguments]);
    assert(seq![name, arguments] =~= none.push(name) + seq![arguments]);
    assert(seq![name, arguments] =~= seq![name].push(arguments) + none);
    crate::json::law_first_member_counts(none, name.0, name.1, seq![arguments], JsonView::Null);
    crate::json::law_first_member_counts(
        seq![name],
        arguments.0,
        arguments.1,
        none,
        JsonView::Null,
    );
    let whole = ("function"@, function);
    assert(seq![whole] =~= none.push(whole) + none);
    crate::json::law_first_member_counts(none, whole.0, whole.1, none, JsonView::Null);
}

// ---------------------------------------------------------------------------
// Descriptions
// ---------------------------------------------------------------------------

/// A text argument as a description shows it, `?` standing for one that is missing.
pub open spec fn shown(arguments: JsonView, name: Seq<char>) -> Seq<char> {
    match text_member(arguments, name) {
        Some(text) => text,
        None => "?"@,
    }
}

/// How a call is put to the user.
pub open spec fn description(call: ToolCallView) -> Seq<char> {
    let args = call.arguments;
    match kind_of(call.name) {
        ToolKind::ReadFile => "Read file: "@ + shown(args, "path"@),
        ToolKind::WriteFile => {
            let content = shown(args, "content"@);
            "Write file: "@ + shown(args, "path"@) + " ("@ + decimal(utf8_len(content))
                + " bytes)\n  "@ + prefix(content, 80) + if utf8_len(content) > 80 {
                "..."@
            } else {
                ""@
            }
        },
        ToolKind::EditFile => "Edit file"@ + (if bool_member(args, "replace_all"@) == Some(true) {
            " (all)"@
        } else {
            ""@
        }) + ": "@ + shown(args, "path"@) + "\n  Replace: "@ + shown(args, "old_string"@)
            + "\n  With:    "@ + shown(args, "new_string"@),
        ToolKind::RunCommand => "Run: "@ + shown(args, "command"@),
        ToolKind::Glob => "Glob: "@ + shown(args, "pattern"@),
        ToolKind::Grep => "Grep: '"@ + shown(args, "pattern"@) + "' in "@ + (if shown(args, "path"@)
            == "?"@ {
            "."@
        } else {
            shown(args, "path"@)
        }),
        ToolKind::ReadDirectory => "List dir: "@ + shown(args, "path"@),
        ToolKind::Unknown => "Tool: "@ + call.name + "("@ + json_text(args) + ")"@,
    }
}

fn show(arguments: &Json, name: &str) -> (text: String)
    ensures
        text@ == shown(arguments@, name@),
{
    match arguments.get_text(name) {
        Some(text) => text,
        None => "?".to_owned(),
    }
}

/// How a call is put to the user.
pub fn tool_call_description(tool_call: &ToolCall) -> (text: String)
    ensures
        text@ == description(tool_call@),
{
    let name: &str = tool_call.function.name.as_str();
    let args: &Json = &tool_call.function.arguments;
    match tool_kind(name) {
        ToolKind::ReadFile => {
            let mut text: String = "Read file: ".to_owned();
            text.push_str(show(args, "path").as_str());
            text
        },
        ToolKind::WriteFile => {
            let content = show(args, "content");
            let size: usize = byte_len(content.as_str());
            let mut text: String = "Write file: ".to_owned();
            text.push_str(show(args, "path").as_str());
            text.push_str(" (");
            text.push_str(decimal_text(size as u128).as_str());
            text.push_str(" bytes)\n  ");
            text.push_str(take_chars(content.as_str(), 80).as_str());
            text.push_str(if size > 80 { "..." } else { "" });
            text
        },
        ToolKind::EditFile => {
            let all: bool = match args.get_bool("replace_all") {
                Some(b) => b,
                None => false,
            };
            let mut text: String = "Edit file".to_owned();
            text.push_str(if all { " (all)" } else { "" });
            text.push_str(": ");
            text.push_str(show(args, "path").as_str());
            text.push_str("\n  Replace: ");
            text.push_str(show(args, "old_string").as_str());
            text.push_str("\n  With:    ");
            text.push_str(show(args, "new_string").as_str());
            text
        },
        ToolKind::RunCommand => {
            let mut text: String = "Run: ".to_owned();
            text.push_str(show(args, "command").as_str());
            text
        },
        ToolKind::Glob => {
            let mut text: String = "Glob: ".to_owned();
            text.push_str(show(args, "pattern").as_str());
            text
        },
        ToolKind::Grep => {
            let path = show(args, "path");
            let mut text: String = "Grep: '".to_owned();
            text.push_str(show(args, "pattern").as_str());
            text.push_str("' in ");
            if same_text(path.as_str(), "?") {
                text.push_str(".");
            } else {
                text.push_str(path.as_str());
            }
            text
        },
        ToolKind::ReadDirectory => {
            let mut text: String = "List dir: ".to_owned();
            text.push_str(show(args, "path").as_str());
            text
        },
        ToolKind::Unknown => {
            let mut text: String = "Tool: ".to_owned();
            text.push_str(name);
            text.push_str("(");
            text.push_str(args.to_text().as_str());
            text.push_str(")");
            text
        },
    }
}

/// What the user is asked about a call shows what it would do: the file or directory it
/// would work on, the command it would run, what it would put in place of what. A text that
/// is missing is shown as a question mark, and a file's content by its size in bytes and
/// its first 80 characters.
pub proof fn law_description_shows_the_call(call: ToolCallView, head: Seq<char>, rest: Seq<char>)
    requires
        head.len() == 80 || (head.len() < 80 && rest.len() == 0),
    ensures
        ({
            let args = call.arguments;
            let text = |name: Seq<char>|
                if text_member(args, name) is Some {
                    text_member(args, name)->0
                } else {
                    "?"@
                };
            &&& call.name == "read_file"@ ==> description(call) == "Read file: "@ + text("path"@)
            &&& call.name == "write_file"@ && text("content"@) == head + rest ==> description(call)
                == "Write file: "@ + text("path"@) + " ("@ + decimal(utf8_len(head + rest))
                + " bytes)\n  "@ + head + (if utf8_len(head + rest) > 80 {
                "..."@
            } else {
                ""@
            })
            &&& call.name == "edit_file"@ ==> description(call) == (if bool_member(
                args,
                "replace_all"@,
            ) == Some(true) {
                "Edit file"@ + " (all)"@ + ": "@
            } else {
                "Edit file"@ + ""@ + ": "@
            }) + text("path"@) + "\n  Replace: "@ + text("old_string"@) + "\n  With:    "@ + text(
                "new_string"@,
            )
            &&& call.name == "run_command"@ ==> description(call) == "Run: "@ + text("command"@)
            &&& call.name == "glob"@ ==> description(call) == "Glob: "@ + text("pattern"@)
            &&& call.name == "grep"@ ==> description(call) == "Grep: '"@ + text("pattern"@)
                + "' in "@ + (if text("path"@) == "?"@ {
                "."@
            } else {
                text("path"@)
            })
            &&& call.name == "read_directory"@ ==> description(call) == "List dir: "@ + text(
                "path"@,
            )
            &&& kind_of(call.name) is Unknown ==> description(call) == "Tool: "@ + call.name + "("@
                + json_text(args) + ")"@
        }),
{
    law_tools_have_their_names(call.name);
    crate::text::law_prefix(head, rest, 80);
    if rest.len() == 0 {
        assert(head + rest =~= head);
    }
}

// ---------------------------------------------------------------------------
// Definitions
// ---------------------------------------------------------------------------

/// A parameter in the schema of a tool.
pub open spec fn property_view(
    name: Seq<char>,
    kind: Seq<char>,
    description: Seq<char>,
) -> (Seq<char>, JsonView) {
    (
        name,
        JsonView::Object(
            seq![
                ("type"@, JsonView::Text(kind)),
                ("description"@, JsonView::Text(description)),
            ],
        ),
    )
}

/// The definition of a tool that takes an object with the given properties.
pub open spec fn definition_view(
    name: Seq<char>,
    description: Seq<char>,
    properties: Seq<(Seq<char>, JsonView)>,
    required: Seq<Seq<char>>,
) -> ToolDefinitionView {
    ToolDefinitionView {
        tool_type: "function"@,
        name,
        description,
        parameters: JsonView::Object(
            seq![
                ("type"@, JsonView::Text("object"@)),
                ("properties"@, JsonView::Object(properties)),
                ("required"@, crate::json::text_array(required)),
            ],
        ),
    }
}

fn property(name: &str, kind: &str, description: &str) -> (member: (String, Json))
    ensures
        (member.0@, member.1@) == property_view(name@, kind@, description@),
{
    let mut members: Vec<(String, Json)> = Vec::new();
    members.push(("type".to_owned(), Json::Text(kind.to_owned())));
    members.push(("description".to_owned(), Json::Text(description.to_owned())));
    let value = Json::Object(members);
    proof {
        crate::json::lemma_compound_view(value);
        assert(value@->Object_0 =~= property_view(name@, kind@, description@).1->Object_0);
    }
    (name.to_owned(), value)
}

fn definition(
    name: &str,
    description: &str,
    properties: Vec<(String, Json)>,
    required: Vec<Json>,
) -> (definition: ToolDefinition)
    ensures
        definition@ == (ToolDefinitionView {
            tool_type: "function"@,
            name: name@,
            description: description@,
            parameters: JsonView::Object(
                seq![
                    ("type"@, JsonView::Text("object"@)),
                    ("properties"@, JsonView::Object(member_views(properties@))),
                    ("required"@, JsonView::Array(json_views(required@))),
                ],
            ),
        }),
{
    let ghost property_seq = member_views(properties@);
    let ghost required_seq = json_views(required@);
    let properties = Json::Object(properties);
    let required = Json::Array(required);
    proof {
        crate::json::lemma_compound_view(properties);
        crate::json::lemma_compound_view(required);
    }
    let mut members: Vec<(String, Json)> = Vec::new();
    members.push(("type".to_owned(), Json::Text("object".to_owned())));
    members.push(("properties".to_owned(), properties));
    members.push(("required".to_owned(), required));
    let parameters = Json::Object(members);
    proof {
        crate::json::lemma_compound_view(parameters);
        assert(parameters@->Object_0 =~= seq![
            ("type"@, JsonView::Text("object"@)),
            ("properties"@, JsonView::Object(property_seq)),
            ("required"@, JsonView::Array(required_seq)),
        ]);
    }
    ToolDefinition {
        tool_type: "function".to_owned(),
        function: ToolFunction {
            name: name.to_owned(),
            description: description.to_owned(),
            parameters,
        },
    }
}

/// The definition of the tool `read_file`.
pub open spec fn read_file_definition() -> ToolDefinitionView {
    definition_view(
        "read_file"@,
        "Read a file with numbered lines. For large files, use offset/limit to read sections. Always read before editing."@,
        seq![
            property_view(
                "path"@,
                "string"@,
                "Path to the file (absolute, or relative to the working directory)"@,
            ),
            property_view(
                "offset"@,
                "integer"@,
                "1-based line number to start reading from (default: 1)"@,
            ),
            property_view(
                "limit"@,
                "integer"@,
                "Maximum number of lines to read (default: 2000)"@,
            ),
        ],
        seq!["path"@],
    )
}

fn define_read_file() -> (definition: ToolDefinition)
    ensures
        definition@ == read_file_definition(),
{
    let mut properties: Vec<(String, Json)> = Vec::new();
    properties.push(property(
        "path",
        "string",
        "Path to the file (absolute, or relative to the working directory)",
    ));
    properties.push(property(
        "offset",
        "integer",
        "1-based line number to start reading from (default: 1)",
    ));
    properties.push(property(
        "limit",
        "integer",
        "Maximum number of lines to read (default: 2000)",
    ));
    let mut required: Vec<Json> = Vec::new();
    required.push(Json::Text("path".to_owned()));
    proof {
        let expected = read_file_definition();
        assert(member_views(properties@) =~= expected.parameters->Object_0[1].1->Object_0);
        assert(json_views(required@) =~= expected.parameters->Object_0[2].1->Array_0);
    }
    definition("read_file", "Read a file with numbered lines. For large files, use offset/limit to read sections. Always read before editing.", properties, required)
}

/// The definition of the tool `write_file`.
pub open spec fn write_file_definition() -> ToolDefinitionView {
    definition_view(
        "write_file"@,
        "Write content to a file, overwriting it and creating parent directories. Use for new files or complete rewrites only; prefer edit_file for targeted changes."@,
        seq![
            property_view(
                "path"@,
                "string"@,
                "Path to the file (absolute, or relative to the working directory)"@,
            ),
            property_view(
                "content"@,
                "string"@,
                "Content to write"@,
            ),
        ],
        seq!["path"@, "content"@],
    )
}

fn define_write_file() -> (definition: ToolDefinition)
    ensures
        definition@ == write_file_definition(),
{
    let mut properties: Vec<(String, Json)> = Vec::new();
    properties.push(property(
        "path",
        "string",
        "Path to the file (absolute, or relative to the working directory)",
    ));
    properties.push(property(
        "content",
        "string",
        "Content to write",
    ));
    let mut required: Vec<Json> = Vec::new();
    required.push(Json::Text("path".to_owned()));
    required.push(Json::Text("content".to_owned()));
    proof {
        let expected = write_file_definition();
        assert(member_views(properties@) =~= expected.parameters->Object_0[1].1->Object_0);
        assert(json_views(required@) =~= expected.parameters->Object_0[2].1->Array_0);
    }
    definition("write_file", "Write content to a file, overwriting it and creating parent directories. Use for new files or complete rewrites only; prefer edit_file for targeted changes.", properties, required)
}

/// The definition of the tool `edit_file`.
pub open spec fn edit_file_definition() -> ToolDefinitionView {
    definition_view(
        "edit_file"@,
        "Replace an exact unique text match in a file. old_string must appear exactly once unless replace_all is true; include surrounding lines to make it unique."@,
        seq![
            property_view(
                "path"@,
                "string"@,
                "Path to the file (absolute, or relative to the working directory)"@,
            ),
            property_view(
                "old_string"@,
                "string"@,
                "Text to search for (exact match, must be unique in the file)"@,
            ),
            property_view(
                "new_string"@,
                "string"@,
                "Replacement text"@,
            ),
            property_view(
                "replace_all"@,
                "boolean"@,
                "Replace every occurrence instead of failing on multiple matches (default: false)"@,
            ),
        ],
        seq!["path"@, "old_string"@, "new_string"@],
    )
}

fn define_edit_file() -> (definition: ToolDefinition)
    ensures
        definition@ == edit_file_definition(),
{
    let mut properties: Vec<(String, Json)> = Vec::new();
    properties.push(property(
        "path",
        "string",
        "Path to the file (absolute, or relative to the working directory)",
    ));
    properties.push(property(
        "old_string",
        "string",
        "Text to search for (exact match, must be unique in the file)",
    ));
    properties.push(property(
        "new_string",
        "string",
        "Replacement text",
    ));
    properties.push(property(
        "replace_all",
        "boolean",
        "Replace every occurrence instead of failing on multiple matches (default: false)",
    ));
    let mut required: Vec<Json> = Vec::new();
    required.push(Json::Text("path".to_owned()));
    required.push(Json::Text("old_string".to_owned()));
    required.push(Json::Text("new_string".to_owned()));
    proof {
        let expected = edit_file_definition();
        assert(member_views(properties@) =~= expected.parameters->Object_0[1].1->Object_0);
        assert(json_views(required@) =~= expected.parameters->Object_0[2].1->Array_0);
    }
    definition("edit_file", "Replace an exact unique text match in a file. old_string must appear exactly once unless replace_all is true; include surrounding lines to make it unique.", properties, required)
}

/// The definition of the tool `run_command`.
pub open spec fn run_command_definition() -> ToolDefinitionView {
    definition_view(
        "run_command"@,
        "Run a shell command via `sh -c` and capture stdout/stderr plus the exit code. Use for builds, tests, git, and other verification. Times out if a command hangs."@,
        seq![
            property_view(
                "command"@,
                "string"@,
                "Shell command to execute"@,
            ),
            property_view(
                "timeout_secs"@,
                "integer"@,
                "Timeout in seconds (default 120, max 600)"@,
            ),
        ],
        seq!["command"@],
    )
}

fn define_run_command() -> (definition: ToolDefinition)
    ensures
        definition@ == run_command_definition(),
{
    let mut properties: Vec<(String, Json)> = Vec::new();
    properties.push(property(
        "command",
        "string",
        "Shell command to execute",
    ));
    properties.push(property(
        "timeout_secs",
        "integer",
        "Timeout in seconds (default 120, max 600)",
    ));
    let mut required: Vec<Json> = Vec::new();
    required.push(Json::Text("command".to_owned()));
    proof {
        let expected = run_command_definition();
        assert(member_views(properties@) =~= expected.parameters->Object_0[1].1->Object_0);
        assert(json_views(required@) =~= expected.parameters->Object_0[2].1->Array_0);
    }
    definition("run_command", "Run a shell command via `sh -c` and capture stdout/stderr plus the exit code. Use for builds, tests, git, and other verification. Times out if a command hangs.", properties, required)
}

/// The definition of the tool `glob`.
pub open spec fn glob_definition() -> ToolDefinitionView {
    definition_view(
        "glob"@,
        "Find files matching a glob pattern, sorted by modification time (newest first). Pattern like '**/*.rs'."@,
        seq![
            property_view(
                "pattern"@,
                "string"@,
                "Glob pattern (e.g. 'src/**/*.rs')"@,
            ),
            property_view(
                "path"@,
                "string"@,
                "Base directory to search from (default: working directory)"@,
            ),
        ],
        seq!["pattern"@],
    )
}

fn define_glob() -> (definition: ToolDefinition)
    ensures
        definition@ == glob_definition(),
{
    let mut properties: Vec<(String, Json)> = Vec::new();
    properties.push(property(
        "pattern",
        "string",
        "Glob pattern (e.g. 'src/**/*.rs')",
    ));
    properties.push(property(
        "path",
        "string",
        "Base directory to search from (default: working directory)",
    ));
    let mut required: Vec<Json> = Vec::new();
    required.push(Json::Text("pattern".to_owned()));
    proof {
        let expected = glob_definition();
        assert(member_views(properties@) =~= expected.parameters->Object_0[1].1->Object_0);
        assert(json_views(required@) =~= expected.parameters->Object_0[2].1->Array_0);
    }
    definition("glob", "Find files matching a glob pattern, sorted by modification time (newest first). Pattern like '**/*.rs'.", properties, required)
}

/// The definition of the tool `grep`.
pub open spec fn grep_definition() -> ToolDefinitionView {
    definition_view(
        "grep"@,
        "Search file contents with a regex. Uses ripgrep if available, falls back to grep. Returns file:line:match rows."@,
        seq![
            property_view(
                "pattern"@,
                "string"@,
                "Regex pattern to search"@,
            ),
            property_view(
                "path"@,
                "string"@,
                "Directory or file to search (default: working directory)"@,
            ),
            property_view(
                "include"@,
                "string"@,
                "Glob filter for files to search (e.g. '*.rs')"@,
            ),
        ],
        seq!["pattern"@],
    )
}

fn define_grep() -> (definition: ToolDefinition)
    ensures
        definition@ == grep_definition(),
{
    let mut properties: Vec<(String, Json)> = Vec::new();
    properties.push(property(
        "pattern",
        "string",
        "Regex pattern to search",
    ));
    properties.push(property(
        "path",
        "string",
        "Directory or file to search (default: working directory)",
    ));
    properties.push(property(
        "include",
        "string",
        "Glob filter for files to search (e.g. '*.rs')",
    ));
    let mut required: Vec<Json> = Vec::new();
    required.push(Json::Text("pattern".to_owned()));
    proof {
        let expected = grep_definition();
        assert(member_views(properties@) =~= expected.parameters->Object_0[1].1->Object_0);
        assert(json_views(required@) =~= expected.parameters->Object_0[2].1->Array_0);
    }
    definition("grep", "Search file contents with a regex. Uses ripgrep if available, falls back to grep. Returns file:line:match rows.", properties, required)
}

/// The definition of the tool `read_directory`.
pub open spec fn read_directory_definition() -> ToolDefinitionView {
    definition_view(
        "read_directory"@,
        "List a directory's entries; directories get a trailing slash."@,
        seq![
            property_view(
                "path"@,
                "string"@,
                "Path to the directory (absolute, or relative to the working directory)"@,
            ),
        ],
        seq!["path"@],
    )
}

fn define_read_directory() -> (definition: ToolDefinition)
    ensures
        definition@ == read_directory_definition(),
{
    let mut properties: Vec<(String, Json)> = Vec::new();
    properties.push(property(
        "path",
        "string",
        "Path to the directory (absolute, or relative to the working directory)",
    ));
    let mut required: Vec<Json> = Vec::new();
    required.push(Json::Text("path".to_owned()));
    proof {
        let expected = read_directory_definition();
        assert(member_views(properties@) =~= expected.parameters->Object_0[1].1->Object_0);
        assert(json_views(required@) =~= expected.parameters->Object_0[2].1->Array_0);
    }
    definition("read_directory", "List a directory's entries; directories get a trailing slash.", properties, required)
}

/// The tools that a model may call.
pub open spec fn tool_definitions() -> Seq<ToolDefinitionView> {
    seq![
        read_file_definition(),
        write_file_definition(),
        edit_file_definition(),
        run_command_definition(),
        glob_definition(),
        grep_definition(),
        read_directory_definition(),
    ]
}

/// Exactly the tools that there are are offered to a model, each once and as a function
/// whose parameters are an object.
pub proof fn law_every_tool_is_offered(name: Seq<char>, i: int, j: int)
    requires
        0 <= i < 7,
        0 <= j < 7,
    ensures
        tool_definitions().len() == 7,
        (exists|k: int| 0 <= k < 7 && (#[trigger] tool_definitions()[k]).name == name)
            <==> !(kind_of(name) is Unknown),
        tool_definitions()[i].name == tool_definitions()[j].name ==> i == j,
        tool_definitions()[i].tool_type == "function"@,
        text_member(tool_definitions()[i].parameters, "type"@) == Some("object"@),
{
    let list = tool_definitions();
    law_tools_have_their_names(name);
    law_tools_have_their_names(list[i].name);
    law_tools_have_their_names(list[j].name);
    assert(list[0].name == "read_file"@ && list[1].name == "write_file"@ && list[2].name
        == "edit_file"@ && list[3].name == "run_command"@);
    assert(list[4].name == "glob"@ && list[5].name == "grep"@ && list[6].name
        == "read_directory"@);
    let members = list[i].parameters->Object_0;
    let none = Seq::<(Seq<char>, JsonView)>::empty();
    assert(members =~= none.push(members[0]) + members.skip(1));
    crate::json::law_first_member_counts(
        none,
        "type"@,
        members[0].1,
        members.skip(1),
        JsonView::Null,
    );
}

/// The type of a parameter in the schema of a tool, where it has such a parameter.
pub open spec fn parameter_type(tool: ToolDefinitionView, name: Seq<char>) -> Option<Seq<char>> {
    match crate::json::member(tool.parameters, "properties"@) {
        Some(properties) => match crate::json::member(properties, name) {
            Some(property) => text_member(property, "type"@),
            None => None,
        },
        None => None,
    }
}

/// The schema of a tool holds its properties, and which of them it requires.
proof fn lemma_schema(tool: ToolDefinitionView, members: Seq<(Seq<char>, JsonView)>)
    requires
        tool.parameters == JsonView::Object(members),
        members.len() == 3,
        members[0].0 == "type"@,
        members[1].0 == "properties"@,
        members[2].0 == "required"@,
    ensures
        crate::json::member(tool.parameters, "properties"@) == Some(members[1].1),
        crate::json::member(tool.parameters, "required"@) == Some(members[2].1),
{
    reveal_strlit("type");
    reveal_strlit("properties");
    reveal_strlit("required");
    assert("type"@.len() == 4 && "properties"@.len() == 10 && "required"@.len() == 8);
    let none = Seq::<(Seq<char>, JsonView)>::empty();
    let one = seq![members[0]];
    let two = seq![members[0], members[1]];
    assert(members =~= one.push(members[1]) + seq![members[2]]);
    assert(members =~= two.push(members[2]) + none);
    crate::json::law_first_member_counts(
        one,
        "properties"@,
        members[1].1,
        seq![members[2]],
        JsonView::Null,
    );
    crate::json::law_first_member_counts(two, "required"@, members[2].1, none, JsonView::Null);
}

/// A property of a tool is found by its name, with its type.
proof fn lemma_parameter(
    tool: ToolDefinitionView,
    properties: Seq<(Seq<char>, JsonView)>,
    k: int,
    kind: Seq<char>,
    about: Seq<char>,
)
    requires
        crate::json::member(tool.parameters, "properties"@) == Some(JsonView::Object(properties)),
        0 <= k < properties.len(),
        properties[k] == property_view(properties[k].0, kind, about),
        forall|i: int| 0 <= i < k ==> (#[trigger] properties[i]).0 != properties[k].0,
    ensures
        parameter_type(tool, properties[k].0) == Some(kind),
{
    let property = properties[k];
    let front = properties.take(k);
    assert(properties =~= front.push(property) + properties.skip(k + 1));
    assert forall|i: int| 0 <= i < front.len() implies (#[trigger] front[i]).0 != property.0 by {
        assert(front[i] == properties[i]);
    }
    crate::json::law_first_member_counts(
        front,
        property.0,
        property.1,
        properties.skip(k + 1),
        JsonView::Null,
    );
    let parts = property.1->Object_0;
    let none = Seq::<(Seq<char>, JsonView)>::empty();
    assert(parts =~= none.push(parts[0]) + parts.skip(1));
    crate::json::law_first_member_counts(
        none,
        "type"@,
        parts[0].1,
        parts.skip(1),
        JsonView::Null,
    );
}

/// The properties in the schema of the tool with number `i`.
spec fn properties_of(i: int) -> Seq<(Seq<char>, JsonView)> {
    tool_definitions()[i].parameters->Object_0[1].1->Object_0
}

/// How the property with number `k` of the tool with number `i` is described.
spec fn about_property(i: int, k: int) -> Seq<char> {
    properties_of(i)[k].1->Object_0[1].1->Text_0
}

/// The arguments that a model is told a tool requires are the ones without which a call of
/// it is refused.
pub proof fn law_required_arguments_are_told()
    ensures
        ({
            let required = |tool: ToolDefinitionView| crate::json::member(
                tool.parameters,
                "required"@,
            );
            let told = |names: Seq<Seq<char>>| Some(crate::json::text_array(names));
            &&& required(tool_definitions()[0]) == told(seq!["path"@])
            &&& required(tool_definitions()[1]) == told(seq!["path"@, "content"@])
            &&& required(tool_definitions()[2]) == told(
                seq!["path"@, "old_string"@, "new_string"@],
            )
            &&& required(tool_definitions()[3]) == told(seq!["command"@])
            &&& required(tool_definitions()[4]) == told(seq!["pattern"@])
            &&& required(tool_definitions()[5]) == told(seq!["pattern"@])
            &&& required(tool_definitions()[6]) == told(seq!["path"@])
        }),
{
    let all = tool_definitions();
    assert(all[0] == read_file_definition() && all[1] == write_file_definition() && all[2]
        == edit_file_definition() && all[3] == run_command_definition());
    assert(all[4] == glob_definition() && all[5] == grep_definition() && all[6]
        == read_directory_definition());
    lemma_schema(all[0], all[0].parameters->Object_0);
    lemma_schema(all[1], all[1].parameters->Object_0);
    lemma_schema(all[2], all[2].parameters->Object_0);
    lemma_schema(all[3], all[3].parameters->Object_0);
    lemma_schema(all[4], all[4].parameters->Object_0);
    lemma_schema(all[5], all[5].parameters->Object_0);
    lemma_schema(all[6], all[6].parameters->Object_0);
}

/// Every argument that a tool for files reads is one that a model is told of, with the type
/// that it is read as.
pub proof fn law_arguments_of_file_tools_are_told()
    ensures
        ({
            let read = tool_definitions()[0];
            let write = tool_definitions()[1];
            let edit = tool_definitions()[2];
            let list = tool_definitions()[6];
            &&& parameter_type(read, "path"@) == Some("string"@)
            &&& parameter_type(read, "offset"@) == Some("integer"@)
            &&& parameter_type(read, "limit"@) == Some("integer"@)
            &&& parameter_type(write, "path"@) == Some("string"@)
            &&& parameter_type(write, "content"@) == Some("string"@)
            &&& parameter_type(edit, "path"@) == Some("string"@)
            &&& parameter_type(edit, "old_string"@) == Some("string"@)
            &&& parameter_type(edit, "new_string"@) == Some("string"@)
            &&& parameter_type(edit, "replace_all"@) == Some("boolean"@)
            &&& parameter_type(list, "path"@) == Some("string"@)
        }),
{
    let all = tool_definitions();
    reveal_strlit("path");
    reveal_strlit("offset");
    reveal_strlit("limit");
    reveal_strlit("content");
    reveal_strlit("old_string");
    reveal_strlit("new_string");
    reveal_strlit("replace_all");
    assert("path"@.len() == 4 && "offset"@.len() == 6 && "limit"@.len() == 5 && "content"@.len()
        == 7);
    assert("old_string"@.len() == 10 && "new_string"@.len() == 10 && "replace_all"@.len() == 11);
    assert("old_string"@[0] == 'o' && "new_string"@[0] == 'n');
    lemma_schema(all[0], all[0].parameters->Object_0);
    lemma_parameter(all[0], properties_of(0), 0, "string"@, about_property(0, 0));
    lemma_parameter(all[0], properties_of(0), 1, "integer"@, about_property(0, 1));
    lemma_parameter(all[0], properties_of(0), 2, "integer"@, about_property(0, 2));
    lemma_schema(all[1], all[1].parameters->Object_0);
    lemma_parameter(all[1], properties_of(1), 0, "string"@, about_property(1, 0));
    lemma_parameter(all[1], properties_of(1), 1, "string"@, about_property(1, 1));
    lemma_schema(all[2], all[2].parameters->Object_0);
    lemma_parameter(all[2], properties_of(2), 0, "string"@, about_property(2, 0));
    lemma_parameter(all[2], properties_of(2), 1, "string"@, about_property(2, 1));
    lemma_parameter(all[2], properties_of(2), 2, "string"@, about_property(2, 2));
    lemma_parameter(all[2], properties_of(2), 3, "boolean"@, about_property(2, 3));
    lemma_schema(all[6], all[6].parameters->Object_0);
    lemma_parameter(all[6], properties_of(6), 0, "string"@, about_property(6, 0));
}

/// Every argument that a tool for commands and searches reads is one that a model is told
/// of, with the type that it is read as.
pub proof fn law_arguments_of_other_tools_are_told()
    ensures
        ({
            let run = tool_definitions()[3];
            let glob = tool_definitions()[4];
            let grep = tool_definitions()[5];
            &&& parameter_type(run, "command"@) == Some("string"@)
            &&& parameter_type(run, "timeout_secs"@) == Some("integer"@)
            &&& parameter_type(glob, "pattern"@) == Some("string"@)
            &&& parameter_type(glob, "path"@) == Some("string"@)
            &&& parameter_type(grep, "pattern"@) == Some("string"@)
            &&& parameter_type(grep, "path"@) == Some("string"@)
            &&& parameter_type(grep, "include"@) == Some("string"@)
        }),
{
    let all = tool_definitions();
    reveal_strlit("command");
    reveal_strlit("timeout_secs");
    reveal_strlit("pattern");
    reveal_strlit("path");
    reveal_strlit("include");
    assert("command"@.len() == 7 && "timeout_secs"@.len() == 12 && "pattern"@.len() == 7);
    assert("path"@.len() == 4 && "include"@.len() == 7);
    assert("pattern"@[0] == 'p' && "include"@[0] == 'i');
    lemma_schema(all[3], all[3].parameters->Object_0);
    lemma_parameter(all[3], properties_of(3), 0, "string"@, about_property(3, 0));
    lemma_parameter(all[3], properties_of(3), 1, "integer"@, about_property(3, 1));
    lemma_schema(all[4], all[4].parameters->Object_0);
    lemma_parameter(all[4], properties_of(4), 0, "string"@, about_property(4, 0));
    lemma_parameter(all[4], properties_of(4), 1, "string"@, about_property(4, 1));
    lemma_schema(all[5], all[5].parameters->Object_0);
    lemma_parameter(all[5], properties_of(5), 0, "string"@, about_property(5, 0));
    lemma_parameter(all[5], properties_of(5), 1, "string"@, about_property(5, 1));
    lemma_parameter(all[5], properties_of(5), 2, "string"@, about_property(5, 2));
}

/// The tools that a model may call.
pub fn get_tool_definitions() -> (definitions: Vec<ToolDefinition>)
    ensures
        definition_views(definitions@) == tool_definitions(),
{
    let mut definitions: Vec<ToolDefinition> = Vec::new();
    definitions.push(define_read_file());
    definitions.push(define_write_file());
    definitions.push(define_edit_file());
    definitions.push(define_run_command());
    definitions.push(define_glob());
    definitions.push(define_grep());
    definitions.push(define_read_directory());
    assert(definition_views(definitions@) =~= tool_definitions());
    definitions
}

} // verus!
