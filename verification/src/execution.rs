//! Running a tool call. What a tool does to the outside world is handed out as an
//! action; what came of it comes back as an event, which leads to the next step.

use vstd::prelude::*;

use crate::json::{bool_member, text_member, u64_member, Json, JsonView};
use crate::lines::{joined, lines};
use crate::number::{decimal, decimal_text, signed_decimal};
use crate::output::{
    both_streams, command_report, directory_report, file_report, glob_report, grep_report,
    law_asked_lines_are_reported, law_report_holds_both_streams,
    law_stopped_report_holds_both_streams, numbered, report_command, report_directory, report_file,
    report_glob, report_grep, report_timeout, timeout_report, truncated, DirectoryEntry,
    DirectoryEntryView, GlobMatch, GlobMatchView,
};
use crate::paths::{
    absolute, absolute_path, absolute_path_in, directory, is_absolute, parent, parent_of, path_under,
};
use crate::replace::{
    between_matches, count, law_empty_pattern_replaced, law_replaced, law_text_splits_at_matches,
    occurrences, replaced, replaced_first, substitute,
};
use crate::sorting::item_views;
use crate::text::{
    byte_len, chars_of, find_from, is_blank, option_view, same_text, string_of, trim, utf8_len, views,
};
use crate::tools::{kind_of, law_tools_have_their_names, tool_kind, ToolCall, ToolCallView, ToolKind};

verus! {

/// Something that a tool wants done, with texts of type `S` and lists of them of type `L`.
#[derive(Debug)]
pub enum ActionOf<S, L> {
    /// Read a text file.
    ReadFile { path: S },
    /// Create a directory with all directories above it.
    CreateDirectory { path: S },
    /// Write a file.
    WriteFile { path: S, content: S },
    /// Start a shell command, and begin to collect what it writes.
    Spawn { command: S, directory: Option<S> },
    /// See whether the command has ended.
    Poll,
    /// Wait a moment.
    Pause,
    /// Stop the command and hand over what it wrote.
    Kill,
    /// Hand over what the command wrote.
    Collect,
    /// Find the files that match a pattern.
    FindFiles { pattern: S },
    /// Run a program to its end.
    Run { program: S, arguments: L },
    /// List the entries of a directory.
    ListDirectory { path: S },
}

/// Something that a tool wants done.
pub type ToolAction = ActionOf<String, Vec<String>>;

/// What a [`ToolAction`] stands for.
pub type ToolActionView = ActionOf<Seq<char>, Seq<Seq<char>>>;

/// What is left of a tool call while an action is under way.
#[derive(Debug)]
pub enum TaskOf<S> {
    Reading { offset: u64, limit: u64 },
    MakingParent { path: S, content: S },
    Writing { path: S, size: u64 },
    ReadingToEdit { path: S, old: S, new: S, all: bool },
    WritingEdit { path: S, replaced: u128 },
    Spawning { timeout: u64 },
    Polling { timeout: u64 },
    Pausing { timeout: u64 },
    Killing { timeout: u64 },
    Collecting { code: Option<i32> },
    FindingFiles,
    Searching { pattern: S, path: S, filter: Option<S> },
    SearchingAgain,
    Listing,
}

/// What is left of a tool call while an action is under way.
pub type ToolTask = TaskOf<String>;

/// What a [`ToolTask`] stands for.
pub type ToolTaskView = TaskOf<Seq<char>>;

/// What came of an action, with texts of type `S`, files of type `M` and directory
/// entries of type `E`.
#[derive(Debug)]
pub enum EventOf<S, M, E> {
    /// It was done.
    Done,
    /// It failed, for the given reason.
    Failed { reason: S },
    /// The content of the file.
    Content { text: S },
    /// The command has not ended, this many whole seconds after its start.
    Running { elapsed_secs: u64 },
    /// The command has ended.
    Exited { code: Option<i32> },
    /// What the command wrote, and how many seconds it took.
    Output { stdout: S, stderr: S, elapsed: S },
    /// The files that match.
    Found { files: M },
    /// What the program wrote, and how it ended.
    Ran { success: bool, code: Option<i32>, stdout: S },
    /// The entries of the directory.
    Entries { entries: E },
}

/// What came of an action.
pub type ToolEvent = EventOf<String, Vec<GlobMatch>, Vec<DirectoryEntry>>;

/// What a [`ToolEvent`] stands for.
pub type ToolEventView = EventOf<Seq<char>, Seq<GlobMatchView>, Seq<DirectoryEntryView>>;

/// Where a tool call stands.
#[derive(Debug)]
pub enum ToolStep {
    /// It came to its end, with a report or with an error.
    Finished(Result<String, String>),
    /// An action is wanted before it can go on.
    Perform(ToolAction, ToolTask),
}

/// What a [`ToolStep`] stands for.
pub enum ToolStepView {
    Finished(Result<Seq<char>, Seq<char>>),
    Perform(ToolActionView, ToolTaskView),
}

impl View for ActionOf<String, Vec<String>> {
    type V = ToolActionView;

    open spec fn view(&self) -> ToolActionView {
        match *self {
            ActionOf::ReadFile { path } => ActionOf::ReadFile { path: path@ },
            ActionOf::CreateDirectory { path } => ActionOf::CreateDirectory { path: path@ },
            ActionOf::WriteFile { path, content } => ActionOf::WriteFile {
                path: path@,
                content: content@,
            },
            ActionOf::Spawn { command, directory } => ActionOf::Spawn {
                command: command@,
                directory: option_view(directory),
            },
            ActionOf::Poll => ActionOf::Poll,
            ActionOf::Pause => ActionOf::Pause,
            ActionOf::Kill => ActionOf::Kill,
            ActionOf::Collect => ActionOf::Collect,
            ActionOf::FindFiles { pattern } => ActionOf::FindFiles { pattern: pattern@ },
            ActionOf::Run { program, arguments } => ActionOf::Run {
                program: program@,
                arguments: views(arguments@),
            },
            ActionOf::ListDirectory { path } => ActionOf::ListDirectory { path: path@ },
        }
    }
}

impl View for TaskOf<String> {
    type V = ToolTaskView;

    open spec fn view(&self) -> ToolTaskView {
        match *self {
            TaskOf::Reading { offset, limit } => TaskOf::Reading { offset, limit },
            TaskOf::MakingParent { path, content } => TaskOf::MakingParent {
                path: path@,
                content: content@,
            },
            TaskOf::Writing { path, size } => TaskOf::Writing { path: path@, size },
            TaskOf::ReadingToEdit { path, old, new, all } => TaskOf::ReadingToEdit {
                path: path@,
                old: old@,
                new: new@,
                all,
            },
            TaskOf::WritingEdit { path, replaced } => TaskOf::WritingEdit { path: path@, replaced },
            TaskOf::Spawning { timeout } => TaskOf::Spawning { timeout },
            TaskOf::Polling { timeout } => TaskOf::Polling { timeout },
            TaskOf::Pausing { timeout } => TaskOf::Pausing { timeout },
            TaskOf::Killing { timeout } => TaskOf::Killing { timeout },
            TaskOf::Collecting { code } => TaskOf::Collecting { code },
            TaskOf::FindingFiles => TaskOf::FindingFiles,
            TaskOf::Searching { pattern, path, filter } => TaskOf::Searching {
                pattern: pattern@,
                path: path@,
                filter: option_view(filter),
            },
            TaskOf::SearchingAgain => TaskOf::SearchingAgain,
            TaskOf::Listing => TaskOf::Listing,
        }
    }
}

impl View for EventOf<String, Vec<GlobMatch>, Vec<DirectoryEntry>> {
    type V = ToolEventView;

    open spec fn view(&self) -> ToolEventView {
        match *self {
            EventOf::Done => EventOf::Done,
            EventOf::Failed { reason } => EventOf::Failed { reason: reason@ },
            EventOf::Content { text } => EventOf::Content { text: text@ },
            EventOf::Running { elapsed_secs } => EventOf::Running { elapsed_secs },
            EventOf::Exited { code } => EventOf::Exited { code },
            EventOf::Output { stdout, stderr, elapsed } => EventOf::Output {
                stdout: stdout@,
                stderr: stderr@,
                elapsed: elapsed@,
            },
            EventOf::Found { files } => EventOf::Found { files: item_views(files@) },
            EventOf::Ran { success, code, stdout } => EventOf::Ran {
                success,
                code,
                stdout: stdout@,
            },
            EventOf::Entries { entries } => EventOf::Entries { entries: item_views(entries@) },
        }
    }
}

impl View for ToolStep {
    type V = ToolStepView;

    open spec fn view(&self) -> ToolStepView {
        match *self {
            ToolStep::Finished(Ok(report)) => ToolStepView::Finished(Ok(report@)),
            ToolStep::Finished(Err(error)) => ToolStepView::Finished(Err(error@)),
            ToolStep::Perform(action, task) => ToolStepView::Perform(action@, task@),
        }
    }
}

// ---------------------------------------------------------------------------
// The first step
// ---------------------------------------------------------------------------

/// How many lines come before the first that is read.
pub open spec fn lines_skipped(arguments: JsonView) -> u64 {
    match u64_member(arguments, "offset"@) {
        Some(n) if n > 0 => (n - 1) as u64,
        _ => 0,
    }
}

/// How many lines are read at most.
pub open spec fn lines_wanted(arguments: JsonView) -> u64 {
    match u64_member(arguments, "limit"@) {
        Some(n) => if n > 0 {
            n
        } else {
            1
        },
        None => 2000,
    }
}

/// After how many seconds a command is stopped: between 1 and 600.
pub open spec fn command_timeout(arguments: JsonView) -> u64 {
    match u64_member(arguments, "timeout_secs"@) {
        Some(n) => if n < 1 {
            1
        } else if n > 600 {
            600
        } else {
            n
        },
        None => 120,
    }
}

/// `path` without the slashes at its end.
pub open spec fn without_slashes(path: Seq<char>) -> Seq<char>
    decreases path.len(),
{
    if path.len() > 0 && path.last() == '/' {
        without_slashes(path.drop_last())
    } else {
        path
    }
}

/// The directory that is searched.
pub open spec fn search_root(arguments: JsonView, dir: Option<Seq<char>>) -> Seq<char> {
    match text_member(arguments, "path"@) {
        Some(path) => absolute_path(path, dir),
        None => match dir {
            Some(dir) => dir,
            None => "."@,
        },
    }
}

/// `pattern` as seen from the directory `root`.
pub open spec fn rooted_pattern(pattern: Seq<char>, root: Seq<char>) -> Seq<char> {
    if absolute(pattern) {
        pattern
    } else {
        without_slashes(root) + "/"@ + pattern
    }
}

/// The arguments of the first search in files.
pub open spec fn search_arguments(
    pattern: Seq<char>,
    path: Seq<char>,
    filter: Option<Seq<char>>,
) -> Seq<Seq<char>> {
    match filter {
        Some(filter) => seq!["-n"@, "--no-heading"@, pattern, path, "-g"@, filter],
        None => seq!["-n"@, "--no-heading"@, pattern, path],
    }
}

/// The arguments of the second search in files.
pub open spec fn fallback_arguments(
    pattern: Seq<char>,
    path: Seq<char>,
    filter: Option<Seq<char>>,
) -> Seq<Seq<char>> {
    match filter {
        Some(filter) => seq!["-rn"@, "--include="@ + filter, pattern, path],
        None => seq!["-rn"@, pattern, path],
    }
}

/// The step that reports an error.
pub open spec fn failed(error: Seq<char>) -> ToolStepView {
    ToolStepView::Finished(Err(error))
}

/// The step that reports success.
pub open spec fn succeeded(report: Seq<char>) -> ToolStepView {
    ToolStepView::Finished(Ok(report))
}

/// How reading a file begins.
pub open spec fn read_begins(arguments: JsonView) -> ToolStepView {
    match text_member(arguments, "path"@) {
        Some(path) => ToolStepView::Perform(
            ActionOf::ReadFile { path },
            TaskOf::Reading { offset: lines_skipped(arguments), limit: lines_wanted(arguments) },
        ),
        None => failed("missing path"@),
    }
}

/// The step that writes a file.
pub open spec fn write_goes_on(path: Seq<char>, content: Seq<char>) -> ToolStepView {
    ToolStepView::Perform(
        ActionOf::WriteFile { path, content },
        TaskOf::Writing { path, size: utf8_len(content) as u64 },
    )
}

/// How writing a file begins.
pub open spec fn write_begins(arguments: JsonView) -> ToolStepView {
    match text_member(arguments, "path"@) {
        Some(path) => match text_member(arguments, "content"@) {
            Some(content) => match parent(path) {
                Some(dir) => ToolStepView::Perform(
                    ActionOf::CreateDirectory { path: dir },
                    TaskOf::MakingParent { path, content },
                ),
                None => write_goes_on(path, content),
            },
            None => failed("missing content"@),
        },
        None => failed("missing path"@),
    }
}

/// How editing a file begins.
pub open spec fn edit_begins(arguments: JsonView) -> ToolStepView {
    match text_member(arguments, "path"@) {
        Some(path) => match text_member(arguments, "old_string"@) {
            Some(old) => match text_member(arguments, "new_string"@) {
                Some(new) => if old == new {
                    failed("old_string and new_string are identical; nothing to change"@)
                } else {
                    ToolStepView::Perform(
                        ActionOf::ReadFile { path },
                        TaskOf::ReadingToEdit {
                            path,
                            old,
                            new,
                            all: bool_member(arguments, "replace_all"@) == Some(true),
                        },
                    )
                },
                None => failed("missing new_string"@),
            },
            None => failed("missing old_string"@),
        },
        None => failed("missing path"@),
    }
}

/// How running a command begins.
pub open spec fn command_begins(arguments: JsonView, base: Option<Seq<char>>) -> ToolStepView {
    match text_member(arguments, "command"@) {
        Some(command) => ToolStepView::Perform(
            ActionOf::Spawn { command, directory: base },
            TaskOf::Spawning { timeout: command_timeout(arguments) },
        ),
        None => failed("missing command"@),
    }
}

/// How a search for files begins.
pub open spec fn glob_begins(arguments: JsonView, dir: Option<Seq<char>>) -> ToolStepView {
    match text_member(arguments, "pattern"@) {
        Some(pattern) => ToolStepView::Perform(
            ActionOf::FindFiles { pattern: rooted_pattern(pattern, search_root(arguments, dir)) },
            TaskOf::FindingFiles,
        ),
        None => failed("missing pattern"@),
    }
}

/// How a search in files begins.
pub open spec fn grep_begins(arguments: JsonView, dir: Option<Seq<char>>) -> ToolStepView {
    match text_member(arguments, "pattern"@) {
        Some(pattern) => {
            let path = search_root(arguments, dir);
            let filter = text_member(arguments, "include"@);
            ToolStepView::Perform(
                ActionOf::Run {
                    program: "rg"@,
                    arguments: search_arguments(pattern, path, filter),
                },
                TaskOf::Searching { pattern, path, filter },
            )
        },
        None => failed("missing pattern"@),
    }
}

/// How listing a directory begins.
pub open spec fn list_begins(arguments: JsonView, dir: Option<Seq<char>>) -> ToolStepView {
    match text_member(arguments, "path"@) {
        Some(path) => ToolStepView::Perform(
            ActionOf::ListDirectory { path: absolute_path(path, dir) },
            TaskOf::Listing,
        ),
        None => failed("missing path"@),
    }
}

/// How a tool call begins, in the directory `base` or without one in the working
/// directory `cwd`.
pub open spec fn first_step(
    call: ToolCallView,
    base: Option<&str>,
    cwd: Option<&str>,
) -> ToolStepView {
    let arguments = call.arguments;
    let dir = directory(base, cwd);
    match kind_of(call.name) {
        ToolKind::ReadFile => read_begins(arguments),
        ToolKind::WriteFile => write_begins(arguments),
        ToolKind::EditFile => edit_begins(arguments),
        ToolKind::RunCommand => command_begins(arguments, directory(base, None)),
        ToolKind::Glob => glob_begins(arguments, dir),
        ToolKind::Grep => grep_begins(arguments, dir),
        ToolKind::ReadDirectory => list_begins(arguments, dir),
        ToolKind::Unknown => failed("unknown tool: "@ + call.name),
    }
}

// ---------------------------------------------------------------------------
// The steps that follow
// ---------------------------------------------------------------------------

/// Whether `event` can come of the action that `task` waits for.
pub open spec fn answers(task: ToolTaskView, event: ToolEventView) -> bool {
    match task {
        TaskOf::Reading { .. } | TaskOf::ReadingToEdit { .. } => event is Content || event
            is Failed,
        TaskOf::MakingParent { .. } | TaskOf::Writing { .. } | TaskOf::WritingEdit {
            ..
        } | TaskOf::Spawning { .. } => event is Done || event is Failed,
        TaskOf::Polling { .. } => event is Running || event is Exited || event is Failed,
        TaskOf::Pausing { .. } => event is Done,
        TaskOf::Killing { .. } | TaskOf::Collecting { .. } => event is Output,
        TaskOf::FindingFiles => event is Found || event is Failed,
        TaskOf::Searching { .. } | TaskOf::SearchingAgain => event is Ran || event is Failed,
        TaskOf::Listing => event is Entries || event is Failed,
    }
}

/// How an edit goes on once the file has been read.
pub open spec fn edit_goes_on(
    content: Seq<char>,
    path: Seq<char>,
    old: Seq<char>,
    new: Seq<char>,
    all: bool,
) -> ToolStepView {
    let n = occurrences(content, old);
    if n == 0 {
        failed(
            "old_string not found in "@ + path
                + ". Re-read the file and include enough surrounding lines to match exactly."@,
        )
    } else if n > 1 && !all {
        failed(
            "old_string matches "@ + decimal(n) + " locations in "@ + path
                + "; it must be unique. Add surrounding lines to disambiguate or set replace_all=true."@,
        )
    } else {
        ToolStepView::Perform(
            ActionOf::WriteFile {
                path,
                content: if all {
                    replaced(content, old, new)
                } else {
                    replaced_first(content, old, new, 1)
                },
            },
            TaskOf::WritingEdit { path, replaced: if all { n as u128 } else { 1 } },
        )
    }
}

/// The second search in files.
pub open spec fn search_again(
    pattern: Seq<char>,
    path: Seq<char>,
    filter: Option<Seq<char>>,
) -> ToolStepView {
    ToolStepView::Perform(
        ActionOf::Run {
            program: "grep"@,
            arguments: fallback_arguments(pattern, path, filter),
        },
        TaskOf::SearchingAgain,
    )
}

/// How a tool call goes on, where `event` came of the action that `task` waits for.
pub open spec fn next_step(task: ToolTaskView, event: ToolEventView) -> ToolStepView {
    match (task, event) {
        (TaskOf::Reading { offset, limit }, EventOf::Content { text }) => succeeded(
            file_report(text, offset as nat, limit as nat),
        ),
        (TaskOf::Reading { .. }, EventOf::Failed { reason }) => failed(
            "read_file error: "@ + reason,
        ),
        (TaskOf::MakingParent { path, content }, EventOf::Done) => write_goes_on(path, content),
        (TaskOf::MakingParent { .. }, EventOf::Failed { reason }) => failed(
            "write_file mkdir error: "@ + reason,
        ),
        (TaskOf::Writing { path, size }, EventOf::Done) => succeeded(
            "wrote "@ + decimal(size as nat) + " bytes to "@ + path,
        ),
        (TaskOf::Writing { .. }, EventOf::Failed { reason }) => failed(
            "write_file error: "@ + reason,
        ),
        (TaskOf::ReadingToEdit { path, old, new, all }, EventOf::Content { text }) => edit_goes_on(
            text,
            path,
            old,
            new,
            all,
        ),
        (TaskOf::ReadingToEdit { .. }, EventOf::Failed { reason }) => failed(
            "edit_file read error: "@ + reason,
        ),
        (TaskOf::WritingEdit { path, replaced }, EventOf::Done) => succeeded(
            "edited "@ + path + ": replaced "@ + decimal(replaced as nat) + " occurrence(s)"@,
        ),
        (TaskOf::WritingEdit { .. }, EventOf::Failed { reason }) => failed(
            "edit_file write error: "@ + reason,
        ),
        (TaskOf::Spawning { timeout }, EventOf::Done) => ToolStepView::Perform(
            ActionOf::Poll,
            TaskOf::Polling { timeout },
        ),
        (TaskOf::Spawning { .. }, EventOf::Failed { reason }) => failed(
            "run_command spawn error: "@ + reason,
        ),
        (TaskOf::Polling { timeout }, EventOf::Running { elapsed_secs }) => if elapsed_secs
            >= timeout {
            ToolStepView::Perform(ActionOf::Kill, TaskOf::Killing { timeout })
        } else {
            ToolStepView::Perform(ActionOf::Pause, TaskOf::Pausing { timeout })
        },
        (TaskOf::Polling { .. }, EventOf::Exited { code }) => ToolStepView::Perform(
            ActionOf::Collect,
            TaskOf::Collecting { code },
        ),
        (TaskOf::Polling { .. }, EventOf::Failed { reason }) => failed(
            "run_command wait error: "@ + reason,
        ),
        (TaskOf::Pausing { timeout }, EventOf::Done) => ToolStepView::Perform(
            ActionOf::Poll,
            TaskOf::Polling { timeout },
        ),
        (TaskOf::Killing { timeout }, EventOf::Output { stdout, stderr, .. }) => failed(
            timeout_report(stdout, stderr, timeout),
        ),
        (TaskOf::Collecting { code }, EventOf::Output { stdout, stderr, elapsed }) => succeeded(
            command_report(stdout, stderr, code, elapsed),
        ),
        (TaskOf::FindingFiles, EventOf::Found { files }) => succeeded(glob_report(files)),
        (TaskOf::FindingFiles, EventOf::Failed { reason }) => failed("glob error: "@ + reason),
        (TaskOf::Searching { pattern, path, filter }, EventOf::Ran { success, code, stdout }) => if success
            || code == Some(1i32) {
            succeeded(grep_report(stdout))
        } else {
            search_again(pattern, path, filter)
        },
        (TaskOf::Searching { pattern, path, filter }, EventOf::Failed { .. }) => search_again(
            pattern,
            path,
            filter,
        ),
        (TaskOf::SearchingAgain, EventOf::Ran { stdout, .. }) => succeeded(grep_report(stdout)),
        (TaskOf::SearchingAgain, EventOf::Failed { reason }) => failed("grep error: "@ + reason),
        (TaskOf::Listing, EventOf::Entries { entries }) => succeeded(directory_report(entries)),
        (TaskOf::Listing, EventOf::Failed { reason }) => failed("read_dir error: "@ + reason),
        _ => failed(seq![]),
    }
}

// ---------------------------------------------------------------------------
// Laws
// ---------------------------------------------------------------------------

/// Whether an action leaves files as they are.
pub open spec fn only_looks(action: ToolActionView) -> bool {
    match action {
        ActionOf::ReadFile { .. } | ActionOf::FindFiles { .. } | ActionOf::ListDirectory {
            ..
        } => true,
        ActionOf::Run { program, .. } => program == "rg"@ || program == "grep"@,
        _ => false,
    }
}

/// Whether a task belongs to a tool that only looks at files.
pub open spec fn looking(task: ToolTaskView) -> bool {
    match task {
        TaskOf::Reading { .. } | TaskOf::FindingFiles | TaskOf::Searching {
            ..
        } | TaskOf::SearchingAgain | TaskOf::Listing => true,
        _ => false,
    }
}

/// The tools that read and search neither write files nor run commands of the caller's.
pub proof fn law_looking_changes_nothing(
    call: ToolCallView,
    base: Option<&str>,
    cwd: Option<&str>,
    task: ToolTaskView,
    event: ToolEventView,
)
    ensures
        !(kind_of(call.name) is WriteFile || kind_of(call.name) is EditFile || kind_of(call.name)
            is RunCommand) ==> (first_step(call, base, cwd) matches ToolStepView::Perform(action, t)
            ==> only_looks(action) && looking(t)),
        looking(task) ==> (next_step(task, event) matches ToolStepView::Perform(action, t)
            ==> only_looks(action) && looking(t)),
{
}

/// An edit writes exactly where the text occurs once, or more often and every
/// occurrence is to be replaced.
pub proof fn law_edit_writes_when_unique(
    content: Seq<char>,
    path: Seq<char>,
    old: Seq<char>,
    new: Seq<char>,
    all: bool,
)
    ensures
        edit_goes_on(content, path, old, new, all) is Perform <==> occurrences(content, old) == 1
            || (occurrences(content, old) > 1 && all),
{
}

/// Where the text occurs once, an edit puts the new text in its place and keeps what
/// stands before and behind it.
pub proof fn law_edit_changes_one_place(
    content: Seq<char>,
    path: Seq<char>,
    old: Seq<char>,
    new: Seq<char>,
    all: bool,
)
    requires
        occurrences(content, old) == 1,
    ensures
        find_from(content, old, 0) matches Some(at) && {
            &&& content == content.take(at) + old + content.skip(at + old.len())
            &&& edit_goes_on(content, path, old, new, all) matches ToolStepView::Perform(action, _)
            &&& action == (ToolActionView::WriteFile {
                path,
                content: content.take(at) + new + content.skip(at + old.len()),
            })
        },
{
    crate::text::lemma_find_from(content, old, 0);
    crate::replace::lemma_replaced_once(content, old, new);
    crate::replace::lemma_replaced_single(content, old, new);
    let at = find_from(content, old, 0)->0;
    assert(content =~= content.take(at) + old + content.skip(at + old.len()));
}

/// A file is written as it was asked for, below its parent directory; and who reads it
/// then is shown that content.
pub proof fn law_written_file_is_read_back(
    write: ToolCallView,
    read: ToolCallView,
    base: Option<&str>,
    cwd: Option<&str>,
    path: Seq<char>,
    content: Seq<char>,
)
    requires
        kind_of(write.name) is WriteFile,
        text_member(write.arguments, "path"@) == Some(path),
        text_member(write.arguments, "content"@) == Some(content),
        kind_of(read.name) is ReadFile,
        text_member(read.arguments, "path"@) == Some(path),
    ensures
        ({
            let first = first_step(write, base, cwd);
            let written = match parent(path) {
                Some(dir) => next_step(first->Perform_1, EventOf::Done),
                None => first,
            };
            &&& first is Perform
            &&& written is Perform
            &&& parent(path) is Some ==> first->Perform_0 == (ToolActionView::CreateDirectory {
                path: parent(path)->0,
            })
            &&& written->Perform_0 == (ToolActionView::WriteFile { path, content })
            &&& next_step(written->Perform_1, EventOf::Done) is Finished
        }),
        ({
            let first = first_step(read, base, cwd);
            &&& first is Perform
            &&& first->Perform_0 == (ToolActionView::ReadFile { path })
            &&& next_step(first->Perform_1, EventOf::Content { text: content }) == succeeded(
                file_report(
                    content,
                    lines_skipped(read.arguments) as nat,
                    lines_wanted(read.arguments) as nat,
                ),
            )
        }),
{
}

/// A command that has ended is reported with all that it wrote and with its code, where
/// that is not too long.
pub proof fn law_command_is_reported(
    arguments: JsonView,
    code: Option<i32>,
    stdout: Seq<char>,
    stderr: Seq<char>,
    elapsed: Seq<char>,
)
    ensures
        ({
            let polled = next_step(
                TaskOf::Polling { timeout: command_timeout(arguments) },
                EventOf::Exited { code },
            );
            &&& polled is Perform
            &&& polled->Perform_0 is Collect
            &&& next_step(polled->Perform_1, EventOf::Output { stdout, stderr, elapsed })
                == succeeded(command_report(stdout, stderr, code, elapsed))
        }),
{
}

/// A command that is still running when its time is over is stopped, and reported as an
/// error; before that it is left alone. Its time is never longer than ten minutes.
pub proof fn law_commands_are_stopped(
    arguments: JsonView,
    elapsed_secs: u64,
    stdout: Seq<char>,
    stderr: Seq<char>,
    elapsed: Seq<char>,
)
    ensures
        1 <= command_timeout(arguments) <= 600,
        ({
            let timeout = command_timeout(arguments);
            let step = next_step(TaskOf::Polling { timeout }, EventOf::Running { elapsed_secs });
            &&& step is Perform
            &&& step->Perform_0 == if elapsed_secs >= timeout {
                ToolActionView::Kill
            } else {
                ToolActionView::Pause
            }
            &&& elapsed_secs >= timeout ==> next_step(
                step->Perform_1,
                EventOf::Output { stdout, stderr, elapsed },
            ) == failed(timeout_report(stdout, stderr, timeout))
        }),
{
}

/// The first step of the tool `name` with `arguments`.
pub open spec fn begun(
    name: Seq<char>,
    arguments: JsonView,
    base: Option<&str>,
    cwd: Option<&str>,
) -> ToolStepView {
    first_step(ToolCallView { name, arguments }, base, cwd)
}

/// An edit reads the file that it was asked to edit. Of its text, what stands between the
/// matches of the old text is written back as it was, and the new text once where each
/// match stood: what was put in is not searched again. The report counts the matches.
/// More than one match is an error unless all are to be replaced, and so is none.
pub proof fn law_edit_replaces_each_match(
    arguments: JsonView,
    base: Option<&str>,
    cwd: Option<&str>,
    path: Seq<char>,
    old: Seq<char>,
    new: Seq<char>,
    parts: Seq<Seq<char>>,
    reason: Seq<char>,
)
    requires
        text_member(arguments, "path"@) == Some(path),
        text_member(arguments, "old_string"@) == Some(old),
        text_member(arguments, "new_string"@) == Some(new),
        old != new,
        between_matches(parts, old),
        parts.len() <= u64::MAX,
    ensures
        ({
            let start = begun("edit_file"@, arguments, base, cwd);
            let content = joined(parts, old);
            let step = next_step(start->Perform_1, EventOf::Content { text: content });
            let all = bool_member(arguments, "replace_all"@) == Some(true);
            &&& start is Perform
            &&& start->Perform_0 == (ToolActionView::ReadFile { path })
            &&& next_step(start->Perform_1, EventOf::Failed { reason }) == ToolStepView::Finished(
                Err("edit_file read error: "@ + reason),
            )
            &&& parts.len() == 2 || (parts.len() > 2 && all) ==> {
                &&& step is Perform
                &&& step->Perform_0 == (ToolActionView::WriteFile {
                    path,
                    content: joined(parts, new),
                })
                &&& next_step(step->Perform_1, EventOf::Done) == ToolStepView::Finished(
                    Ok(
                        "edited "@ + path + ": replaced "@ + decimal((parts.len() - 1) as nat)
                            + " occurrence(s)"@,
                    ),
                )
                &&& next_step(step->Perform_1, EventOf::Failed { reason })
                    == ToolStepView::Finished(Err("edit_file write error: "@ + reason))
            }
            &&& parts.len() == 1 ==> step == ToolStepView::Finished(
                Err(
                    "old_string not found in "@ + path
                        + ". Re-read the file and include enough surrounding lines to match exactly."@,
                ),
            )
            &&& parts.len() > 2 && !all ==> step == ToolStepView::Finished(
                Err(
                    "old_string matches "@ + decimal((parts.len() - 1) as nat) + " locations in "@
                        + path
                        + "; it must be unique. Add surrounding lines to disambiguate or set replace_all=true."@,
                ),
            )
        }),
{
    let content = joined(parts, old);
    law_tools_have_their_names("edit_file"@);
    law_replaced(parts, old, new);
    if parts.len() == 2 {
        crate::replace::lemma_replaced_single(content, old, new);
    }
}

/// What an edit writes is longer or shorter than what it read by the difference of the
/// two texts, once for each match.
pub proof fn law_edit_changes_the_length_by_each_match(
    content: Seq<char>,
    path: Seq<char>,
    old: Seq<char>,
    new: Seq<char>,
    all: bool,
)
    requires
        old.len() > 0,
    ensures
        next_step(
            TaskOf::ReadingToEdit { path, old, new, all },
            EventOf::Content { text: content },
        ) matches ToolStepView::Perform(action, _) ==> {
            &&& action matches ActionOf::WriteFile { path: target, content: written }
            &&& target == path
            &&& written.len() == content.len() + occurrences(content, old) * (new.len() - old.len())
        },
{
    let parts = law_text_splits_at_matches(content, old);
    law_replaced(parts, old, new);
    if occurrences(content, old) == 1 {
        crate::replace::lemma_replaced_single(content, old, new);
    }
}

/// An empty text to replace stands in front of every character and at the end: the new
/// text is put at each of these places where all are to be replaced, and into a file that
/// is empty in any case.
pub proof fn law_edit_of_empty_text(
    content: Seq<char>,
    path: Seq<char>,
    new: Seq<char>,
    all: bool,
)
    requires
        content.len() < u64::MAX,
    ensures
        ({
            let old = Seq::<char>::empty();
            let step = next_step(
                TaskOf::ReadingToEdit { path, old, new, all },
                EventOf::Content { text: content },
            );
            let cut = Seq::new(
                content.len() + 1,
                |i: int|
                    if i < content.len() {
                        seq![content[i]]
                    } else {
                        seq![]
                    },
            );
            &&& all || content.len() == 0 ==> {
                &&& step is Perform
                &&& step->Perform_0 == (ToolActionView::WriteFile {
                    path,
                    content: new + joined(cut, new),
                })
                &&& next_step(step->Perform_1, EventOf::Done) == ToolStepView::Finished(
                    Ok(
                        "edited "@ + path + ": replaced "@ + decimal(content.len() + 1)
                            + " occurrence(s)"@,
                    ),
                )
            }
            &&& !all && content.len() > 0 ==> step is Finished
        }),
{
    let old = Seq::<char>::empty();
    law_empty_pattern_replaced(content, new);
    if content.len() == 0 {
        crate::replace::lemma_replaced_single(content, old, new);
    }
}

/// A file is written to the path that was asked for, with the content that was asked for,
/// once the directory that it stands in is there; the report names the path and counts
/// the bytes.
pub proof fn law_file_is_written_as_asked(
    arguments: JsonView,
    base: Option<&str>,
    cwd: Option<&str>,
    path: Seq<char>,
    content: Seq<char>,
    reason: Seq<char>,
)
    requires
        text_member(arguments, "path"@) == Some(path),
        text_member(arguments, "content"@) == Some(content),
        utf8_len(content) <= u64::MAX,
    ensures
        ({
            let start = begun("write_file"@, arguments, base, cwd);
            let step = if parent(path) is Some {
                next_step(start->Perform_1, EventOf::Done)
            } else {
                start
            };
            &&& start is Perform
            &&& parent(path) matches Some(dir) ==> {
                &&& start->Perform_0 == (ToolActionView::CreateDirectory { path: dir })
                &&& next_step(start->Perform_1, EventOf::Failed { reason })
                    == ToolStepView::Finished(Err("write_file mkdir error: "@ + reason))
            }
            &&& step is Perform
            &&& step->Perform_0 == (ToolActionView::WriteFile { path, content })
            &&& next_step(step->Perform_1, EventOf::Done) == ToolStepView::Finished(
                Ok("wrote "@ + decimal(utf8_len(content)) + " bytes to "@ + path),
            )
            &&& next_step(step->Perform_1, EventOf::Failed { reason }) == ToolStepView::Finished(
                Err("write_file error: "@ + reason),
            )
        }),
{
    law_tools_have_their_names("write_file"@);
}

/// A file is read from the path that was asked for. How many lines are shown at most
/// depends on `limit` alone, and at which line they begin on `offset` alone: with the file
/// cut into the lines in front of line `offset`, those that are wanted and those behind,
/// the report holds the second with their numbers and counts them.
pub proof fn law_read_shows_the_lines_asked_for(
    arguments: JsonView,
    base: Option<&str>,
    cwd: Option<&str>,
    path: Seq<char>,
    content: Seq<char>,
    above: Seq<Seq<char>>,
    shown: Seq<Seq<char>>,
    below: Seq<Seq<char>>,
    reason: Seq<char>,
)
    requires
        text_member(arguments, "path"@) == Some(path),
        lines(content) == above + shown + below,
        match u64_member(arguments, "offset"@) {
            Some(n) => above.len() == n - 1 || (n == 0 && above.len() == 0),
            None => above.len() == 0,
        },
        match u64_member(arguments, "limit"@) {
            Some(n) if n > 0 => shown.len() == n || (shown.len() < n && below.len() == 0),
            Some(n) => shown.len() == 1 || (shown.len() == 0 && below.len() == 0),
            None => shown.len() == 2000 || (shown.len() < 2000 && below.len() == 0),
        },
    ensures
        ({
            let start = begun("read_file"@, arguments, base, cwd);
            let body = numbered(shown, above.len());
            let note = "\n["@ + decimal(shown.len()) + " of "@ + decimal(lines(content).len())
                + " total lines]"@;
            let report = next_step(start->Perform_1, EventOf::Content { text: content });
            &&& start is Perform
            &&& start->Perform_0 == (ToolActionView::ReadFile { path })
            &&& utf8_len(body) <= 30_000 ==> report == ToolStepView::Finished(Ok(body + note))
            &&& utf8_len(body) > 30_000 ==> report == ToolStepView::Finished(
                Ok(
                    (if body.len() > 30_000 {
                        body.take(30_000)
                    } else {
                        body
                    }) + "\n[... file truncated ...]"@ + note,
                ),
            )
            &&& next_step(start->Perform_1, EventOf::Failed { reason }) == ToolStepView::Finished(
                Err("read_file error: "@ + reason),
            )
        }),
{
    law_tools_have_their_names("read_file"@);
    law_asked_lines_are_reported(
        content,
        above,
        shown,
        below,
        lines_wanted(arguments) as nat,
    );
}

/// How many lines are read at most does not depend on where reading begins: two calls
/// with the same `limit` wait for the content with the same limit, and that is the number
/// asked for, one for zero, and 2000 where none is asked for. Two calls with the same
/// `offset` leave out the same lines, all in front of the line asked for.
pub proof fn law_limit_and_offset_are_apart(
    arguments: JsonView,
    other: JsonView,
    base: Option<&str>,
    cwd: Option<&str>,
)
    requires
        text_member(arguments, "path"@) is Some,
        text_member(other, "path"@) is Some,
    ensures
        ({
            let task = begun("read_file"@, arguments, base, cwd)->Perform_1;
            let second = begun("read_file"@, other, base, cwd)->Perform_1;
            &&& task is Reading
            &&& second is Reading
            &&& u64_member(arguments, "limit"@) == u64_member(other, "limit"@)
                ==> task->Reading_limit == second->Reading_limit
            &&& u64_member(arguments, "offset"@) == u64_member(other, "offset"@)
                ==> task->Reading_offset == second->Reading_offset
            &&& u64_member(arguments, "limit"@) matches Some(n) ==> n > 0 ==> task->Reading_limit
                == n
            &&& u64_member(arguments, "limit"@) == Some(0u64) ==> task->Reading_limit == 1
            &&& u64_member(arguments, "limit"@) is None ==> task->Reading_limit == 2000
            &&& u64_member(arguments, "offset"@) matches Some(n) ==> n > 0
                ==> task->Reading_offset + 1 == n
            &&& u64_member(arguments, "offset"@) == Some(0u64) || u64_member(arguments, "offset"@)
                is None ==> task->Reading_offset == 0
        }),
{
    law_tools_have_their_names("read_file"@);
}

/// A command is run as it was asked for, in the directory of the chat. It is looked at
/// until it has ended or its time is over: the seconds asked for, at least one and at most
/// 600, or 120 where nothing is asked for.
pub proof fn law_command_runs_as_asked(
    arguments: JsonView,
    base: Option<&str>,
    cwd: Option<&str>,
    command: Seq<char>,
    elapsed_secs: u64,
    reason: Seq<char>,
)
    requires
        text_member(arguments, "command"@) == Some(command),
    ensures
        ({
            let start = begun("run_command"@, arguments, base, cwd);
            let polling = next_step(start->Perform_1, EventOf::Done);
            let running = next_step(polling->Perform_1, EventOf::Running { elapsed_secs });
            let seconds: u64 = match u64_member(arguments, "timeout_secs"@) {
                Some(n) if 1 <= n <= 600 => n,
                Some(n) => if n == 0 {
                    1
                } else {
                    600
                },
                None => 120,
            };
            &&& start is Perform
            &&& start->Perform_0 == (ToolActionView::Spawn {
                command,
                directory: match base {
                    Some(dir) => Some(dir@),
                    None => None,
                },
            })
            &&& next_step(start->Perform_1, EventOf::Failed { reason }) == ToolStepView::Finished(
                Err("run_command spawn error: "@ + reason),
            )
            &&& polling is Perform
            &&& polling->Perform_0 is Poll
            &&& next_step(polling->Perform_1, EventOf::Failed { reason })
                == ToolStepView::Finished(Err("run_command wait error: "@ + reason))
            &&& running is Perform
            &&& elapsed_secs < seconds ==> running->Perform_0 is Pause && next_step(
                running->Perform_1,
                EventOf::Done,
            ) == polling
            &&& elapsed_secs >= seconds ==> running == ToolStepView::Perform(
                ActionOf::Kill,
                TaskOf::Killing { timeout: seconds },
            )
        }),
{
    law_tools_have_their_names("run_command"@);
}

/// Of a command that ended by itself, what it wrote to both streams is reported with its
/// code, whatever that is and however long it was given.
pub proof fn law_ended_command_is_reported(
    timeout: u64,
    code: Option<i32>,
    stdout: Seq<char>,
    stderr: Seq<char>,
    elapsed: Seq<char>,
)
    ensures
        ({
            let ended = next_step(TaskOf::Polling { timeout }, EventOf::Exited { code });
            let whole = both_streams(stdout, stderr) + "\nexit code: "@ + signed_decimal(
                if code is Some {
                    code->0 as int
                } else {
                    -1
                },
            ) + " ("@ + elapsed + "s)"@;
            let reported = next_step(
                ended->Perform_1,
                EventOf::Output { stdout, stderr, elapsed },
            );
            &&& ended is Perform
            &&& ended->Perform_0 is Collect
            &&& reported == ToolStepView::Finished(Ok(truncated(whole)))
            &&& utf8_len(whole) <= 30_000 ==> reported == ToolStepView::Finished(Ok(whole))
        }),
{
    law_report_holds_both_streams(stdout, stderr, code, elapsed);
}

/// Of a command that was stopped, what it had written to both streams is reported as an
/// error with the time that it was given.
pub proof fn law_stopped_command_is_reported(
    timeout: u64,
    stdout: Seq<char>,
    stderr: Seq<char>,
    elapsed: Seq<char>,
)
    ensures
        ({
            let front = "command timed out after "@ + decimal(timeout as nat)
                + "s and was killed; "@;
            let reported = next_step(
                TaskOf::Killing { timeout },
                EventOf::Output { stdout, stderr, elapsed },
            );
            &&& is_blank(stdout) && is_blank(stderr) ==> reported == ToolStepView::Finished(
                Err(front + "no output was produced"@),
            )
            &&& !(is_blank(stdout) && is_blank(stderr)) ==> reported == ToolStepView::Finished(
                Err(
                    front + "output so far:\n"@ + truncated(trim(both_streams(stdout, stderr))),
                ),
            )
        }),
{
    law_stopped_report_holds_both_streams(stdout, stderr, timeout);
}

/// The directory that a search looks through: the one that was asked for, as seen from
/// the directory of the chat; without one the directory of the chat, and without that the
/// directory that the program runs in.
pub open spec fn place_searched(
    arguments: JsonView,
    base: Option<&str>,
    cwd: Option<&str>,
    place: Seq<char>,
) -> bool {
    let dir = if base is Some {
        base
    } else {
        cwd
    };
    match (text_member(arguments, "path"@), dir) {
        (Some(path), Some(dir)) => place == path_under(dir@, path),
        (Some(path), None) => place == path,
        (None, Some(dir)) => place == dir@,
        (None, None) => place == "."@,
    }
}

/// A search in files looks for the pattern that was asked for in the place that was asked
/// for, with a filter and without. Both programs that can do it are handed the pattern
/// and, right behind it, the place; a filter adds to what the first is handed and changes
/// nothing else of it.
pub proof fn law_search_gets_pattern_and_place(
    arguments: JsonView,
    base: Option<&str>,
    cwd: Option<&str>,
    pattern: Seq<char>,
    place: Seq<char>,
    reason: Seq<char>,
)
    requires
        text_member(arguments, "pattern"@) == Some(pattern),
        place_searched(arguments, base, cwd, place),
    ensures
        ({
            let filter = text_member(arguments, "include"@);
            let first = begun("grep"@, arguments, base, cwd);
            let second = next_step(first->Perform_1, EventOf::Failed { reason });
            let plain = seq!["-n"@, "--no-heading"@, pattern, place];
            &&& first is Perform
            &&& first->Perform_0 is Run
            &&& first->Perform_0->program == "rg"@
            &&& filter is None ==> first->Perform_0->arguments == plain
            &&& filter is Some ==> first->Perform_0->arguments == plain + seq!["-g"@, filter->0]
            &&& second is Perform
            &&& second->Perform_0 is Run
            &&& second->Perform_0->program == "grep"@
            &&& filter is None ==> second->Perform_0->arguments == seq!["-rn"@] + seq![
                pattern,
                place,
            ]
            &&& filter is Some ==> second->Perform_0->arguments == seq![
                "-rn"@,
                "--include="@ + filter->0,
            ] + seq![pattern, place]
        }),
{
    law_tools_have_their_names("grep"@);
    let filter = text_member(arguments, "include"@);
    assert(search_root(arguments, directory(base, cwd)) == place);
    if filter is Some {
        assert(search_arguments(pattern, place, filter) =~= seq![
            "-n"@,
            "--no-heading"@,
            pattern,
            place,
        ] + seq!["-g"@, filter->0]);
        assert(fallback_arguments(pattern, place, filter) =~= seq![
            "-rn"@,
            "--include="@ + filter->0,
        ] + seq![pattern, place]);
    } else {
        assert(fallback_arguments(pattern, place, filter) =~= seq!["-rn"@] + seq![pattern, place]);
    }
}

/// What the first program found is reported, also where it found nothing. The second is
/// run where the first could not be run or failed otherwise, and what it found is reported
/// however it ended.
pub proof fn law_search_reports_what_was_found(
    pattern: Seq<char>,
    path: Seq<char>,
    filter: Option<Seq<char>>,
    success: bool,
    code: Option<i32>,
    stdout: Seq<char>,
    reason: Seq<char>,
)
    ensures
        ({
            let searching = TaskOf::Searching { pattern, path, filter };
            let ran = EventOf::Ran { success, code, stdout };
            let second = next_step(searching, EventOf::Failed { reason });
            let report = if is_blank(stdout) {
                "no matches"@
            } else {
                truncated(trim(stdout))
            };
            &&& second is Perform
            &&& second->Perform_0 is Run
            &&& success || code == Some(1i32) ==> next_step(searching, ran)
                == ToolStepView::Finished(Ok(report))
            &&& !success && code != Some(1i32) ==> next_step(searching, ran) == second
            &&& next_step(second->Perform_1, ran) == ToolStepView::Finished(Ok(report))
            &&& next_step(second->Perform_1, EventOf::Failed { reason }) == ToolStepView::Finished(
                Err("grep error: "@ + reason),
            )
        }),
{
}

/// A search for files looks for an absolute pattern as it is, and for any other below the
/// place that was asked for; the slashes at the end of that place do not matter.
pub proof fn law_glob_looks_below_the_place(
    arguments: JsonView,
    base: Option<&str>,
    cwd: Option<&str>,
    pattern: Seq<char>,
    place: Seq<char>,
    slashes: Seq<char>,
    files: Seq<GlobMatchView>,
    reason: Seq<char>,
)
    requires
        text_member(arguments, "pattern"@) == Some(pattern),
        place_searched(arguments, base, cwd, place + slashes),
        place.len() > 0 ==> place.last() != '/',
        forall|i: int| 0 <= i < slashes.len() ==> #[trigger] slashes[i] == '/',
    ensures
        ({
            let start = begun("glob"@, arguments, base, cwd);
            &&& start is Perform
            &&& start->Perform_0 == (ToolActionView::FindFiles {
                pattern: if pattern.len() > 0 && pattern[0] == '/' {
                    pattern
                } else {
                    place + seq!['/'] + pattern
                },
            })
            &&& next_step(start->Perform_1, EventOf::Found { files }) == ToolStepView::Finished(
                Ok(glob_report(files)),
            )
            &&& next_step(start->Perform_1, EventOf::Failed { reason }) == ToolStepView::Finished(
                Err("glob error: "@ + reason),
            )
        }),
{
    law_tools_have_their_names("glob"@);
    reveal_strlit("/");
    assert("/"@ =~= seq!['/']);
    lemma_without_slashes(place, slashes);
}

proof fn lemma_without_slashes(place: Seq<char>, slashes: Seq<char>)
    requires
        place.len() > 0 ==> place.last() != '/',
        forall|i: int| 0 <= i < slashes.len() ==> #[trigger] slashes[i] == '/',
    ensures
        without_slashes(place + slashes) == place,
    decreases slashes.len(),
{
    if slashes.len() > 0 {
        let fewer = slashes.drop_last();
        assert((place + slashes).last() == slashes[slashes.len() - 1]);
        assert((place + slashes).drop_last() =~= place + fewer);
        assert forall|i: int| 0 <= i < fewer.len() implies #[trigger] fewer[i] == '/' by {
            assert(slashes[i] == '/');
        }
        lemma_without_slashes(place, fewer);
    } else {
        assert(place + slashes =~= place);
    }
}

/// The directory that was asked for is listed, as seen from the directory of the chat,
/// and every entry that was found is reported.
pub proof fn law_directory_is_listed(
    arguments: JsonView,
    base: Option<&str>,
    cwd: Option<&str>,
    place: Seq<char>,
    entries: Seq<DirectoryEntryView>,
    reason: Seq<char>,
)
    requires
        text_member(arguments, "path"@) is Some,
        place_searched(arguments, base, cwd, place),
    ensures
        ({
            let start = begun("read_directory"@, arguments, base, cwd);
            &&& start is Perform
            &&& start->Perform_0 == (ToolActionView::ListDirectory { path: place })
            &&& next_step(start->Perform_1, EventOf::Entries { entries }) == ToolStepView::Finished(
                Ok(directory_report(entries)),
            )
            &&& next_step(start->Perform_1, EventOf::Failed { reason }) == ToolStepView::Finished(
                Err("read_dir error: "@ + reason),
            )
        }),
{
    law_tools_have_their_names("read_directory"@);
}

/// A call that lacks an argument is refused with the name of the first that it lacks, and
/// does nothing; so is a call of a tool that there is none of, and an edit that would
/// change nothing.
pub proof fn law_incomplete_calls_are_refused(
    name: Seq<char>,
    arguments: JsonView,
    base: Option<&str>,
    cwd: Option<&str>,
)
    ensures
        ({
            let path = text_member(arguments, "path"@);
            let old = text_member(arguments, "old_string"@);
            let new = text_member(arguments, "new_string"@);
            let start = begun(name, arguments, base, cwd);
            let on_path = name == "read_file"@ || name == "write_file"@ || name == "edit_file"@
                || name == "read_directory"@;
            &&& on_path && path is None ==> start == ToolStepView::Finished(Err("missing path"@))
            &&& name == "write_file"@ && path is Some && text_member(arguments, "content"@)
                is None ==> start == ToolStepView::Finished(Err("missing content"@))
            &&& name == "edit_file"@ && path is Some && old is None
                ==> start == ToolStepView::Finished(Err("missing old_string"@))
            &&& name == "edit_file"@ && path is Some && old is Some && new is None
                ==> start == ToolStepView::Finished(Err("missing new_string"@))
            &&& name == "edit_file"@ && path is Some && old is Some && new == old
                ==> start == ToolStepView::Finished(
                Err("old_string and new_string are identical; nothing to change"@),
            )
            &&& name == "run_command"@ && text_member(arguments, "command"@) is None
                ==> start == ToolStepView::Finished(Err("missing command"@))
            &&& (name == "glob"@ || name == "grep"@) && text_member(arguments, "pattern"@)
                is None ==> start == ToolStepView::Finished(Err("missing pattern"@))
            &&& !on_path && name != "run_command"@ && name != "glob"@ && name != "grep"@
                ==> start == ToolStepView::Finished(Err("unknown tool: "@ + name))
        }),
{
    law_tools_have_their_names(name);
}

/// A call is run by the tool that it names, with its own arguments; without a directory of
/// the chat it is run in the working directory. What comes back is a report, an error, or an
/// action to perform.
pub proof fn law_calls_are_run_by_their_tools(
    call: ToolCall,
    base: Option<&str>,
    cwd: Option<&str>,
    step: ToolStep,
    plain: ToolStep,
    text: String,
)
    requires
        call_ensures(execute_tool_with_base, (&call, base, cwd), step),
        call_ensures(execute_tool, (&call, cwd), plain),
    ensures
        step@ == begun(call.function.name@, call.function.arguments@, base, cwd),
        plain@ == begun(call.function.name@, call.function.arguments@, None, cwd),
        step == ToolStep::Finished(Ok(text)) ==> step@ == ToolStepView::Finished(Ok(text@)),
        step == ToolStep::Finished(Err(text)) ==> step@ == ToolStepView::Finished(Err(text@)),
        step matches ToolStep::Perform(action, task) ==> step@ == ToolStepView::Perform(
            action@,
            task@,
        ),
{
}

/// What stands for an action names what is to be done, and to what.
pub proof fn law_actions_are_seen_whole(action: ToolAction)
    ensures
        action matches ActionOf::ReadFile { path } ==> action@ == (ToolActionView::ReadFile {
            path: path@,
        }),
        action matches ActionOf::CreateDirectory { path } ==> action@ == (
        ToolActionView::CreateDirectory { path: path@ }),
        action matches ActionOf::WriteFile { path, content } ==> action@ == (
        ToolActionView::WriteFile { path: path@, content: content@ }),
        action matches ActionOf::Spawn { command, directory } ==> action@ == (
        ToolActionView::Spawn { command: command@, directory: option_view(directory) }),
        action matches ActionOf::FindFiles { pattern } ==> action@ == (
        ToolActionView::FindFiles { pattern: pattern@ }),
        action matches ActionOf::Run { program, arguments } ==> action@ == (ToolActionView::Run {
            program: program@,
            arguments: views(arguments@),
        }),
        action matches ActionOf::ListDirectory { path } ==> action@ == (
        ToolActionView::ListDirectory { path: path@ }),
        action is Poll <==> action@ is Poll,
        action is Pause <==> action@ is Pause,
        action is Kill <==> action@ is Kill,
        action is Collect <==> action@ is Collect,
{
}

/// What stands for an event holds all that came of the action.
pub proof fn law_events_are_seen_whole(event: ToolEvent)
    ensures
        event matches EventOf::Failed { reason } ==> event@ == (ToolEventView::Failed {
            reason: reason@,
        }),
        event matches EventOf::Content { text } ==> event@ == (ToolEventView::Content {
            text: text@,
        }),
        event matches EventOf::Running { elapsed_secs } ==> event@ == (ToolEventView::Running {
            elapsed_secs,
        }),
        event matches EventOf::Exited { code } ==> event@ == (ToolEventView::Exited { code }),
        event matches EventOf::Output { stdout, stderr, elapsed } ==> event@ == (
        ToolEventView::Output { stdout: stdout@, stderr: stderr@, elapsed: elapsed@ }),
        event matches EventOf::Found { files } ==> event@ == (ToolEventView::Found {
            files: item_views(files@),
        }),
        event matches EventOf::Ran { success, code, stdout } ==> event@ == (ToolEventView::Ran {
            success,
            code,
            stdout: stdout@,
        }),
        event matches EventOf::Entries { entries } ==> event@ == (ToolEventView::Entries {
            entries: item_views(entries@),
        }),
        event is Done <==> event@ is Done,
{
}

/// Whether `event` can come of `action`.
pub open spec fn leads_to(action: ToolActionView, event: ToolEventView) -> bool {
    match action {
        ActionOf::ReadFile { .. } => event is Content || event is Failed,
        ActionOf::CreateDirectory { .. } | ActionOf::WriteFile { .. } | ActionOf::Spawn {
            ..
        } => event is Done || event is Failed,
        ActionOf::Poll => event is Running || event is Exited || event is Failed,
        ActionOf::Pause => event is Done,
        ActionOf::Kill | ActionOf::Collect => event is Output,
        ActionOf::FindFiles { .. } => event is Found || event is Failed,
        ActionOf::Run { .. } => event is Ran || event is Failed,
        ActionOf::ListDirectory { .. } => event is Entries || event is Failed,
    }
}

/// Whatever comes of an action that a tool call asks for, the call can go on with it.
pub proof fn law_every_event_is_answered(
    call: ToolCallView,
    base: Option<&str>,
    cwd: Option<&str>,
    task: ToolTaskView,
    before: ToolEventView,
    event: ToolEventView,
)
    ensures
        first_step(call, base, cwd) matches ToolStepView::Perform(action, t) ==> (leads_to(
            action,
            event,
        ) ==> answers(t, event)),
        next_step(task, before) matches ToolStepView::Perform(action, t) ==> (leads_to(
            action,
            event,
        ) ==> answers(t, event)),
{
}

// ---------------------------------------------------------------------------
// Code
// ---------------------------------------------------------------------------

fn failure(error: &str) -> (step: ToolStep)
    ensures
        step@ == failed(error@),
{
    ToolStep::Finished(Err(error.to_owned()))
}

fn failure_of(what: &str, reason: &str) -> (step: ToolStep)
    ensures
        step@ == failed(what@ + reason@),
{
    let mut error: String = what.to_owned();
    error.push_str(reason);
    ToolStep::Finished(Err(error))
}

fn begin_read(arguments: &Json) -> (step: ToolStep)
    ensures
        step@ == read_begins(arguments@),
{
    match arguments.get_text("path") {
        Some(path) => {
            let offset: u64 = match arguments.get_u64("offset") {
                Some(n) => if n > 0 {
                    n - 1
                } else {
                    0
                },
                None => 0,
            };
            let limit: u64 = match arguments.get_u64("limit") {
                Some(n) => if n > 0 {
                    n
                } else {
                    1
                },
                None => 2000,
            };
            ToolStep::Perform(ActionOf::ReadFile { path }, TaskOf::Reading { offset, limit })
        },
        None => failure("missing path"),
    }
}

fn go_on_writing(path: String, content: String) -> (step: ToolStep)
    ensures
        step@ == write_goes_on(path@, content@),
{
    let size: u64 = byte_len(content.as_str()) as u64;
    let task = TaskOf::Writing { path: path.clone(), size };
    ToolStep::Perform(ActionOf::WriteFile { path, content }, task)
}

fn begin_write(arguments: &Json) -> (step: ToolStep)
    ensures
        step@ == write_begins(arguments@),
{
    match arguments.get_text("path") {
        Some(path) => match arguments.get_text("content") {
            Some(content) => match parent_of(path.as_str()) {
                Some(dir) => ToolStep::Perform(
                    ActionOf::CreateDirectory { path: dir },
                    TaskOf::MakingParent { path, content },
                ),
                None => go_on_writing(path, content),
            },
            None => failure("missing content"),
        },
        None => failure("missing path"),
    }
}

fn begin_edit(arguments: &Json) -> (step: ToolStep)
    ensures
        step@ == edit_begins(arguments@),
{
    match arguments.get_text("path") {
        Some(path) => match arguments.get_text("old_string") {
            Some(old) => match arguments.get_text("new_string") {
                Some(new) => {
                    let all: bool = match arguments.get_bool("replace_all") {
                        Some(b) => b,
                        None => false,
                    };
                    if same_text(old.as_str(), new.as_str()) {
                        return failure(
                            "old_string and new_string are identical; nothing to change",
                        );
                    }
                    let action = ActionOf::ReadFile { path: path.clone() };
                    ToolStep::Perform(action, TaskOf::ReadingToEdit { path, old, new, all })
                },
                None => failure("missing new_string"),
            },
            None => failure("missing old_string"),
        },
        None => failure("missing path"),
    }
}

fn begin_command(arguments: &Json, base: Option<&str>) -> (step: ToolStep)
    ensures
        step@ == command_begins(arguments@, directory(base, None)),
{
    match arguments.get_text("command") {
        Some(command) => {
            let timeout: u64 = match arguments.get_u64("timeout_secs") {
                Some(n) => if n < 1 {
                    1
                } else if n > 600 {
                    600
                } else {
                    n
                },
                None => 120,
            };
            let directory: Option<String> = match base {
                Some(dir) => Some(dir.to_owned()),
                None => None,
            };
            ToolStep::Perform(ActionOf::Spawn { command, directory }, TaskOf::Spawning { timeout })
        },
        None => failure("missing command"),
    }
}

fn search_root_of(arguments: &Json, base: Option<&str>, cwd: Option<&str>) -> (root: String)
    ensures
        root@ == search_root(arguments@, directory(base, cwd)),
{
    match arguments.get_text("path") {
        Some(path) => absolute_path_in(path.as_str(), base, cwd),
        None => match base {
            Some(dir) => dir.to_owned(),
            None => match cwd {
                Some(dir) => dir.to_owned(),
                None => ".".to_owned(),
            },
        },
    }
}

fn drop_slashes(path: &str) -> (short: String)
    ensures
        short@ == without_slashes(path@),
{
    let chars = chars_of(path);
    let mut n: usize = chars.len();
    assert(chars@.take(n as int) =~= path@);
    while n > 0 && chars[n - 1] == '/'
        invariant
            n <= chars@.len(),
            chars@ == path@,
            without_slashes(path@.take(n as int)) == without_slashes(path@),
        decreases n,
    {
        assert(path@.take(n as int).drop_last() =~= path@.take(n - 1));
        n = n - 1;
    }
    assert(path@.subrange(0, n as int) =~= path@.take(n as int));
    string_of(&chars, 0, n)
}

fn begin_glob(arguments: &Json, base: Option<&str>, cwd: Option<&str>) -> (step: ToolStep)
    ensures
        step@ == glob_begins(arguments@, directory(base, cwd)),
{
    match arguments.get_text("pattern") {
        Some(pattern) => {
            let root = search_root_of(arguments, base, cwd);
            if is_absolute(pattern.as_str()) {
                return ToolStep::Perform(ActionOf::FindFiles { pattern }, TaskOf::FindingFiles);
            }
            let mut whole: String = drop_slashes(root.as_str());
            whole.push_str("/");
            whole.push_str(pattern.as_str());
            ToolStep::Perform(ActionOf::FindFiles { pattern: whole }, TaskOf::FindingFiles)
        },
        None => failure("missing pattern"),
    }
}

fn begin_grep(arguments: &Json, base: Option<&str>, cwd: Option<&str>) -> (step: ToolStep)
    ensures
        step@ == grep_begins(arguments@, directory(base, cwd)),
{
    match arguments.get_text("pattern") {
        Some(pattern) => {
            let path = search_root_of(arguments, base, cwd);
            let filter = arguments.get_text("include");
            let mut list: Vec<String> = Vec::new();
            list.push("-n".to_owned());
            list.push("--no-heading".to_owned());
            list.push(pattern.clone());
            list.push(path.clone());
            if let Some(text) = &filter {
                list.push("-g".to_owned());
                list.push(text.clone());
            }
            assert(views(list@) =~= search_arguments(pattern@, path@, option_view(filter)));
            ToolStep::Perform(
                ActionOf::Run { program: "rg".to_owned(), arguments: list },
                TaskOf::Searching { pattern, path, filter },
            )
        },
        None => failure("missing pattern"),
    }
}

fn begin_list(arguments: &Json, base: Option<&str>, cwd: Option<&str>) -> (step: ToolStep)
    ensures
        step@ == list_begins(arguments@, directory(base, cwd)),
{
    match arguments.get_text("path") {
        Some(path) => {
            let whole = absolute_path_in(path.as_str(), base, cwd);
            ToolStep::Perform(ActionOf::ListDirectory { path: whole }, TaskOf::Listing)
        },
        None => failure("missing path"),
    }
}

/// Begins a tool call in the directory `base`, or without one in the working directory
/// `cwd`.
pub fn execute_tool_with_base(
    tool_call: &ToolCall,
    base: Option<&str>,
    cwd: Option<&str>,
) -> (step: ToolStep)
    ensures
        step@ == first_step(tool_call@, base, cwd),
{
    let arguments: &Json = &tool_call.function.arguments;
    match tool_kind(tool_call.function.name.as_str()) {
        ToolKind::ReadFile => begin_read(arguments),
        ToolKind::WriteFile => begin_write(arguments),
        ToolKind::EditFile => begin_edit(arguments),
        ToolKind::RunCommand => begin_command(arguments, base),
        ToolKind::Glob => begin_glob(arguments, base, cwd),
        ToolKind::Grep => begin_grep(arguments, base, cwd),
        ToolKind::ReadDirectory => begin_list(arguments, base, cwd),
        ToolKind::Unknown => failure_of("unknown tool: ", tool_call.function.name.as_str()),
    }
}

/// Begins a tool call in the working directory `cwd`.
pub fn execute_tool(tool_call: &ToolCall, cwd: Option<&str>) -> (step: ToolStep)
    ensures
        step@ == first_step(tool_call@, None, cwd),
{
    execute_tool_with_base(tool_call, None, cwd)
}

fn go_on_editing(content: &str, path: String, old: &str, new: &str, all: bool) -> (step: ToolStep)
    ensures
        step@ == edit_goes_on(content@, path@, old@, new@, all),
{
    let n: u128 = count(content, old);
    if n == 0 {
        let mut error: String = "old_string not found in ".to_owned();
        error.push_str(path.as_str());
        error.push_str(
            ". Re-read the file and include enough surrounding lines to match exactly.",
        );
        return ToolStep::Finished(Err(error));
    }
    if n > 1 && !all {
        let mut error: String = "old_string matches ".to_owned();
        error.push_str(decimal_text(n).as_str());
        error.push_str(" locations in ");
        error.push_str(path.as_str());
        error.push_str(
            "; it must be unique. Add surrounding lines to disambiguate or set replace_all=true.",
        );
        return ToolStep::Finished(Err(error));
    }
    let changed = substitute(content, old, new, all);
    let task = TaskOf::WritingEdit { path: path.clone(), replaced: if all { n } else { 1 } };
    ToolStep::Perform(ActionOf::WriteFile { path, content: changed }, task)
}

fn go_on_searching(pattern: String, path: String, filter: Option<String>) -> (step: ToolStep)
    ensures
        step@ == search_again(pattern@, path@, option_view(filter)),
{
    let mut list: Vec<String> = Vec::new();
    list.push("-rn".to_owned());
    if let Some(text) = &filter {
        let mut flag: String = "--include=".to_owned();
        flag.push_str(text.as_str());
        list.push(flag);
    }
    let ghost wanted = fallback_arguments(pattern@, path@, option_view(filter));
    list.push(pattern);
    list.push(path);
    assert(views(list@) =~= wanted);
    ToolStep::Perform(
        ActionOf::Run { program: "grep".to_owned(), arguments: list },
        TaskOf::SearchingAgain,
    )
}

/// Goes on with a tool call, where `event` came of the action that `task` waits for.
pub fn resume_tool(task: ToolTask, event: ToolEvent) -> (step: ToolStep)
    requires
        answers(task@, event@),
    ensures
        step@ == next_step(task@, event@),
{
    match (task, event) {
        (TaskOf::Reading { offset, limit }, EventOf::Content { text }) => ToolStep::Finished(
            Ok(report_file(text.as_str(), offset, limit)),
        ),
        (TaskOf::Reading { .. }, EventOf::Failed { reason }) => failure_of(
            "read_file error: ",
            reason.as_str(),
        ),
        (TaskOf::MakingParent { path, content }, EventOf::Done) => go_on_writing(path, content),
        (TaskOf::MakingParent { .. }, EventOf::Failed { reason }) => failure_of(
            "write_file mkdir error: ",
            reason.as_str(),
        ),
        (TaskOf::Writing { path, size }, EventOf::Done) => {
            let mut report: String = "wrote ".to_owned();
            report.push_str(decimal_text(size as u128).as_str());
            report.push_str(" bytes to ");
            report.push_str(path.as_str());
            ToolStep::Finished(Ok(report))
        },
        (TaskOf::Writing { .. }, EventOf::Failed { reason }) => failure_of(
            "write_file error: ",
            reason.as_str(),
        ),
        (TaskOf::ReadingToEdit { path, old, new, all }, EventOf::Content { text }) => go_on_editing(
            text.as_str(),
            path,
            old.as_str(),
            new.as_str(),
            all,
        ),
        (TaskOf::ReadingToEdit { .. }, EventOf::Failed { reason }) => failure_of(
            "edit_file read error: ",
            reason.as_str(),
        ),
        (TaskOf::WritingEdit { path, replaced }, EventOf::Done) => {
            let mut report: String = "edited ".to_owned();
            report.push_str(path.as_str());
            report.push_str(": replaced ");
            report.push_str(decimal_text(replaced).as_str());
            report.push_str(" occurrence(s)");
            ToolStep::Finished(Ok(report))
        },
        (TaskOf::WritingEdit { .. }, EventOf::Failed { reason }) => failure_of(
            "edit_file write error: ",
            reason.as_str(),
        ),
        (TaskOf::Spawning { timeout }, EventOf::Done) => ToolStep::Perform(
            ActionOf::Poll,
            TaskOf::Polling { timeout },
        ),
        (TaskOf::Spawning { .. }, EventOf::Failed { reason }) => failure_of(
            "run_command spawn error: ",
            reason.as_str(),
        ),
        (TaskOf::Polling { timeout }, EventOf::Running { elapsed_secs }) => if elapsed_secs
            >= timeout {
            ToolStep::Perform(ActionOf::Kill, TaskOf::Killing { timeout })
        } else {
            ToolStep::Perform(ActionOf::Pause, TaskOf::Pausing { timeout })
        },
        (TaskOf::Polling { .. }, EventOf::Exited { code }) => ToolStep::Perform(
            ActionOf::Collect,
            TaskOf::Collecting { code },
        ),
        (TaskOf::Polling { .. }, EventOf::Failed { reason }) => failure_of(
            "run_command wait error: ",
            reason.as_str(),
        ),
        (TaskOf::Pausing { timeout }, EventOf::Done) => ToolStep::Perform(
            ActionOf::Poll,
            TaskOf::Polling { timeout },
        ),
        (TaskOf::Killing { timeout }, EventOf::Output { stdout, stderr, .. }) => ToolStep::Finished(
            Err(report_timeout(stdout.as_str(), stderr.as_str(), timeout)),
        ),
        (TaskOf::Collecting { code }, EventOf::Output { stdout, stderr, elapsed }) => {
            ToolStep::Finished(
                Ok(report_command(stdout.as_str(), stderr.as_str(), code, elapsed.as_str())),
            )
        },
        (TaskOf::FindingFiles, EventOf::Found { files }) => ToolStep::Finished(
            Ok(report_glob(files)),
        ),
        (TaskOf::FindingFiles, EventOf::Failed { reason }) => failure_of(
            "glob error: ",
            reason.as_str(),
        ),
        (TaskOf::Searching { pattern, path, filter }, EventOf::Ran { success, code, stdout }) => {
            let searched: bool = match code {
                Some(code) => success || code == 1,
                None => success,
            };
            if searched {
                ToolStep::Finished(Ok(report_grep(stdout.as_str())))
            } else {
                go_on_searching(pattern, path, filter)
            }
        },
        (TaskOf::Searching { pattern, path, filter }, EventOf::Failed { .. }) => go_on_searching(
            pattern,
            path,
            filter,
        ),
        (TaskOf::SearchingAgain, EventOf::Ran { stdout, .. }) => ToolStep::Finished(
            Ok(report_grep(stdout.as_str())),
        ),
        (TaskOf::SearchingAgain, EventOf::Failed { reason }) => failure_of(
            "grep error: ",
            reason.as_str(),
        ),
        (TaskOf::Listing, EventOf::Entries { entries }) => ToolStep::Finished(
            Ok(report_directory(&entries)),
        ),
        (TaskOf::Listing, EventOf::Failed { reason }) => failure_of(
            "read_dir error: ",
            reason.as_str(),
        ),
        _ => failure(""),
    }
}

} // verus!
