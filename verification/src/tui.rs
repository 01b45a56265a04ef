//! The state of the terminal interface: how it answers to keys, to the events of turns
//! that run in the background, and to changes that others made.

use vstd::prelude::*;

use crate::chat::{
    add_message, new_message, ChatSummary, ChatSummaryView, MessageOut, MessageOutView, NewMessage,
    NewMessageView,
};
use crate::engine::{TurnOutcome, TurnOutcomeView};
use crate::events::{ChatActivityState, ChatChange, Polled};
use crate::lines::{lines, lines_of};
use crate::sorting::item_views;
use crate::text::{
    chars_of, is_blank, is_white, option_view, same_text, string_of, trim, trimmed,
};
use crate::tools::{call_views, description, tool_call_description, ToolCall, ToolCallView};

verus! {

/// What the keys go to.
#[derive(Clone, Copy, PartialEq, Eq, Structural, Debug)]
pub enum Focus {
    Sidebar,
    Input,
}

/// Something that happened to a turn in the background.
#[derive(Debug)]
pub enum CliEvent {
    TextReady { chat_id: i64 },
    ToolCallsPending { chat_id: i64 },
    Error { chat_id: i64, message: String },
}

/// What a [`CliEvent`] stands for.
pub enum CliEventView {
    TextReady { chat_id: i64 },
    ToolCallsPending { chat_id: i64 },
    Error { chat_id: i64, message: Seq<char> },
}

impl View for CliEvent {
    type V = CliEventView;

    open spec fn view(&self) -> CliEventView {
        match *self {
            CliEvent::TextReady { chat_id } => CliEventView::TextReady { chat_id },
            CliEvent::ToolCallsPending { chat_id } => CliEventView::ToolCallsPending { chat_id },
            CliEvent::Error { chat_id, message } => CliEventView::Error {
                chat_id,
                message: message@,
            },
        }
    }
}

/// The state of the interface.
#[derive(Debug)]
pub struct App {
    pub chats: Vec<ChatSummary>,
    pub messages: Vec<MessageOut>,
    pub active_chat_id: Option<i64>,
    pub input: String,
    pub loading: bool,
    pub loading_chat_id: Option<i64>,
    pub sidebar_index: usize,
    pub focus: Focus,
    pub scroll: u16,
    pub confirmation_scroll: u16,
    pub exit: bool,
    pub show_help: bool,
    pub pending_tool_calls: Option<(i64, Vec<ToolCall>)>,
    pub waiting_confirmation: bool,
}

/// What an [`App`] stands for.
pub struct AppView {
    pub chats: Seq<ChatSummaryView>,
    pub messages: Seq<MessageOutView>,
    pub active: Option<i64>,
    pub input: Seq<char>,
    pub loading: bool,
    pub loading_chat: Option<i64>,
    pub sidebar_index: nat,
    pub focus: Focus,
    pub scroll: u16,
    pub confirmation_scroll: u16,
    pub exit: bool,
    pub show_help: bool,
    pub pending: Option<(i64, Seq<ToolCallView>)>,
    pub waiting: bool,
}

/// The view of the calls of a chat that wait.
pub open spec fn pending_calls_view(pending: Option<(i64, Vec<ToolCall>)>) -> Option<
    (i64, Seq<ToolCallView>),
> {
    match pending {
        Some((chat_id, calls)) => Some((chat_id, call_views(calls@))),
        None => None,
    }
}

impl View for App {
    type V = AppView;

    open spec fn view(&self) -> AppView {
        AppView {
            chats: item_views(self.chats@),
            messages: item_views(self.messages@),
            active: self.active_chat_id,
            input: self.input@,
            loading: self.loading,
            loading_chat: self.loading_chat_id,
            sidebar_index: self.sidebar_index as nat,
            focus: self.focus,
            scroll: self.scroll,
            confirmation_scroll: self.confirmation_scroll,
            exit: self.exit,
            show_help: self.show_help,
            pending: pending_calls_view(self.pending_tool_calls),
            waiting: self.waiting_confirmation,
        }
    }
}

/// Something that the interface wants done. What comes of loading and creating goes back
/// to it before the next is done.
#[derive(Debug)]
pub enum Command {
    /// Load the list of chats.
    LoadChats,
    /// Load the messages of a chat.
    LoadMessages { chat_id: i64 },
    /// Load the tool calls of a chat that wait.
    LoadPending { chat_id: i64 },
    /// Create a chat, and send a message to it where there is one.
    CreateChat { first_message: Option<String> },
    /// Delete a chat.
    DeleteChat { chat_id: i64 },
    /// Give a chat its title from a message.
    UpdateTitle { chat_id: i64, message: String },
    /// Store a message.
    Store(NewMessage),
    /// Publish a change.
    Publish(ChatChange),
    /// Let the model take its turn in the background.
    RunTurn { chat_id: i64 },
    /// Resolve the calls of a chat that wait, in the background.
    ResolvePending { chat_id: i64, approved: bool },
    /// Tell the interface of a turn in the background.
    Notify(CliEvent),
}

/// What a [`Command`] stands for.
pub enum CommandView {
    LoadChats,
    LoadMessages { chat_id: i64 },
    LoadPending { chat_id: i64 },
    CreateChat { first_message: Option<Seq<char>> },
    DeleteChat { chat_id: i64 },
    UpdateTitle { chat_id: i64, message: Seq<char> },
    Store(NewMessageView),
    Publish(ChatChange),
    RunTurn { chat_id: i64 },
    ResolvePending { chat_id: i64, approved: bool },
    Notify(CliEventView),
}

impl View for Command {
    type V = CommandView;

    open spec fn view(&self) -> CommandView {
        match *self {
            Command::LoadChats => CommandView::LoadChats,
            Command::LoadMessages { chat_id } => CommandView::LoadMessages { chat_id },
            Command::LoadPending { chat_id } => CommandView::LoadPending { chat_id },
            Command::CreateChat { first_message } => CommandView::CreateChat {
                first_message: option_view(first_message),
            },
            Command::DeleteChat { chat_id } => CommandView::DeleteChat { chat_id },
            Command::UpdateTitle { chat_id, message } => CommandView::UpdateTitle {
                chat_id,
                message: message@,
            },
            Command::Store(message) => CommandView::Store(message@),
            Command::Publish(change) => CommandView::Publish(change),
            Command::RunTurn { chat_id } => CommandView::RunTurn { chat_id },
            Command::ResolvePending { chat_id, approved } => CommandView::ResolvePending {
                chat_id,
                approved,
            },
            Command::Notify(event) => CommandView::Notify(event@),
        }
    }
}

/// The key of an event.
#[derive(Clone, Copy, PartialEq, Eq, Structural, Debug)]
pub enum Key {
    Esc,
    Enter,
    Tab,
    Backspace,
    Up,
    Down,
    Char(char),
    Other,
}

/// A key that was pressed, and whether the control key alone was held with it.
#[derive(Clone, Copy, PartialEq, Eq, Structural, Debug)]
pub struct KeyPress {
    pub key: Key,
    pub control: bool,
}

/// How the interface answers: its next state, and what it wants done.
pub struct Answer {
    pub app: AppView,
    pub commands: Seq<CommandView>,
}

// ---------------------------------------------------------------------------
// Well-formed states
// ---------------------------------------------------------------------------

impl AppView {
    /// What holds in every state: a chat is selected where there are any, a confirmation
    /// is waited for only where calls wait, and a turn is under way exactly where its
    /// chat is known.
    pub open spec fn well_formed(self) -> bool {
        &&& self.chats.len() > 0 ==> self.sidebar_index < self.chats.len()
        &&& self.waiting ==> self.pending is Some
        &&& self.loading == self.loading_chat is Some
    }

    /// Whether the calls that wait belong to the chat that is shown.
    pub open spec fn confirms(self) -> bool {
        self.pending matches Some((chat_id, _)) && self.active == Some(chat_id)
    }

    /// Whether the chat that is shown is the one whose turn is under way.
    pub open spec fn thinks(self) -> bool {
        self.loading && self.loading_chat == self.active
    }
}

// ---------------------------------------------------------------------------
// What comes back
// ---------------------------------------------------------------------------

/// The state when the list of chats was loaded.
pub open spec fn with_chats(app: AppView, chats: Seq<ChatSummaryView>) -> AppView {
    AppView {
        chats,
        sidebar_index: if chats.len() > 0 && app.sidebar_index >= chats.len() {
            (chats.len() - 1) as nat
        } else {
            app.sidebar_index
        },
        ..app
    }
}

/// The state when the messages of the chat were loaded.
pub open spec fn with_messages(app: AppView, messages: Seq<MessageOutView>) -> AppView {
    AppView { messages, scroll: 0, ..app }
}

/// The state when the calls of a chat that wait were loaded.
pub open spec fn with_pending(
    app: AppView,
    chat_id: i64,
    calls: Option<Seq<ToolCallView>>,
) -> AppView {
    match calls {
        Some(calls) => AppView {
            pending: Some((chat_id, calls)),
            confirmation_scroll: 0,
            waiting: true,
            ..app
        },
        None => app,
    }
}

// ---------------------------------------------------------------------------
// Chats and turns
// ---------------------------------------------------------------------------

/// The answer that starts a turn in the chat that is shown.
pub open spec fn turn_starts(app: AppView) -> Answer {
    Answer {
        app: AppView { loading: true, loading_chat: app.active, ..app },
        commands: match app.active {
            Some(chat_id) => seq![
                CommandView::Publish(
                    ChatChange::Activity { id: chat_id, state: ChatActivityState::Thinking },
                ),
                CommandView::RunTurn { chat_id },
            ],
            None => seq![],
        },
    }
}

/// What sending a message to a chat wants done before the turn starts.
pub open spec fn message_commands(chat_id: i64, message: Seq<char>) -> Seq<CommandView> {
    seq![
        CommandView::UpdateTitle { chat_id, message },
        CommandView::Store(new_message(chat_id, "user"@, message, None, None)),
        CommandView::Publish(ChatChange::Upsert { id: chat_id }),
        CommandView::LoadChats,
        CommandView::LoadMessages { chat_id },
    ]
}

/// The answer that sends a message to the chat `chat_id`, which is shown.
pub open spec fn message_goes(app: AppView, chat_id: i64, message: Seq<char>) -> Answer {
    Answer {
        app: turn_starts(app).app,
        commands: message_commands(chat_id, message) + turn_starts(app).commands,
    }
}

/// The answer when a chat was created, or could not be; `message` is to be sent to it.
pub open spec fn chat_created_answer(
    app: AppView,
    created: Option<i64>,
    message: Option<Seq<char>>,
) -> Answer {
    match created {
        None => Answer { app, commands: seq![] },
        Some(chat_id) => {
            let shown = AppView {
                sidebar_index: 0,
                active: Some(chat_id),
                messages: seq![],
                input: seq![],
                focus: Focus::Input,
                scroll: 0,
                ..app
            };
            let opened = seq![
                CommandView::Publish(ChatChange::Upsert { id: chat_id }),
                CommandView::LoadChats,
            ];
            match message {
                None => Answer { app: shown, commands: opened },
                Some(message) => {
                    let sent = message_goes(shown, chat_id, message);
                    Answer { app: sent.app, commands: opened + sent.commands }
                },
            }
        },
    }
}

/// The answer that sends what was typed, unless it is empty or a turn is under way.
pub open spec fn message_sent(app: AppView) -> Answer {
    let message = trim(app.input);
    if message.len() == 0 || app.loading {
        Answer { app, commands: seq![] }
    } else {
        let emptied = AppView { input: seq![], ..app };
        match app.active {
            Some(chat_id) => message_goes(emptied, chat_id, message),
            None => Answer {
                app: emptied,
                commands: seq![CommandView::CreateChat { first_message: Some(message) }],
            },
        }
    }
}

/// The commands that show the calls of the chat that wait, unless they are shown.
pub open spec fn pending_commands(app: AppView) -> Seq<CommandView> {
    match app.active {
        Some(chat_id) if !app.confirms() => seq![CommandView::LoadPending { chat_id }],
        _ => seq![],
    }
}

/// The answer that shows the chat at `index` of the list.
pub open spec fn chat_selected(app: AppView, index: nat) -> Answer {
    if index < app.chats.len() {
        let chat_id = app.chats[index as int].id;
        let shown = AppView { active: Some(chat_id), focus: Focus::Input, ..app };
        Answer {
            app: shown,
            commands: seq![CommandView::LoadMessages { chat_id }] + pending_commands(shown),
        }
    } else {
        Answer { app, commands: seq![] }
    }
}

/// The answer that resolves the calls that wait.
pub open spec fn tools_resolved(app: AppView, approved: bool) -> Answer {
    match app.pending {
        None => Answer { app, commands: seq![] },
        Some((chat_id, _)) => Answer {
            app: AppView {
                pending: None,
                waiting: false,
                loading: true,
                loading_chat: Some(chat_id),
                ..app
            },
            commands: seq![
                CommandView::Publish(
                    ChatChange::Activity { id: chat_id, state: ChatActivityState::Thinking },
                ),
                CommandView::ResolvePending { chat_id, approved },
            ],
        },
    }
}

// ---------------------------------------------------------------------------
// Keys
// ---------------------------------------------------------------------------

/// The number of lines that the calls that wait are described in, one more for each.
pub open spec fn confirmation_lines(calls: Seq<ToolCallView>) -> nat
    decreases calls.len(),
{
    if calls.len() == 0 {
        0
    } else {
        confirmation_lines(calls.drop_last()) + lines(description(calls.last())).len() + 1
    }
}

/// How far the description of the calls that wait can be scrolled.
pub open spec fn confirmation_end(app: AppView) -> int {
    match app.pending {
        Some((_, calls)) => {
            let count = confirmation_lines(calls);
            (if count > 0 {
                count - 1
            } else {
                0
            }) % 0x1_0000
        },
        None => 0,
    }
}

/// The answer to a key while a confirmation is shown.
pub open spec fn confirmation_key(app: AppView, key: Key) -> Answer {
    match key {
        Key::Char(c) => if c == 'y' || c == 'Y' {
            tools_resolved(app, true)
        } else if c == 'n' || c == 'N' {
            tools_resolved(app, false)
        } else {
            Answer { app, commands: seq![] }
        },
        Key::Esc => tools_resolved(app, false),
        Key::Up => Answer {
            app: AppView {
                confirmation_scroll: if app.confirmation_scroll > 0 {
                    (app.confirmation_scroll - 1) as u16
                } else {
                    0
                },
                ..app
            },
            commands: seq![],
        },
        Key::Down => Answer {
            app: AppView {
                confirmation_scroll: if app.confirmation_scroll + 1 <= confirmation_end(app) {
                    (app.confirmation_scroll + 1) as u16
                } else {
                    confirmation_end(app) as u16
                },
                ..app
            },
            commands: seq![],
        },
        _ => Answer { app, commands: seq![] },
    }
}

/// The answer to a key in the list of chats.
pub open spec fn sidebar_key(app: AppView, key: Key) -> Answer {
    if (key == Key::Up || key == Key::Char('k')) && app.sidebar_index > 0 {
        Answer {
            app: AppView { sidebar_index: (app.sidebar_index - 1) as nat, ..app },
            commands: seq![],
        }
    } else if (key == Key::Down || key == Key::Char('j')) && app.sidebar_index + 1
        < app.chats.len() {
        Answer {
            app: AppView { sidebar_index: app.sidebar_index + 1, ..app },
            commands: seq![],
        }
    } else if key == Key::Enter {
        chat_selected(app, app.sidebar_index)
    } else if key == Key::Char('n') {
        Answer { app, commands: seq![CommandView::CreateChat { first_message: None }] }
    } else if key == Key::Char('d') && app.sidebar_index < app.chats.len() {
        let chat_id = app.chats[app.sidebar_index as int].id;
        Answer {
            app: without_chat(app, chat_id),
            commands: seq![
                CommandView::DeleteChat { chat_id },
                CommandView::Publish(ChatChange::Deleted { id: chat_id }),
                CommandView::LoadChats,
            ],
        }
    } else if key == Key::Tab {
        Answer { app: AppView { focus: Focus::Input, ..app }, commands: seq![] }
    } else {
        Answer { app, commands: seq![] }
    }
}

/// The state when a chat is no longer there: it is not shown any more.
pub open spec fn without_chat(app: AppView, chat_id: i64) -> AppView {
    if app.active == Some(chat_id) {
        AppView { active: None, messages: seq![], ..app }
    } else {
        app
    }
}

/// The answer to a key in the input line.
pub open spec fn input_key(app: AppView, key: Key) -> Answer {
    match key {
        Key::Enter => if trim(app.input) == "/exit"@ {
            Answer { app: AppView { input: seq![], exit: true, ..app }, commands: seq![] }
        } else {
            message_sent(app)
        },
        Key::Tab => Answer { app: AppView { focus: Focus::Sidebar, ..app }, commands: seq![] },
        Key::Char(c) => Answer {
            app: AppView { input: app.input.push(c), ..app },
            commands: seq![],
        },
        Key::Backspace => Answer {
            app: AppView {
                input: if app.input.len() > 0 {
                    app.input.drop_last()
                } else {
                    app.input
                },
                ..app
            },
            commands: seq![],
        },
        _ => Answer { app, commands: seq![] },
    }
}

/// Whether a key ends the program.
pub open spec fn quits(app: AppView, press: KeyPress) -> bool {
    ||| press.key == Key::Esc
    ||| press.key == Key::Char('q') && app.focus == Focus::Sidebar
    ||| press.key == Key::Char('c') && press.control
}

/// The answer to a key. A key that ends the program has its other effects too.
pub open spec fn key_answer(app: AppView, press: KeyPress) -> Answer {
    if app.show_help {
        Answer { app: AppView { show_help: false, ..app }, commands: seq![] }
    } else if !quits(app, press) && press.key == Key::Char('?') && app.focus == Focus::Sidebar {
        Answer { app: AppView { show_help: true, ..app }, commands: seq![] }
    } else {
        let app = if quits(app, press) {
            AppView { exit: true, ..app }
        } else {
            app
        };
        if app.confirms() {
            confirmation_key(app, press.key)
        } else if app.focus == Focus::Sidebar {
            sidebar_key(app, press.key)
        } else {
            input_key(app, press.key)
        }
    }
}

// ---------------------------------------------------------------------------
// Events
// ---------------------------------------------------------------------------

/// The commands that load the messages of a chat, where it is shown.
pub open spec fn shown_messages(app: AppView, chat_id: i64) -> Seq<CommandView> {
    if app.active == Some(chat_id) {
        seq![CommandView::LoadMessages { chat_id }]
    } else {
        seq![]
    }
}

/// The message that an error leaves in its chat.
pub open spec fn error_message(chat_id: i64, error: Seq<char>) -> NewMessageView {
    new_message(chat_id, "assistant"@, "Error: "@ + error, None, None)
}

/// What is done about an error in a chat.
pub open spec fn error_commands(chat_id: i64, error: Seq<char>) -> Seq<CommandView> {
    seq![
        CommandView::Store(error_message(chat_id, error)),
        CommandView::Publish(ChatChange::Upsert { id: chat_id }),
        CommandView::Publish(
            ChatChange::Activity { id: chat_id, state: ChatActivityState::Idle },
        ),
    ]
}

/// The answer to the event of a turn in the background.
pub open spec fn event_answer(app: AppView, event: CliEventView) -> Answer {
    let idle = AppView {
        loading: false,
        loading_chat: None,
        waiting: app.pending is Some,
        ..app
    };
    match event {
        CliEventView::TextReady { chat_id } => Answer {
            app: idle,
            commands: shown_messages(idle, chat_id),
        },
        CliEventView::ToolCallsPending { chat_id } => Answer {
            app: idle,
            commands: if app.active == Some(chat_id) {
                seq![CommandView::LoadMessages { chat_id }, CommandView::LoadPending { chat_id }]
            } else {
                seq![]
            },
        },
        CliEventView::Error { chat_id, message } => Answer {
            app: idle,
            commands: error_commands(chat_id, message) + shown_messages(idle, chat_id),
        },
    }
}

/// The answer to a change that was published.
pub open spec fn change_answer(app: AppView, change: ChatChange) -> Answer {
    match change {
        ChatChange::Deleted { id } => Answer { app: without_chat(app, id), commands: seq![] },
        ChatChange::Upsert { id } => Answer {
            app,
            commands: if app.active == Some(id) && !app.loading {
                seq![CommandView::LoadMessages { chat_id: id }] + pending_commands(app)
            } else {
                seq![]
            },
        },
        ChatChange::Activity { id, state } => Answer {
            app: if state == ChatActivityState::Idle && app.active == Some(id) && !app.confirms() {
                AppView { waiting: false, ..app }
            } else {
                app
            },
            commands: seq![],
        },
    }
}

/// What is done when a turn in the background has ended.
pub open spec fn outcome_commands(
    chat_id: i64,
    outcome: Result<TurnOutcomeView, Seq<char>>,
) -> Seq<CommandView> {
    match outcome {
        Ok(TurnOutcomeView::Reply(_)) => seq![
            CommandView::Publish(
                ChatChange::Activity { id: chat_id, state: ChatActivityState::Idle },
            ),
            CommandView::Notify(CliEventView::TextReady { chat_id }),
        ],
        Ok(TurnOutcomeView::PendingTools(_)) => seq![
            CommandView::Notify(CliEventView::ToolCallsPending { chat_id }),
        ],
        Err(error) => error_commands(chat_id, error).push(
            CommandView::Notify(CliEventView::Error { chat_id, message: error }),
        ),
    }
}

// ---------------------------------------------------------------------------
// Laws
// ---------------------------------------------------------------------------

/// Every answer, and all that comes back, keeps the state well-formed.
pub proof fn law_states_stay_well_formed(
    app: AppView,
    press: KeyPress,
    event: CliEventView,
    change: ChatChange,
    chats: Seq<ChatSummaryView>,
    messages: Seq<MessageOutView>,
    chat_id: i64,
    calls: Option<Seq<ToolCallView>>,
    created: Option<i64>,
    message: Option<Seq<char>>,
)
    requires
        app.well_formed(),
    ensures
        key_answer(app, press).app.well_formed(),
        event_answer(app, event).app.well_formed(),
        change_answer(app, change).app.well_formed(),
        with_chats(app, chats).well_formed(),
        with_messages(app, messages).well_formed(),
        with_pending(app, chat_id, calls).well_formed(),
        chat_created_answer(app, created, message).app.well_formed(),
{
}

/// Whether a command has tools run.
pub open spec fn runs_tools(command: CommandView) -> bool {
    command matches CommandView::ResolvePending { approved, .. } && approved
}

/// Whether a command stores what the user said, or starts a turn for it.
pub open spec fn sends(command: CommandView) -> bool {
    command is RunTurn || command is Store || (
    command matches CommandView::CreateChat { first_message } && first_message is Some)
}

/// Tools are run only when the user presses `y` while the calls of the chat that is shown
/// wait for approval, and then for that chat.
pub proof fn law_tools_run_only_when_approved(
    app: AppView,
    press: KeyPress,
    event: CliEventView,
    change: ChatChange,
    created: Option<i64>,
    message: Option<Seq<char>>,
    i: int,
)
    ensures
        0 <= i < key_answer(app, press).commands.len() && runs_tools(
            key_answer(app, press).commands[i],
        ) ==> {
            &&& app.confirms()
            &&& !app.show_help
            &&& press.key == Key::Char('y') || press.key == Key::Char('Y')
            &&& app.active matches Some(chat_id)
            &&& key_answer(app, press).commands[i] == (CommandView::ResolvePending {
                chat_id,
                approved: true,
            })
        },
        0 <= i < event_answer(app, event).commands.len() ==> !runs_tools(
            event_answer(app, event).commands[i],
        ),
        0 <= i < change_answer(app, change).commands.len() ==> !runs_tools(
            change_answer(app, change).commands[i],
        ),
        0 <= i < chat_created_answer(app, created, message).commands.len() ==> !runs_tools(
            chat_created_answer(app, created, message).commands[i],
        ),
{
}

/// While calls of the chat that is shown wait, `y` approves them and `n` declines them;
/// either way they no longer wait.
pub proof fn law_approval_is_asked_once(app: AppView, press: KeyPress)
    requires
        app.confirms(),
        !app.show_help,
        press.key == Key::Char('y') || press.key == Key::Char('Y') || press.key == Key::Char('n')
            || press.key == Key::Char('N'),
    ensures
        key_answer(app, press) == tools_resolved(
            app,
            press.key == Key::Char('y') || press.key == Key::Char('Y'),
        ),
        key_answer(app, press).app.pending is None,
        !key_answer(app, press).app.waiting,
{
}

/// While a turn is under way, no key sends a message or starts another turn for one.
pub proof fn law_one_turn_at_a_time(app: AppView, press: KeyPress, i: int)
    requires
        app.loading,
    ensures
        0 <= i < key_answer(app, press).commands.len() ==> !sends(
            key_answer(app, press).commands[i],
        ),
        message_sent(app) == (Answer { app, commands: seq![] }),
{
}

/// While the help is shown, any key closes it and does nothing else.
pub proof fn law_any_key_closes_the_help(app: AppView, press: KeyPress)
    requires
        app.show_help,
    ensures
        key_answer(app, press) == (Answer {
            app: AppView { show_help: false, ..app },
            commands: seq![],
        }),
{
}

/// What is typed in the input line stands there until it is sent, and taking the last
/// character back undoes typing it.
pub proof fn law_typing_is_undone(app: AppView, c: char)
    requires
        app.focus == Focus::Input,
        !app.confirms(),
        !app.show_help,
    ensures
        key_answer(
            key_answer(app, KeyPress { key: Key::Char(c), control: false }).app,
            KeyPress { key: Key::Backspace, control: false },
        ) == (Answer { app, commands: seq![] }),
{
    let typed = key_answer(app, KeyPress { key: Key::Char(c), control: false }).app;
    assert(typed.input.drop_last() =~= app.input);
}

/// What was typed is sent as one message: without the white space around it, once, to the
/// chat that is shown, in which the turn then starts. It is stored as the user's words and
/// gives the chat its title. Where no chat is shown, one is created for it. Blank input is
/// not sent, and nothing is while a turn is under way.
pub proof fn law_sending_stores_and_starts_a_turn(
    app: AppView,
    front: Seq<char>,
    message: Seq<char>,
    back: Seq<char>,
)
    requires
        app.input == front + message + back,
        is_blank(front),
        is_blank(back),
        message.len() > 0 ==> !is_white(message[0]) && !is_white(message.last()),
    ensures
        ({
            let sent = message_sent(app);
            let now_sent = message.len() > 0 && !app.loading;
            &&& !now_sent ==> sent.app == app && sent.commands.len() == 0
            &&& now_sent ==> {
                &&& sent.app.input.len() == 0
                &&& sent.app == (AppView {
                    input: sent.app.input,
                    loading: app.active is Some,
                    loading_chat: if app.active is Some {
                        app.active
                    } else {
                        app.loading_chat
                    },
                    ..app
                })
                &&& app.active is None ==> sent.commands == seq![
                    CommandView::CreateChat { first_message: Some(message) },
                ]
                &&& app.active matches Some(chat_id) ==> sent.commands == seq![
                    CommandView::UpdateTitle { chat_id, message },
                    CommandView::Store(
                        NewMessageView {
                            chat_id,
                            role: "user"@,
                            content: message,
                            name: None,
                            images: None,
                            tool_calls: None,
                        },
                    ),
                    CommandView::Publish(ChatChange::Upsert { id: chat_id }),
                    CommandView::LoadChats,
                    CommandView::LoadMessages { chat_id },
                    CommandView::Publish(
                        ChatChange::Activity { id: chat_id, state: ChatActivityState::Thinking },
                    ),
                    CommandView::RunTurn { chat_id },
                ]
            }
        }),
{
    crate::text::law_trimming_takes_blank_ends(front, message, back);
}

/// The chat that is shown asks for confirmation exactly where the calls that wait are its
/// own, and thinks exactly where the turn that is under way is its own.
pub proof fn law_what_the_shown_chat_does(app: AppView, chat_id: i64)
    requires
        app.active == Some(chat_id),
    ensures
        app.confirms() <==> (app.pending matches Some((waiting, _)) && waiting == chat_id),
        app.thinks() <==> app.loading && app.loading_chat == Some(chat_id),
{
}

/// Where no chat is shown, none asks for confirmation.
pub proof fn law_no_chat_asks_where_none_is_shown(app: AppView)
    requires
        app.active is None,
    ensures
        !app.confirms(),
{
}

/// A turn starts in the chat that is shown: others are told, and the turn is run for it.
pub proof fn law_turns_start_in_the_shown_chat(app: AppView)
    ensures
        turn_starts(app).app == (AppView { loading: true, loading_chat: app.active, ..app }),
        app.active is None ==> turn_starts(app).commands.len() == 0,
        app.active matches Some(chat_id) ==> turn_starts(app).commands == seq![
            CommandView::Publish(
                ChatChange::Activity { id: chat_id, state: ChatActivityState::Thinking },
            ),
            CommandView::RunTurn { chat_id },
        ],
{
}

/// A chat that was created is shown, empty and first in the list, and others are told. The
/// message that it was created for is then sent to it as to any chat that is shown. Where it
/// could not be created, nothing changes.
pub proof fn law_created_chats_are_shown(app: AppView, chat_id: i64, message: Seq<char>)
    requires
        message.len() > 0,
        !is_white(message[0]),
        !is_white(message.last()),
        !app.loading,
    ensures
        chat_created_answer(app, None, Some(message)) == (Answer { app, commands: seq![] }),
        chat_created_answer(app, None, None) == (Answer { app, commands: seq![] }),
        ({
            let shown = AppView {
                sidebar_index: 0,
                active: Some(chat_id),
                messages: seq![],
                input: seq![],
                focus: Focus::Input,
                scroll: 0,
                ..app
            };
            let opened = seq![
                CommandView::Publish(ChatChange::Upsert { id: chat_id }),
                CommandView::LoadChats,
            ];
            let sent = message_sent(AppView { input: message, ..shown });
            &&& chat_created_answer(app, Some(chat_id), None) == (Answer {
                app: shown,
                commands: opened,
            })
            &&& chat_created_answer(app, Some(chat_id), Some(message)).app == sent.app
            &&& chat_created_answer(app, Some(chat_id), Some(message)).commands == opened
                + sent.commands
        }),
{
    crate::text::lemma_trim_fixed(message);
}

/// The message that a chat was created for is stored in that chat as it stands and its turn
/// starts there, whatever was under way before.
pub proof fn law_created_chats_get_their_message(
    app: AppView,
    chat_id: i64,
    message: Seq<char>,
)
    ensures
        chat_created_answer(app, Some(chat_id), Some(message)).app == (AppView {
            sidebar_index: 0,
            active: Some(chat_id),
            messages: seq![],
            input: seq![],
            focus: Focus::Input,
            scroll: 0,
            loading: true,
            loading_chat: Some(chat_id),
            ..app
        }),
        chat_created_answer(app, Some(chat_id), Some(message)).commands == seq![
            CommandView::Publish(ChatChange::Upsert { id: chat_id }),
            CommandView::LoadChats,
            CommandView::UpdateTitle { chat_id, message },
            CommandView::Store(
                NewMessageView {
                    chat_id,
                    role: "user"@,
                    content: message,
                    name: None,
                    images: None,
                    tool_calls: None,
                },
            ),
            CommandView::Publish(ChatChange::Upsert { id: chat_id }),
            CommandView::LoadChats,
            CommandView::LoadMessages { chat_id },
            CommandView::Publish(
                ChatChange::Activity { id: chat_id, state: ChatActivityState::Thinking },
            ),
            CommandView::RunTurn { chat_id },
        ],
{
}

/// The calls that wait are asked for exactly where a chat is shown and they are not known
/// to be its own already.
pub proof fn law_waiting_calls_are_asked_for(app: AppView)
    ensures
        app.active is None ==> pending_commands(app).len() == 0,
        app.active matches Some(chat_id) ==> pending_commands(app) == (
        if app.pending matches Some((waiting, _)) && waiting == chat_id {
            seq![]
        } else {
            seq![CommandView::LoadPending { chat_id }]
        }),
{
}

/// What a key does in the list and in the input line does not depend on where the keys go,
/// and what it does while calls wait does not depend on whose they are.
pub proof fn law_keys_mean_the_same_everywhere(app: AppView, key: Key, other: Focus, chat: i64)
    ensures
        ({
            let moved = AppView { focus: other, ..app };
            &&& sidebar_key(moved, key).commands == sidebar_key(app, key).commands
            &&& input_key(moved, key).commands == input_key(app, key).commands
            &&& confirmation_key(moved, key).commands == confirmation_key(app, key).commands
            &&& input_key(moved, key).app.input == input_key(app, key).app.input
            &&& sidebar_key(moved, key).app.sidebar_index == sidebar_key(app, key).app.sidebar_index
            &&& confirmation_key(AppView { active: Some(chat), ..app }, key).commands
                == confirmation_key(app, key).commands
        }),
{
}

/// Selecting a chat of the list shows that chat and loads its messages, and the calls in
/// it that wait where they are not shown already; there is nothing else to select.
pub proof fn law_selected_chats_are_shown(app: AppView, index: nat)
    ensures
        index >= app.chats.len() ==> chat_selected(app, index) == (Answer {
            app,
            commands: seq![],
        }),
        index < app.chats.len() ==> {
            let chat_id = app.chats[index as int].id;
            let known = app.pending matches Some((waiting, _)) && waiting == chat_id;
            &&& chat_selected(app, index).app == (AppView {
                active: Some(chat_id),
                focus: Focus::Input,
                ..app
            })
            &&& known ==> chat_selected(app, index).commands == seq![
                CommandView::LoadMessages { chat_id },
            ]
            &&& !known ==> chat_selected(app, index).commands == seq![
                CommandView::LoadMessages { chat_id },
                CommandView::LoadPending { chat_id },
            ]
        },
{
    if index < app.chats.len() {
        let chat_id = app.chats[index as int].id;
        assert(seq![CommandView::LoadMessages { chat_id }] + seq![] =~= seq![
            CommandView::LoadMessages { chat_id },
        ]);
        assert(seq![CommandView::LoadMessages { chat_id }] + seq![
            CommandView::LoadPending { chat_id },
        ] =~= seq![
            CommandView::LoadMessages { chat_id },
            CommandView::LoadPending { chat_id },
        ]);
    }
}

/// The user's answer goes to the chat whose calls wait: they wait no longer, the chat
/// thinks, and its calls are resolved with that answer. Where none wait there is nothing to
/// answer.
pub proof fn law_answers_go_to_the_waiting_chat(app: AppView, approved: bool)
    ensures
        app.pending is None ==> tools_resolved(app, approved) == (Answer {
            app,
            commands: seq![],
        }),
        app.pending matches Some((chat_id, _)) ==> tools_resolved(app, approved) == (Answer {
            app: AppView {
                pending: None,
                waiting: false,
                loading: true,
                loading_chat: Some(chat_id),
                ..app
            },
            commands: seq![
                CommandView::Publish(
                    ChatChange::Activity { id: chat_id, state: ChatActivityState::Thinking },
                ),
                CommandView::ResolvePending { chat_id, approved },
            ],
        }),
{
}

/// What was loaded is taken in and changes nothing else: messages are shown from their
/// end, a shorter list of chats moves the selection to its last, and calls that wait are
/// shown from their beginning; that none wait changes nothing.
pub proof fn law_loaded_things_are_taken_in(
    app: AppView,
    chats: Seq<ChatSummaryView>,
    messages: Seq<MessageOutView>,
    chat_id: i64,
    calls: Seq<ToolCallView>,
)
    ensures
        with_messages(app, messages) == (AppView { messages, scroll: 0, ..app }),
        with_chats(app, chats).chats == chats,
        with_chats(app, chats) == (AppView {
            chats,
            sidebar_index: with_chats(app, chats).sidebar_index,
            ..app
        }),
        app.sidebar_index < chats.len() || chats.len() == 0 ==> with_chats(app, chats).sidebar_index
            == app.sidebar_index,
        0 < chats.len() <= app.sidebar_index ==> with_chats(app, chats).sidebar_index + 1
            == chats.len(),
        with_pending(app, chat_id, Some(calls)) == (AppView {
            pending: Some((chat_id, calls)),
            confirmation_scroll: 0,
            waiting: true,
            ..app
        }),
        with_pending(app, chat_id, None) == app,
{
}

/// Keys in the input line: characters are typed behind what stands there and taken back
/// from its end, the tabulator goes to the list of chats, and the enter key sends, or ends
/// the program where the command to do so was typed. Other keys do nothing.
pub proof fn law_keys_in_the_input_line(app: AppView, press: KeyPress, c: char)
    requires
        app.focus == Focus::Input,
        !app.show_help,
        app.pending matches Some((waiting, _)) ==> app.active != Some(waiting),
    ensures
        ({
            let answer = key_answer(app, press);
            let ends = press.key == Key::Esc || (press.key == Key::Char('c') && press.control);
            let here = AppView { exit: app.exit || ends, ..app };
            &&& press.key == Key::Char(c) ==> answer == (Answer {
                app: AppView { input: app.input.push(c), ..here },
                commands: seq![],
            })
            &&& press.key == Key::Backspace && app.input.len() > 0 ==> answer == (Answer {
                app: AppView { input: app.input.take(app.input.len() - 1), ..app },
                commands: seq![],
            })
            &&& press.key == Key::Backspace && app.input.len() == 0 ==> answer == (Answer {
                app,
                commands: seq![],
            })
            &&& press.key == Key::Tab ==> answer == (Answer {
                app: AppView { focus: Focus::Sidebar, ..app },
                commands: seq![],
            })
            &&& press.key == Key::Enter && trim(app.input) == "/exit"@ ==> answer == (Answer {
                app: AppView { input: seq![], exit: true, ..app },
                commands: seq![],
            })
            &&& press.key == Key::Enter && trim(app.input) != "/exit"@ ==> answer == message_sent(
                app,
            )
            &&& press.key == Key::Esc || press.key == Key::Up || press.key == Key::Down || press.key
                == Key::Other ==> answer == (Answer { app: here, commands: seq![] })
        }),
{
    if app.input.len() > 0 {
        assert(app.input.drop_last() =~= app.input.take(app.input.len() - 1));
    }
}

/// Keys in the list of chats: the selection moves by one and stays in the list, the enter
/// key shows the chat that is selected, `n` creates one, `d` deletes the one that is
/// selected and tells others, the tabulator goes to the input line, `?` shows the help, and
/// `q` ends the program. Other keys do nothing.
pub proof fn law_keys_in_the_list(app: AppView, press: KeyPress)
    requires
        app.focus == Focus::Sidebar,
        !app.show_help,
        app.pending matches Some((waiting, _)) ==> app.active != Some(waiting),
    ensures
        ({
            let answer = key_answer(app, press);
            let key = press.key;
            let ends = key == Key::Esc || key == Key::Char('q') || (key == Key::Char('c')
                && press.control);
            let up = key == Key::Up || key == Key::Char('k');
            let down = key == Key::Down || key == Key::Char('j');
            let unchanged = Answer { app, commands: seq![] };
            &&& up && app.sidebar_index > 0 ==> answer == (Answer {
                app: AppView { sidebar_index: (app.sidebar_index - 1) as nat, ..app },
                commands: seq![],
            })
            &&& up && app.sidebar_index == 0 ==> answer == unchanged
            &&& down && app.sidebar_index + 1 < app.chats.len() ==> answer == (Answer {
                app: AppView { sidebar_index: app.sidebar_index + 1, ..app },
                commands: seq![],
            })
            &&& down && app.sidebar_index + 1 >= app.chats.len() ==> answer == unchanged
            &&& key == Key::Enter ==> answer == chat_selected(app, app.sidebar_index)
            &&& key == Key::Tab ==> answer == (Answer {
                app: AppView { focus: Focus::Input, ..app },
                commands: seq![],
            })
            &&& key == Key::Char('n') ==> answer == (Answer {
                app,
                commands: seq![CommandView::CreateChat { first_message: None }],
            })
            &&& key == Key::Char('?') ==> answer == (Answer {
                app: AppView { show_help: true, ..app },
                commands: seq![],
            })
            &&& key == Key::Char('d') && app.sidebar_index >= app.chats.len() ==> answer
                == unchanged
            &&& key == Key::Char('d') && app.sidebar_index < app.chats.len() ==> {
                let chat_id = app.chats[app.sidebar_index as int].id;
                &&& answer.commands == seq![
                    CommandView::DeleteChat { chat_id },
                    CommandView::Publish(ChatChange::Deleted { id: chat_id }),
                    CommandView::LoadChats,
                ]
                &&& app.active == Some(chat_id) ==> answer.app == (AppView {
                    active: None,
                    messages: seq![],
                    ..app
                })
                &&& app.active != Some(chat_id) ==> answer.app == app
            }
            &&& ends ==> answer == (Answer { app: AppView { exit: true, ..app }, commands: seq![] })
            &&& key == Key::Backspace || key == Key::Other ==> answer == unchanged
            &&& key matches Key::Char(c) ==> c != 'k' && c != 'j' && c != 'n' && c != 'd' && c
                != '?' && !ends ==> answer == unchanged
        }),
{
}

/// Keys while the calls of the chat that is shown wait: `y` approves, `n` declines, and so
/// does the key that ends the program; the arrows scroll their description by one line,
/// within it. Other keys do nothing.
pub proof fn law_keys_while_calls_wait(app: AppView, press: KeyPress)
    requires
        !app.show_help,
        app.pending matches Some((waiting, _)) && app.active == Some(waiting),
        !(app.focus == Focus::Sidebar && (press.key == Key::Char('?') || press.key == Key::Char(
            'q',
        ))),
        !(press.control && press.key == Key::Char('c')),
    ensures
        ({
            let answer = key_answer(app, press);
            let key = press.key;
            let scrolled = |line: int|
                Answer {
                    app: AppView { confirmation_scroll: line as u16, ..app },
                    commands: seq![],
                };
            let end = confirmation_end(app);
            &&& key == Key::Char('y') || key == Key::Char('Y') ==> answer == tools_resolved(
                app,
                true,
            )
            &&& key == Key::Char('n') || key == Key::Char('N') ==> answer == tools_resolved(
                app,
                false,
            )
            &&& key == Key::Esc ==> answer == tools_resolved(AppView { exit: true, ..app }, false)
            &&& key == Key::Up && app.confirmation_scroll > 0 ==> answer == scrolled(
                app.confirmation_scroll - 1,
            )
            &&& key == Key::Up && app.confirmation_scroll == 0 ==> answer == scrolled(0)
            &&& key == Key::Down && app.confirmation_scroll < end ==> answer == scrolled(
                app.confirmation_scroll + 1,
            )
            &&& key == Key::Down && app.confirmation_scroll >= end ==> answer == scrolled(end)
            &&& key == Key::Enter || key == Key::Tab || key == Key::Backspace || key == Key::Other
                ==> answer == (Answer { app, commands: seq![] })
            &&& key matches Key::Char(c) ==> c != 'y' && c != 'Y' && c != 'n' && c != 'N'
                ==> answer == (Answer { app, commands: seq![] })
        }),
{
}

/// The description of calls that wait takes the lines of each call's description and one
/// more for each call; it can be scrolled to its last line.
pub proof fn law_confirmation_lines(
    app: AppView,
    chat_id: i64,
    front: Seq<ToolCallView>,
    call: ToolCallView,
)
    ensures
        confirmation_lines(seq![]) == 0,
        confirmation_lines(front.push(call)) == confirmation_lines(front) + lines(
            description(call),
        ).len() + 1,
        app.pending == Some((chat_id, front.push(call))) ==> confirmation_end(app) == (
        confirmation_lines(front.push(call)) - 1) % 0x1_0000,
        app.pending == Some((chat_id, Seq::<ToolCallView>::empty())) ==> confirmation_end(app) == 0,
        app.pending is None ==> confirmation_end(app) == 0,
{
    assert(front.push(call).drop_last() =~= front);
}

/// The keys that end the program do so in every state but while the help is shown: the
/// escape key, `c` with the control key, and `q` in the list of chats; and nothing but
/// these keys and the command to do so ends it.
pub proof fn law_some_keys_end_the_program(app: AppView, press: KeyPress)
    requires
        !app.show_help,
        !app.exit,
    ensures
        ({
            let ends = press.key == Key::Esc || (press.key == Key::Char('c') && press.control) || (
            press.key == Key::Char('q') && app.focus == Focus::Sidebar);
            let typed = app.focus == Focus::Input && press.key == Key::Enter && trim(app.input)
                == "/exit"@ && !(app.pending matches Some((waiting, _)) && app.active == Some(waiting));
            key_answer(app, press).app.exit <==> ends || typed
        }),
{
}

/// When a turn in the background ends, no turn is under way any more, and its chat is
/// loaded where it is shown, with its calls where some wait. An error is left in the chat
/// as a reply, and others are told.
pub proof fn law_ended_turns_are_shown(app: AppView, chat_id: i64, error: Seq<char>)
    ensures
        ({
            let idle = AppView {
                loading: false,
                loading_chat: None,
                waiting: app.pending is Some,
                ..app
            };
            let ready = event_answer(app, CliEventView::TextReady { chat_id });
            let waiting = event_answer(app, CliEventView::ToolCallsPending { chat_id });
            let failed = event_answer(app, CliEventView::Error { chat_id, message: error });
            let told = seq![
                CommandView::Store(
                    NewMessageView {
                        chat_id,
                        role: "assistant"@,
                        content: "Error: "@ + error,
                        name: None,
                        images: None,
                        tool_calls: None,
                    },
                ),
                CommandView::Publish(ChatChange::Upsert { id: chat_id }),
                CommandView::Publish(
                    ChatChange::Activity { id: chat_id, state: ChatActivityState::Idle },
                ),
            ];
            &&& ready.app == idle
            &&& waiting.app == idle
            &&& failed.app == idle
            &&& app.active == Some(chat_id) ==> {
                &&& ready.commands == seq![CommandView::LoadMessages { chat_id }]
                &&& waiting.commands == seq![
                    CommandView::LoadMessages { chat_id },
                    CommandView::LoadPending { chat_id },
                ]
                &&& failed.commands == told.push(CommandView::LoadMessages { chat_id })
            }
            &&& app.active != Some(chat_id) ==> {
                &&& ready.commands.len() == 0
                &&& waiting.commands.len() == 0
                &&& failed.commands == told
            }
            &&& outcome_commands(chat_id, Err(error)) == told.push(
                CommandView::Notify(CliEventView::Error { chat_id, message: error }),
            )
        }),
{
}

/// The interface is told of the turn of its chat: of a reply, when others were told that
/// the chat is idle, and of calls that wait.
pub proof fn law_outcomes_are_told(chat_id: i64, text: Seq<char>, calls: Seq<ToolCallView>)
    ensures
        outcome_commands(chat_id, Ok(TurnOutcomeView::Reply(text))) == seq![
            CommandView::Publish(
                ChatChange::Activity { id: chat_id, state: ChatActivityState::Idle },
            ),
            CommandView::Notify(CliEventView::TextReady { chat_id }),
        ],
        outcome_commands(chat_id, Ok(TurnOutcomeView::PendingTools(calls))) == seq![
            CommandView::Notify(CliEventView::ToolCallsPending { chat_id }),
        ],
{
}

/// What others changed is shown: a chat that was deleted is shown no more, and the one
/// that is shown is loaded again when it changed, unless its turn is under way here. A
/// chat that became idle waits for no confirmation, unless its calls are shown. What
/// happens to other chats changes nothing.
pub proof fn law_changes_of_others_are_shown(app: AppView, id: i64, state: ChatActivityState)
    ensures
        ({
            let unchanged = Answer { app, commands: seq![] };
            let known = app.pending matches Some((waiting, _)) && waiting == id;
            &&& app.active != Some(id) ==> {
                &&& change_answer(app, ChatChange::Deleted { id }) == unchanged
                &&& change_answer(app, ChatChange::Upsert { id }) == unchanged
                &&& change_answer(app, ChatChange::Activity { id, state }) == unchanged
            }
            &&& app.active == Some(id) ==> {
                &&& change_answer(app, ChatChange::Deleted { id }) == (Answer {
                    app: AppView { active: None, messages: seq![], ..app },
                    commands: seq![],
                })
                &&& change_answer(app, ChatChange::Upsert { id }).app == app
                &&& change_answer(app, ChatChange::Upsert { id }).commands == (if app.loading {
                    seq![]
                } else if known {
                    seq![CommandView::LoadMessages { chat_id: id }]
                } else {
                    seq![
                        CommandView::LoadMessages { chat_id: id },
                        CommandView::LoadPending { chat_id: id },
                    ]
                })
                &&& change_answer(app, ChatChange::Activity { id, state }) == (if state
                    == ChatActivityState::Idle && !known {
                    Answer { app: AppView { waiting: false, ..app }, commands: seq![] }
                } else {
                    unchanged
                })
            }
        }),
{
    let first = seq![CommandView::LoadMessages { chat_id: id }];
    assert(first + seq![] =~= first);
    assert(first + seq![CommandView::LoadPending { chat_id: id }] =~= seq![
        CommandView::LoadMessages { chat_id: id },
        CommandView::LoadPending { chat_id: id },
    ]);
}

// ---------------------------------------------------------------------------
// Code
// ---------------------------------------------------------------------------

fn no_commands() -> (commands: Vec<Command>)
    ensures
        item_views(commands@) == Seq::<CommandView>::empty(),
{
    let commands: Vec<Command> = Vec::new();
    assert(item_views(commands@) =~= Seq::<CommandView>::empty());
    commands
}

fn push_command(commands: &mut Vec<Command>, command: Command)
    ensures
        item_views(final(commands)@) == item_views(old(commands)@).push(command@),
{
    let ghost before = item_views(commands@);
    let ghost new = command@;
    commands.push(command);
    assert(item_views(commands@) =~= before.push(new));
}

fn push_error(commands: &mut Vec<Command>, chat_id: i64, error: &str)
    ensures
        item_views(final(commands)@) == item_views(old(commands)@) + error_commands(
            chat_id,
            error@,
        ),
{
    let ghost before = item_views(commands@);
    let mut text: String = "Error: ".to_owned();
    text.push_str(error);
    push_command(
        commands,
        Command::Store(add_message(chat_id, "assistant", text.as_str(), None)),
    );
    push_command(commands, Command::Publish(ChatChange::Upsert { id: chat_id }));
    push_command(
        commands,
        Command::Publish(ChatChange::Activity { id: chat_id, state: ChatActivityState::Idle }),
    );
    assert(item_views(commands@) =~= before + error_commands(chat_id, error@));
}

impl App {
    /// The state at the start, before the list of chats was loaded.
    pub fn new() -> (app: App)
        ensures
            app@ == (AppView {
                chats: seq![],
                messages: seq![],
                active: None,
                input: seq![],
                loading: false,
                loading_chat: None,
                sidebar_index: 0,
                focus: Focus::Input,
                scroll: 0,
                confirmation_scroll: 0,
                exit: false,
                show_help: false,
                pending: None,
                waiting: false,
            }),
            app@.well_formed(),
    {
        let app = App {
            chats: Vec::new(),
            messages: Vec::new(),
            active_chat_id: None,
            input: String::new(),
            loading: false,
            loading_chat_id: None,
            sidebar_index: 0,
            focus: Focus::Input,
            scroll: 0,
            confirmation_scroll: 0,
            exit: false,
            show_help: false,
            pending_tool_calls: None,
            waiting_confirmation: false,
        };
        assert(item_views(app.chats@) =~= Seq::<ChatSummaryView>::empty());
        assert(item_views(app.messages@) =~= Seq::<MessageOutView>::empty());
        app
    }

    /// Takes in the list of chats.
    pub fn load_chats(&mut self, chats: Vec<ChatSummary>)
        ensures
            final(self)@ == with_chats(old(self)@, item_views(chats@)),
    {
        self.chats = chats;
        if self.chats.len() > 0 && self.sidebar_index >= self.chats.len() {
            self.sidebar_index = self.chats.len() - 1;
        }
    }

    /// Takes in the messages of the chat that is shown.
    pub fn load_messages(&mut self, messages: Vec<MessageOut>)
        ensures
            final(self)@ == with_messages(old(self)@, item_views(messages@)),
    {
        self.messages = messages;
        self.scroll = 0;
    }

    /// Takes in the calls of a chat that wait, where there are any.
    pub fn load_pending(&mut self, chat_id: i64, calls: Option<Vec<ToolCall>>)
        ensures
            final(self)@ == with_pending(
                old(self)@,
                chat_id,
                match calls {
                    Some(calls) => Some(call_views(calls@)),
                    None => None,
                },
            ),
    {
        if let Some(calls) = calls {
            self.pending_tool_calls = Some((chat_id, calls));
            self.confirmation_scroll = 0;
            self.waiting_confirmation = true;
        }
    }

    /// Whether the chat that is shown is the one whose turn is under way.
    pub fn is_active_chat_loading(&self) -> (yes: bool)
        ensures
            yes == self@.thinks(),
    {
        self.loading && same_chat(self.loading_chat_id, self.active_chat_id)
    }

    /// Whether the calls that wait belong to the chat that is shown.
    pub fn has_pending_confirmation_for_active_chat(&self) -> (yes: bool)
        ensures
            yes == self@.confirms(),
    {
        match &self.pending_tool_calls {
            Some((chat_id, _)) => same_chat(Some(*chat_id), self.active_chat_id),
            None => false,
        }
    }

    /// What has to be loaded to show the calls of the chat that wait: nothing where they
    /// are shown.
    pub fn refresh_pending_for_active_chat(&self) -> (commands: Vec<Command>)
        ensures
            item_views(commands@) == pending_commands(self@),
    {
        let mut commands = no_commands();
        if let Some(chat_id) = self.active_chat_id {
            if !self.has_pending_confirmation_for_active_chat() {
                push_command(&mut commands, Command::LoadPending { chat_id });
            }
        }
        assert(item_views(commands@) =~= pending_commands(self@));
        commands
    }

    /// The number of lines that the calls that wait are described in, one more for each.
    pub fn confirmation_line_count(&self) -> (count: u128)
        ensures
            count == (match self@.pending {
                Some((_, calls)) => confirmation_lines(calls),
                None => 0,
            }),
    {
        match &self.pending_tool_calls {
            None => 0,
            Some((_, calls)) => {
                let mut count: u128 = 0;
                let mut i: usize = 0;
                let ghost all = call_views(calls@);
                assert(all.take(0) =~= Seq::<ToolCallView>::empty());
                while i < calls.len()
                    invariant
                        i <= calls@.len(),
                        all == call_views(calls@),
                        count == confirmation_lines(all.take(i as int)),
                        count <= i * 0x1_0000_0000_0000_0000,
                    decreases calls@.len() - i,
                {
                    let shown = lines_of(tool_call_description(&calls[i]).as_str());
                    let n: usize = shown.len();
                    proof {
                        assert(all.take(i + 1).drop_last() =~= all.take(i as int));
                        assert(all.take(i + 1).last() == calls@[i as int]@);
                        assert(crate::text::views(shown@).len() == n);
                    }
                    count = count + n as u128 + 1;
                    i = i + 1;
                }
                assert(all.take(calls@.len() as int) =~= all);
                count
            },
        }
    }

    /// Shows the chat at `index` of the list.
    pub fn select_chat(&mut self, index: usize) -> (commands: Vec<Command>)
        ensures
            final(self)@ == chat_selected(old(self)@, index as nat).app,
            item_views(commands@) == chat_selected(old(self)@, index as nat).commands,
    {
        let mut commands = no_commands();
        if index < self.chats.len() {
            let chat_id: i64 = self.chats[index].id;
            assert(item_views(self.chats@)[index as int] == self.chats@[index as int]@);
            self.active_chat_id = Some(chat_id);
            self.focus = Focus::Input;
            push_command(&mut commands, Command::LoadMessages { chat_id });
            let mut more = self.refresh_pending_for_active_chat();
            let ghost first = item_views(commands@);
            let ghost second = item_views(more@);
            commands.append(&mut more);
            assert(item_views(commands@) =~= first + second);
            assert(first =~= seq![CommandView::LoadMessages { chat_id }]);
        }
        commands
    }

    /// Takes in that a chat was created, or could not be, and sends `message` to it where
    /// there is one.
    pub fn new_chat(&mut self, created: Option<i64>, message: Option<String>) -> (commands: Vec<
        Command,
    >)
        ensures
            final(self)@ == chat_created_answer(old(self)@, created, option_view(message)).app,
            item_views(commands@) == chat_created_answer(
                old(self)@,
                created,
                option_view(message),
            ).commands,
    {
        let mut commands = no_commands();
        if let Some(chat_id) = created {
            self.sidebar_index = 0;
            self.active_chat_id = Some(chat_id);
            self.messages = Vec::new();
            self.input = String::new();
            self.focus = Focus::Input;
            self.scroll = 0;
            assert(item_views(self.messages@) =~= Seq::<MessageOutView>::empty());
            push_command(&mut commands, Command::Publish(ChatChange::Upsert { id: chat_id }));
            push_command(&mut commands, Command::LoadChats);
            let ghost opened = item_views(commands@);
            assert(opened =~= seq![
                CommandView::Publish(ChatChange::Upsert { id: chat_id }),
                CommandView::LoadChats,
            ]);
            if let Some(message) = message {
                let mut more = self.send_to(chat_id, message);
                let ghost sent = item_views(more@);
                commands.append(&mut more);
                assert(item_views(commands@) =~= opened + sent);
            }
        }
        commands
    }

    fn send_to(&mut self, chat_id: i64, message: String) -> (commands: Vec<Command>)
        ensures
            final(self)@ == message_goes(old(self)@, chat_id, message@).app,
            item_views(commands@) == message_goes(old(self)@, chat_id, message@).commands,
    {
        let ghost text = message@;
        let mut commands = no_commands();
        let stored = add_message(chat_id, "user", message.as_str(), None);
        push_command(&mut commands, Command::UpdateTitle { chat_id, message });
        push_command(&mut commands, Command::Store(stored));
        push_command(&mut commands, Command::Publish(ChatChange::Upsert { id: chat_id }));
        push_command(&mut commands, Command::LoadChats);
        push_command(&mut commands, Command::LoadMessages { chat_id });
        let ghost first = item_views(commands@);
        assert(first =~= message_commands(chat_id, text));
        let mut more = self.start_turn();
        let ghost second = item_views(more@);
        commands.append(&mut more);
        assert(item_views(commands@) =~= first + second);
        commands
    }

    /// Sends what was typed, unless it is empty or a turn is under way.
    pub fn send_message(&mut self) -> (commands: Vec<Command>)
        ensures
            final(self)@ == message_sent(old(self)@).app,
            item_views(commands@) == message_sent(old(self)@).commands,
    {
        let message = trimmed(self.input.as_str());
        if message.as_str().is_empty() || self.loading {
            return no_commands();
        }
        self.input = String::new();
        match self.active_chat_id {
            Some(chat_id) => self.send_to(chat_id, message),
            None => {
                let mut commands = no_commands();
                push_command(&mut commands, Command::CreateChat { first_message: Some(message) });
                assert(item_views(commands@) =~= message_sent(old(self)@).commands);
                commands
            },
        }
    }

    /// Starts a turn in the chat that is shown.
    pub fn start_turn(&mut self) -> (commands: Vec<Command>)
        ensures
            final(self)@ == turn_starts(old(self)@).app,
            item_views(commands@) == turn_starts(old(self)@).commands,
    {
        self.loading = true;
        self.loading_chat_id = self.active_chat_id;
        let mut commands = no_commands();
        if let Some(chat_id) = self.loading_chat_id {
            push_command(
                &mut commands,
                Command::Publish(
                    ChatChange::Activity { id: chat_id, state: ChatActivityState::Thinking },
                ),
            );
            push_command(&mut commands, Command::RunTurn { chat_id });
        }
        assert(item_views(commands@) =~= turn_starts(old(self)@).commands);
        commands
    }

    fn resolve(&mut self, approved: bool) -> (commands: Vec<Command>)
        ensures
            final(self)@ == tools_resolved(old(self)@, approved).app,
            item_views(commands@) == tools_resolved(old(self)@, approved).commands,
    {
        let mut commands = no_commands();
        let chat_id: i64 = match &self.pending_tool_calls {
            Some((chat_id, _)) => *chat_id,
            None => {
                return commands;
            },
        };
        self.pending_tool_calls = None;
        self.waiting_confirmation = false;
        self.loading = true;
        self.loading_chat_id = Some(chat_id);
        push_command(
            &mut commands,
            Command::Publish(
                ChatChange::Activity { id: chat_id, state: ChatActivityState::Thinking },
            ),
        );
        push_command(&mut commands, Command::ResolvePending { chat_id, approved });
        assert(item_views(commands@) =~= tools_resolved(old(self)@, approved).commands);
        commands
    }

    /// Approves the calls that wait.
    pub fn confirm_tool(&mut self) -> (commands: Vec<Command>)
        ensures
            final(self)@ == tools_resolved(old(self)@, true).app,
            item_views(commands@) == tools_resolved(old(self)@, true).commands,
    {
        self.resolve(true)
    }

    /// Declines the calls that wait.
    pub fn deny_tool(&mut self) -> (commands: Vec<Command>)
        ensures
            final(self)@ == tools_resolved(old(self)@, false).app,
            item_views(commands@) == tools_resolved(old(self)@, false).commands,
    {
        self.resolve(false)
    }

    /// Answers to the event of a turn in the background.
    pub fn handle_event(&mut self, event: CliEvent) -> (commands: Vec<Command>)
        ensures
            final(self)@ == event_answer(old(self)@, event@).app,
            item_views(commands@) == event_answer(old(self)@, event@).commands,
    {
        self.loading = false;
        self.loading_chat_id = None;
        self.waiting_confirmation = self.pending_tool_calls.is_some();
        let mut commands = no_commands();
        match event {
            CliEvent::TextReady { chat_id } => {
                if same_chat(self.active_chat_id, Some(chat_id)) {
                    push_command(&mut commands, Command::LoadMessages { chat_id });
                }
                assert(item_views(commands@) =~= shown_messages(self@, chat_id));
            },
            CliEvent::ToolCallsPending { chat_id } => {
                if same_chat(self.active_chat_id, Some(chat_id)) {
                    push_command(&mut commands, Command::LoadMessages { chat_id });
                    push_command(&mut commands, Command::LoadPending { chat_id });
                    assert(item_views(commands@) =~= seq![
                        CommandView::LoadMessages { chat_id },
                        CommandView::LoadPending { chat_id },
                    ]);
                }
            },
            CliEvent::Error { chat_id, message } => {
                push_error(&mut commands, chat_id, message.as_str());
                if same_chat(self.active_chat_id, Some(chat_id)) {
                    push_command(&mut commands, Command::LoadMessages { chat_id });
                }
                assert(item_views(commands@) =~= error_commands(chat_id, message@)
                    + shown_messages(self@, chat_id));
            },
        }
        commands
    }

    /// Answers to a change that was published.
    pub fn handle_change(&mut self, change: ChatChange) -> (commands: Vec<Command>)
        ensures
            final(self)@ == change_answer(old(self)@, change).app,
            item_views(commands@) == change_answer(old(self)@, change).commands,
    {
        match change {
            ChatChange::Deleted { id } => {
                self.leave_chat(id);
                no_commands()
            },
            ChatChange::Upsert { id } => {
                let mut commands = no_commands();
                if same_chat(self.active_chat_id, Some(id)) && !self.loading {
                    push_command(&mut commands, Command::LoadMessages { chat_id: id });
                    let ghost first = item_views(commands@);
                    let mut more = self.refresh_pending_for_active_chat();
                    let ghost second = item_views(more@);
                    commands.append(&mut more);
                    assert(item_views(commands@) =~= first + second);
                    assert(first =~= seq![CommandView::LoadMessages { chat_id: id }]);
                }
                commands
            },
            ChatChange::Activity { id, state } => {
                if state == ChatActivityState::Idle && same_chat(self.active_chat_id, Some(id))
                    && !self.has_pending_confirmation_for_active_chat() {
                    self.waiting_confirmation = false;
                }
                no_commands()
            },
        }
    }

    fn leave_chat(&mut self, chat_id: i64)
        ensures
            final(self)@ == without_chat(old(self)@, chat_id),
    {
        if same_chat(self.active_chat_id, Some(chat_id)) {
            self.active_chat_id = None;
            self.messages = Vec::new();
            assert(item_views(self.messages@) =~= Seq::<MessageOutView>::empty());
        }
    }

    /// Answers to a key that was pressed.
    pub fn handle_key(&mut self, press: KeyPress) -> (commands: Vec<Command>)
        ensures
            final(self)@ == key_answer(old(self)@, press).app,
            item_views(commands@) == key_answer(old(self)@, press).commands,
    {
        if self.show_help {
            self.show_help = false;
            return no_commands();
        }
        let sidebar: bool = self.focus == Focus::Sidebar;
        match press.key {
            Key::Esc => {
                self.exit = true;
            },
            Key::Char(c) => {
                if (c == 'q' && sidebar) || (c == 'c' && press.control) {
                    self.exit = true;
                } else if c == '?' && sidebar {
                    self.show_help = true;
                    return no_commands();
                }
            },
            _ => {},
        }
        if self.has_pending_confirmation_for_active_chat() {
            self.handle_confirmation_key(press.key)
        } else if sidebar {
            self.handle_sidebar_key(press.key)
        } else {
            self.handle_input_key(press.key)
        }
    }

    fn handle_confirmation_key(&mut self, key: Key) -> (commands: Vec<Command>)
        ensures
            final(self)@ == confirmation_key(old(self)@, key).app,
            item_views(commands@) == confirmation_key(old(self)@, key).commands,
    {
        match key {
            Key::Char(c) => {
                if c == 'y' || c == 'Y' {
                    return self.confirm_tool();
                }
                if c == 'n' || c == 'N' {
                    return self.deny_tool();
                }
            },
            Key::Esc => {
                return self.deny_tool();
            },
            Key::Up => {
                if self.confirmation_scroll > 0 {
                    self.confirmation_scroll = self.confirmation_scroll - 1;
                }
            },
            Key::Down => {
                let count: u128 = self.confirmation_line_count();
                let last: u128 = if count > 0 { count - 1 } else { 0 };
                let end: u128 = last % 0x1_0000;
                if self.confirmation_scroll as u128 + 1 <= end {
                    self.confirmation_scroll = self.confirmation_scroll + 1;
                } else {
                    self.confirmation_scroll = end as u16;
                }
            },
            _ => {},
        }
        no_commands()
    }

    /// Answers to a key in the list of chats.
    pub fn handle_sidebar_key(&mut self, key: Key) -> (commands: Vec<Command>)
        ensures
            final(self)@ == sidebar_key(old(self)@, key).app,
            item_views(commands@) == sidebar_key(old(self)@, key).commands,
    {
        let total: usize = self.chats.len();
        match key {
            Key::Up => {
                if self.sidebar_index > 0 {
                    self.sidebar_index = self.sidebar_index - 1;
                }
            },
            Key::Down => {
                if total > 0 && self.sidebar_index < total - 1 {
                    self.sidebar_index = self.sidebar_index + 1;
                }
            },
            Key::Enter => {
                let index: usize = self.sidebar_index;
                return self.select_chat(index);
            },
            Key::Tab => {
                self.focus = Focus::Input;
            },
            Key::Char(c) => {
                if c == 'k' {
                    if self.sidebar_index > 0 {
                        self.sidebar_index = self.sidebar_index - 1;
                    }
                } else if c == 'j' {
                    if total > 0 && self.sidebar_index < total - 1 {
                        self.sidebar_index = self.sidebar_index + 1;
                    }
                } else if c == 'n' {
                    let mut commands = no_commands();
                    push_command(&mut commands, Command::CreateChat { first_message: None });
                    assert(item_views(commands@) =~= sidebar_key(old(self)@, key).commands);
                    return commands;
                } else if c == 'd' && self.sidebar_index < total {
                    let chat_id: i64 = self.chats[self.sidebar_index].id;
                    assert(item_views(self.chats@)[self.sidebar_index as int]
                        == self.chats@[self.sidebar_index as int]@);
                    self.leave_chat(chat_id);
                    let mut commands = no_commands();
                    push_command(&mut commands, Command::DeleteChat { chat_id });
                    push_command(
                        &mut commands,
                        Command::Publish(ChatChange::Deleted { id: chat_id }),
                    );
                    push_command(&mut commands, Command::LoadChats);
                    assert(item_views(commands@) =~= sidebar_key(old(self)@, key).commands);
                    return commands;
                }
            },
            _ => {},
        }
        no_commands()
    }

    /// Answers to a key in the input line.
    pub fn handle_input_key(&mut self, key: Key) -> (commands: Vec<Command>)
        ensures
            final(self)@ == input_key(old(self)@, key).app,
            item_views(commands@) == input_key(old(self)@, key).commands,
    {
        match key {
            Key::Enter => {
                let typed = trimmed(self.input.as_str());
                if same_text(typed.as_str(), "/exit") {
                    self.input = String::new();
                    self.exit = true;
                } else {
                    return self.send_message();
                }
            },
            Key::Tab => {
                self.focus = Focus::Sidebar;
            },
            Key::Char(c) => {
                self.input.push(c);
            },
            Key::Backspace => {
                let chars = chars_of(self.input.as_str());
                let n: usize = chars.len();
                if n > 0 {
                    let ghost typed = self.input@;
                    self.input = string_of(&chars, 0, n - 1);
                    assert(self.input@ =~= typed.drop_last());
                }
            },
            _ => {},
        }
        no_commands()
    }
}

fn same_chat(a: Option<i64>, b: Option<i64>) -> (same: bool)
    ensures
        same == (a == b),
{
    match (a, b) {
        (Some(x), Some(y)) => x == y,
        (None, None) => true,
        _ => false,
    }
}

// ---------------------------------------------------------------------------
// The event socket
// ---------------------------------------------------------------------------

/// What to do with the connection to the event socket.
#[derive(Clone, Copy, PartialEq, Eq, Structural, Debug)]
pub enum PollStep {
    /// See whether a change came.
    Receive,
    /// Keep it; the poll is over.
    Keep,
    /// Drop it, where there is one, and open another.
    Reconnect,
}

/// How a poll begins: where there is a connection, `current` tells whether it is one to
/// the socket that is there now.
pub fn begin_poll(current: Option<bool>) -> (step: PollStep)
    ensures
        step == (if current == Some(true) {
            PollStep::Receive
        } else {
            PollStep::Reconnect
        }),
{
    match current {
        Some(true) => PollStep::Receive,
        _ => PollStep::Reconnect,
    }
}

/// Takes in what polling gave. Changes are gathered in the order in which they come.
pub fn take_polled(changes: &mut Vec<ChatChange>, polled: Polled) -> (step: PollStep)
    ensures
        match polled {
            Polled::Change(change) => step == PollStep::Receive && final(changes)@ == old(
                changes,
            )@.push(change),
            Polled::Quiet => step == PollStep::Keep && final(changes)@ == old(changes)@,
            Polled::Gone => step == PollStep::Reconnect && final(changes)@ == old(changes)@,
        },
{
    match polled {
        Polled::Change(change) => {
            changes.push(change);
            PollStep::Receive
        },
        Polled::Quiet => PollStep::Keep,
        Polled::Gone => PollStep::Reconnect,
    }
}

/// What is done when a connection was opened anew, or could not be: changes may have been
/// missed, so the chats are loaded.
pub fn reconnected(opened: bool) -> (commands: Vec<Command>)
    ensures
        item_views(commands@) == (if opened {
            seq![CommandView::LoadChats]
        } else {
            seq![]
        }),
{
    let mut commands = no_commands();
    if opened {
        push_command(&mut commands, Command::LoadChats);
        assert(item_views(commands@) =~= seq![CommandView::LoadChats]);
    }
    commands
}

/// How a batch of changes goes on.
#[derive(Debug)]
pub enum BatchStep {
    /// Handle this change.
    Handle(ChatChange),
    /// All are handled: do this at the end.
    Finish(Vec<Command>),
}

/// What a [`BatchStep`] stands for.
pub enum BatchStepView {
    Handle(ChatChange),
    Finish(Seq<CommandView>),
}

impl View for BatchStep {
    type V = BatchStepView;

    open spec fn view(&self) -> BatchStepView {
        match *self {
            BatchStep::Handle(change) => BatchStepView::Handle(change),
            BatchStep::Finish(commands) => BatchStepView::Finish(item_views(commands@)),
        }
    }
}

/// How a batch goes on of which the first `done` changes are handled: each is handled in
/// its turn, and a batch that holds any ends with loading the chats.
pub open spec fn batch_step(changes: Seq<ChatChange>, done: nat) -> BatchStepView {
    if done < changes.len() {
        BatchStepView::Handle(changes[done as int])
    } else if changes.len() > 0 {
        BatchStepView::Finish(seq![CommandView::LoadChats])
    } else {
        BatchStepView::Finish(seq![])
    }
}

/// How a batch goes on of which the first `done` changes are handled.
pub fn next_change(changes: &Vec<ChatChange>, done: usize) -> (step: BatchStep)
    ensures
        step@ == batch_step(changes@, done as nat),
{
    if done < changes.len() {
        return BatchStep::Handle(changes[done]);
    }
    let mut commands = no_commands();
    if changes.len() > 0 {
        push_command(&mut commands, Command::LoadChats);
        assert(item_views(commands@) =~= seq![CommandView::LoadChats]);
    }
    BatchStep::Finish(commands)
}

/// The chats are loaded at the end of a batch exactly where it holds a change.
pub proof fn law_batch_ends_with_loading(changes: Seq<ChatChange>)
    ensures
        batch_step(changes, changes.len()) == BatchStepView::Finish(
            if changes.len() > 0 {
                seq![CommandView::LoadChats]
            } else {
                seq![]
            },
        ),
        forall|i: nat|
            i < changes.len() ==> #[trigger] batch_step(changes, i) == BatchStepView::Handle(
                changes[i as int],
            ),
{
}

/// The view of what came of a turn.
pub open spec fn outcome_view(outcome: Result<TurnOutcome, String>) -> Result<
    TurnOutcomeView,
    Seq<char>,
> {
    match outcome {
        Ok(outcome) => Ok(outcome@),
        Err(error) => Err(error@),
    }
}

/// What is done when a turn in the background has ended.
pub fn report_outcome(outcome: Result<TurnOutcome, String>, chat_id: i64) -> (commands: Vec<
    Command,
>)
    ensures
        item_views(commands@) == outcome_commands(chat_id, outcome_view(outcome)),
{
    let mut commands = no_commands();
    match outcome {
        Ok(TurnOutcome::Reply(_)) => {
            push_command(
                &mut commands,
                Command::Publish(
                    ChatChange::Activity { id: chat_id, state: ChatActivityState::Idle },
                ),
            );
            push_command(&mut commands, Command::Notify(CliEvent::TextReady { chat_id }));
        },
        Ok(TurnOutcome::PendingTools(_)) => {
            push_command(&mut commands, Command::Notify(CliEvent::ToolCallsPending { chat_id }));
        },
        Err(error) => {
            push_error(&mut commands, chat_id, error.as_str());
            push_command(
                &mut commands,
                Command::Notify(CliEvent::Error { chat_id, message: error }),
            );
        },
    }
    assert(item_views(commands@) =~= outcome_commands(chat_id, outcome_view(outcome)));
    commands
}

} // verus!
