//! Chats and their messages: what the store holds, and what of it a model is sent.

use vstd::prelude::*;

use crate::json::{
    json_text, parsed_strings, strings_from_json, strings_to_json, text_array,
};
use crate::number::{signed_decimal, signed_text};
use crate::sorting::item_views;
use crate::text::{
    blank, copy_option, copy_texts, is_blank, option_view, option_views, prefix, same_text,
    take_chars, views,
};
use crate::tools::{call_views, copy_calls, ToolCall, ToolCallView};

verus! {

/// A request to send a message to a chat.
#[derive(Debug)]
pub struct ChatRequest {
    pub chat_id: Option<i64>,
    pub message: String,
}

/// A chat in the list of chats.
#[derive(Debug)]
pub struct ChatSummary {
    pub id: i64,
    pub title: String,
    pub created_at: String,
    pub message_count: i64,
}

/// A message of a chat.
#[derive(Debug)]
pub struct MessageOut {
    pub id: i64,
    pub role: String,
    pub content: String,
    pub created_at: String,
    pub images: Option<Vec<String>>,
    pub name: Option<String>,
    pub tool_calls: Option<Vec<ToolCall>>,
}

/// A message as a model is sent it.
#[derive(Debug)]
pub struct OllamaChatMessage {
    pub role: String,
    pub content: String,
    pub tool_calls: Option<Vec<ToolCall>>,
    pub name: Option<String>,
    pub images: Option<Vec<String>>,
}

/// The tool calls of a chat that wait for the user's approval.
#[derive(Debug)]
pub struct PendingToolCall {
    pub tool_calls: Vec<ToolCall>,
}

/// A row of the table of messages. The images are a JSON text; of the tool calls, those
/// stand here that could be read.
#[derive(Debug)]
pub struct MessageRow {
    pub id: i64,
    pub role: String,
    pub content: String,
    pub created_at: String,
    pub images: Option<String>,
    pub name: Option<String>,
    pub tool_calls: Option<Vec<ToolCall>>,
}

/// A message that is to be stored. The images are a JSON text.
#[derive(Debug)]
pub struct NewMessage {
    pub chat_id: i64,
    pub role: String,
    pub content: String,
    pub name: Option<String>,
    pub images: Option<String>,
    pub tool_calls: Option<Vec<ToolCall>>,
}

/// What a [`ChatSummary`] stands for.
pub struct ChatSummaryView {
    pub id: i64,
    pub title: Seq<char>,
    pub created_at: Seq<char>,
    pub message_count: i64,
}

/// What a [`MessageOut`] stands for.
pub struct MessageOutView {
    pub id: i64,
    pub role: Seq<char>,
    pub content: Seq<char>,
    pub created_at: Seq<char>,
    pub images: Option<Seq<Seq<char>>>,
    pub name: Option<Seq<char>>,
    pub tool_calls: Option<Seq<ToolCallView>>,
}

/// What an [`OllamaChatMessage`] stands for.
pub struct OllamaChatMessageView {
    pub role: Seq<char>,
    pub content: Seq<char>,
    pub tool_calls: Option<Seq<ToolCallView>>,
    pub name: Option<Seq<char>>,
    pub images: Option<Seq<Seq<char>>>,
}

/// What a [`MessageRow`] stands for.
pub struct MessageRowView {
    pub id: i64,
    pub role: Seq<char>,
    pub content: Seq<char>,
    pub created_at: Seq<char>,
    pub images: Option<Seq<char>>,
    pub name: Option<Seq<char>>,
    pub tool_calls: Option<Seq<ToolCallView>>,
}

/// What a [`NewMessage`] stands for.
pub struct NewMessageView {
    pub chat_id: i64,
    pub role: Seq<char>,
    pub content: Seq<char>,
    pub name: Option<Seq<char>>,
    pub images: Option<Seq<char>>,
    pub tool_calls: Option<Seq<ToolCallView>>,
}

/// The views of tool calls that may be missing.
pub open spec fn option_call_views(calls: Option<Vec<ToolCall>>) -> Option<Seq<ToolCallView>> {
    match calls {
        Some(calls) => Some(call_views(calls@)),
        None => None,
    }
}

impl View for ChatSummary {
    type V = ChatSummaryView;

    open spec fn view(&self) -> ChatSummaryView {
        ChatSummaryView {
            id: self.id,
            title: self.title@,
            created_at: self.created_at@,
            message_count: self.message_count,
        }
    }
}

impl View for MessageOut {
    type V = MessageOutView;

    open spec fn view(&self) -> MessageOutView {
        MessageOutView {
            id: self.id,
            role: self.role@,
            content: self.content@,
            created_at: self.created_at@,
            images: option_views(self.images),
            name: option_view(self.name),
            tool_calls: option_call_views(self.tool_calls),
        }
    }
}

impl View for OllamaChatMessage {
    type V = OllamaChatMessageView;

    open spec fn view(&self) -> OllamaChatMessageView {
        OllamaChatMessageView {
            role: self.role@,
            content: self.content@,
            tool_calls: option_call_views(self.tool_calls),
            name: option_view(self.name),
            images: option_views(self.images),
        }
    }
}

impl View for MessageRow {
    type V = MessageRowView;

    open spec fn view(&self) -> MessageRowView {
        MessageRowView {
            id: self.id,
            role: self.role@,
            content: self.content@,
            created_at: self.created_at@,
            images: option_view(self.images),
            name: option_view(self.name),
            tool_calls: option_call_views(self.tool_calls),
        }
    }
}

impl View for NewMessage {
    type V = NewMessageView;

    open spec fn view(&self) -> NewMessageView {
        NewMessageView {
            chat_id: self.chat_id,
            role: self.role@,
            content: self.content@,
            name: option_view(self.name),
            images: option_view(self.images),
            tool_calls: option_call_views(self.tool_calls),
        }
    }
}

/// What stands for a message holds every part of it, as it is stored and as a model is
/// sent it.
pub proof fn law_messages_are_seen_whole(
    stored: MessageOut,
    sent: OllamaChatMessage,
    row: MessageRow,
    new: NewMessage,
)
    ensures
        stored@.id == stored.id,
        stored@.role == stored.role@,
        stored@.content == stored.content@,
        stored@.created_at == stored.created_at@,
        stored@.images == option_views(stored.images),
        stored@.name == option_view(stored.name),
        stored@.tool_calls == option_call_views(stored.tool_calls),
        sent@.role == sent.role@,
        sent@.content == sent.content@,
        sent@.images == option_views(sent.images),
        sent@.name == option_view(sent.name),
        sent@.tool_calls == option_call_views(sent.tool_calls),
        row@.id == row.id,
        row@.role == row.role@,
        row@.content == row.content@,
        row@.created_at == row.created_at@,
        row@.images == option_view(row.images),
        row@.name == option_view(row.name),
        row@.tool_calls == option_call_views(row.tool_calls),
        new@.chat_id == new.chat_id,
        new@.role == new.role@,
        new@.content == new.content@,
        new@.images == option_view(new.images),
        new@.name == option_view(new.name),
        new@.tool_calls == option_call_views(new.tool_calls),
{
}

impl Clone for ChatSummary {
    fn clone(&self) -> (other: Self)
        ensures
            other@ == self@,
    {
        ChatSummary {
            id: self.id,
            title: self.title.clone(),
            created_at: self.created_at.clone(),
            message_count: self.message_count,
        }
    }
}

fn copy_option_texts(list: &Option<Vec<String>>) -> (other: Option<Vec<String>>)
    ensures
        option_views(other) == option_views(*list),
{
    match list {
        Some(list) => Some(copy_texts(list)),
        None => None,
    }
}

fn copy_option_calls(calls: &Option<Vec<ToolCall>>) -> (other: Option<Vec<ToolCall>>)
    ensures
        option_call_views(other) == option_call_views(*calls),
{
    match calls {
        Some(calls) => Some(copy_calls(calls)),
        None => None,
    }
}

impl Clone for MessageOut {
    fn clone(&self) -> (other: Self)
        ensures
            other@ == self@,
    {
        MessageOut {
            id: self.id,
            role: self.role.clone(),
            content: self.content.clone(),
            created_at: self.created_at.clone(),
            images: copy_option_texts(&self.images),
            name: copy_option(&self.name),
            tool_calls: copy_option_calls(&self.tool_calls),
        }
    }
}

impl Clone for OllamaChatMessage {
    fn clone(&self) -> (other: Self)
        ensures
            other@ == self@,
    {
        OllamaChatMessage {
            role: self.role.clone(),
            content: self.content.clone(),
            tool_calls: copy_option_calls(&self.tool_calls),
            name: copy_option(&self.name),
            images: copy_option_texts(&self.images),
        }
    }
}

impl Clone for PendingToolCall {
    fn clone(&self) -> (other: Self)
        ensures
            call_views(other.tool_calls@) == call_views(self.tool_calls@),
    {
        PendingToolCall { tool_calls: copy_calls(&self.tool_calls) }
    }
}

// ---------------------------------------------------------------------------
// Reading messages
// ---------------------------------------------------------------------------

/// Whether there are tool calls.
pub open spec fn has_calls(calls: Option<Seq<ToolCallView>>) -> bool {
    calls matches Some(calls) && calls.len() > 0
}

/// `calls`, where there are any.
pub open spec fn some_calls(calls: Option<Seq<ToolCallView>>) -> Option<Seq<ToolCallView>> {
    if has_calls(calls) {
        calls
    } else {
        None
    }
}

/// The message that a row holds, given the images that were read from it.
pub open spec fn message_with(
    row: MessageRowView,
    images: Option<Seq<Seq<char>>>,
) -> MessageOutView {
    MessageOutView {
        id: row.id,
        role: row.role,
        content: row.content,
        created_at: row.created_at,
        images,
        name: row.name,
        tool_calls: some_calls(row.tool_calls),
    }
}

/// The message that a row holds. Images that cannot be read are left out.
pub open spec fn message_of(row: MessageRowView) -> MessageOutView {
    message_with(
        row,
        match row.images {
            Some(text) => parsed_strings(text),
            None => None,
        },
    )
}

/// The messages that rows hold.
pub open spec fn messages_of(rows: Seq<MessageRowView>) -> Seq<MessageOutView> {
    Seq::new(rows.len(), |i: int| message_of(rows[i]))
}

fn nonempty_calls(calls: Option<Vec<ToolCall>>) -> (kept: Option<Vec<ToolCall>>)
    ensures
        option_call_views(kept) == some_calls(option_call_views(calls)),
{
    match calls {
        Some(list) => if list.len() > 0 {
            Some(list)
        } else {
            None
        },
        None => None,
    }
}

fn read_row(row: &MessageRow) -> (message: MessageOut)
    ensures
        message@ == message_of(row@),
{
    let images: Option<Vec<String>> = match &row.images {
        Some(text) => strings_from_json(text.as_str()),
        None => None,
    };
    message_from_row(row, images)
}

/// The message that a row holds, given the images that were read from it. Tool calls
/// count only where there are any.
pub fn message_from_row(row: &MessageRow, images: Option<Vec<String>>) -> (message: MessageOut)
    ensures
        message@ == message_with(row@, option_views(images)),
{
    MessageOut {
        id: row.id,
        role: row.role.clone(),
        content: row.content.clone(),
        created_at: row.created_at.clone(),
        images,
        name: copy_option(&row.name),
        tool_calls: nonempty_calls(copy_option_calls(&row.tool_calls)),
    }
}

/// The messages that rows hold.
pub fn get_messages(rows: &Vec<MessageRow>) -> (messages: Vec<MessageOut>)
    ensures
        item_views(messages@) == messages_of(item_views(rows@)),
{
    let mut messages: Vec<MessageOut> = Vec::new();
    let mut i: usize = 0;
    let ghost all = messages_of(item_views(rows@));
    while i < rows.len()
        invariant
            i <= rows@.len(),
            all == messages_of(item_views(rows@)),
            item_views(messages@) == all.take(i as int),
        decreases rows@.len() - i,
    {
        let ghost before = item_views(messages@);
        let message = read_row(&rows[i]);
        let ghost seen = message@;
        messages.push(message);
        proof {
            assert(item_views(rows@)[i as int] == rows@[i as int]@);
            assert(item_views(messages@) =~= before.push(seen));
            assert(all.take(i + 1) =~= all.take(i as int).push(all[i as int]));
        }
        i = i + 1;
    }
    assert(all.take(rows@.len() as int) =~= all);
    messages
}

/// Every row is read as one message, in its place and with all that it holds; only an
/// empty list of tool calls counts as none.
pub proof fn law_rows_are_read_whole(rows: Seq<MessageRowView>, i: int)
    requires
        0 <= i < rows.len(),
    ensures
        messages_of(rows).len() == rows.len(),
        messages_of(rows)[i].id == rows[i].id,
        messages_of(rows)[i].role == rows[i].role,
        messages_of(rows)[i].content == rows[i].content,
        messages_of(rows)[i].created_at == rows[i].created_at,
        messages_of(rows)[i].name == rows[i].name,
        rows[i].images is None ==> messages_of(rows)[i].images is None,
        rows[i].images matches Some(text) ==> messages_of(rows)[i].images == parsed_strings(text),
        rows[i].tool_calls matches Some(calls) ==> calls.len() > 0 ==> messages_of(
            rows,
        )[i].tool_calls == Some(calls),
        rows[i].tool_calls == Some(Seq::<ToolCallView>::empty()) || rows[i].tool_calls is None
            ==> messages_of(rows)[i].tool_calls is None,
{
}

// ---------------------------------------------------------------------------
// Storing messages
// ---------------------------------------------------------------------------

/// The row that a stored message takes, given its number and the time.
pub open spec fn row_of(new: NewMessageView, id: i64, created_at: Seq<char>) -> MessageRowView {
    MessageRowView {
        id,
        role: new.role,
        content: new.content,
        created_at,
        images: new.images,
        name: new.name,
        tool_calls: new.tool_calls,
    }
}

/// A message without tool calls that is to be stored.
pub open spec fn new_message(
    chat_id: i64,
    role: Seq<char>,
    content: Seq<char>,
    name: Option<Seq<char>>,
    images: Option<Seq<Seq<char>>>,
) -> NewMessageView {
    NewMessageView {
        chat_id,
        role,
        content,
        name,
        images: match images {
            Some(list) => Some(json_text(text_array(list))),
            None => None,
        },
        tool_calls: None,
    }
}

/// The result of a tool that is to be stored.
pub open spec fn tool_result(chat_id: i64, tool: Seq<char>, result: Seq<char>) -> NewMessageView {
    new_message(chat_id, "tool"@, result, Some(tool), None)
}

/// The views of images that may be missing.
pub open spec fn image_views(images: Option<&Vec<String>>) -> Option<Seq<Seq<char>>> {
    match images {
        Some(list) => Some(views(list@)),
        None => None,
    }
}

/// A message to store, with the name of its sender. Reading it back gives the same
/// message.
pub fn add_message_with_name(
    chat_id: i64,
    role: &str,
    content: &str,
    name: Option<&str>,
    images: Option<&Vec<String>>,
) -> (new: NewMessage)
    ensures
        new@ == new_message(
            chat_id,
            role@,
            content@,
            match name {
                Some(name) => Some(name@),
                None => None,
            },
            image_views(images),
        ),
        forall|id: i64, created_at: Seq<char>|
            #![trigger row_of(new@, id, created_at)]
            message_of(row_of(new@, id, created_at)) == (MessageOutView {
                id,
                role: role@,
                content: content@,
                created_at,
                images: image_views(images),
                name: match name {
                    Some(name) => Some(name@),
                    None => None,
                },
                tool_calls: None,
            }),
{
    let images_json: Option<String> = match images {
        Some(list) => Some(strings_to_json(list)),
        None => None,
    };
    NewMessage {
        chat_id,
        role: role.to_owned(),
        content: content.to_owned(),
        name: match name {
            Some(name) => Some(name.to_owned()),
            None => None,
        },
        images: images_json,
        tool_calls: None,
    }
}

/// A message to store. Reading it back gives the same message.
pub fn add_message(
    chat_id: i64,
    role: &str,
    content: &str,
    images: Option<&Vec<String>>,
) -> (new: NewMessage)
    ensures
        new@ == new_message(chat_id, role@, content@, None, image_views(images)),
        forall|id: i64, created_at: Seq<char>|
            #![trigger row_of(new@, id, created_at)]
            message_of(row_of(new@, id, created_at)) == (MessageOutView {
                id,
                role: role@,
                content: content@,
                created_at,
                images: image_views(images),
                name: None,
                tool_calls: None,
            }),
{
    add_message_with_name(chat_id, role, content, None, images)
}

/// The result of a tool, to store under the tool's name.
pub fn add_tool_result_message(chat_id: i64, tool_name: &str, result: &str) -> (new: NewMessage)
    ensures
        new@ == tool_result(chat_id, tool_name@, result@),
{
    add_message_with_name(chat_id, "tool", result, Some(tool_name), None)
}

/// A message of the assistant that is to be stored with its tool calls.
pub open spec fn assistant_with_calls(
    chat_id: i64,
    text: Seq<char>,
    calls: Seq<ToolCallView>,
) -> NewMessageView {
    NewMessageView {
        chat_id,
        role: "assistant"@,
        content: text,
        name: None,
        images: None,
        tool_calls: Some(calls),
    }
}

/// A message of the assistant to store with its tool calls.
pub fn add_assistant_message_with_tools(
    chat_id: i64,
    text: &str,
    tool_calls: &Vec<ToolCall>,
) -> (new: NewMessage)
    ensures
        new@ == assistant_with_calls(chat_id, text@, call_views(tool_calls@)),
{
    NewMessage {
        chat_id,
        role: "assistant".to_owned(),
        content: text.to_owned(),
        name: None,
        images: None,
        tool_calls: Some(copy_calls(tool_calls)),
    }
}

/// A message is stored in its own chat as it was written, and read back with its role,
/// content and name; a message without images has none when it is read.
pub proof fn law_messages_are_stored_whole(
    chat_id: i64,
    role: Seq<char>,
    content: Seq<char>,
    name: Option<Seq<char>>,
    images: Option<Seq<Seq<char>>>,
    id: i64,
    created_at: Seq<char>,
)
    ensures
        ({
            let new = new_message(chat_id, role, content, name, images);
            let read = message_of(row_of(new, id, created_at));
            &&& new.chat_id == chat_id
            &&& images is None ==> new.images is None
            &&& images matches Some(list) ==> new.images == Some(json_text(text_array(list)))
            &&& read.id == id
            &&& read.role == role
            &&& read.content == content
            &&& read.created_at == created_at
            &&& read.name == name
            &&& images is None ==> read.images is None
            &&& read.tool_calls is None
        }),
{
}

/// What a tool reported is stored in its chat under the tool's name, as a message of a
/// tool.
pub proof fn law_tool_results_are_stored_whole(
    chat_id: i64,
    tool: Seq<char>,
    result: Seq<char>,
    id: i64,
    created_at: Seq<char>,
)
    ensures
        ({
            let new = tool_result(chat_id, tool, result);
            let read = message_of(row_of(new, id, created_at));
            &&& new.chat_id == chat_id
            &&& read.role == "tool"@
            &&& read.content == result
            &&& read.name == Some(tool)
            &&& read.images is None
            &&& read.tool_calls is None
        }),
{
}

/// A reply with tool calls is stored in its chat with its text and all of its calls, in
/// their order.
pub proof fn law_tool_calls_are_stored_whole(
    chat_id: i64,
    text: Seq<char>,
    calls: Seq<ToolCallView>,
    id: i64,
    created_at: Seq<char>,
)
    requires
        calls.len() > 0,
    ensures
        ({
            let new = assistant_with_calls(chat_id, text, calls);
            let read = message_of(row_of(new, id, created_at));
            &&& new.chat_id == chat_id
            &&& read.role == "assistant"@
            &&& read.content == text
            &&& read.name is None
            &&& read.images is None
            &&& read.tool_calls == Some(calls)
        }),
{
}

// ---------------------------------------------------------------------------
// Titles
// ---------------------------------------------------------------------------

/// The title of a chat that has no message yet.
pub open spec fn untitled() -> Seq<char> {
    "New Chat"@
}

/// The title that a message gives to its chat.
pub open spec fn title_of(message: Seq<char>) -> Seq<char> {
    prefix(message, 50)
}

/// The new title of a chat with the title `current`, when `message` comes: a title is
/// given once.
pub open spec fn retitled(current: Option<Seq<char>>, message: Seq<char>) -> Option<Seq<char>> {
    if current == Some(untitled()) {
        Some(title_of(message))
    } else {
        None
    }
}

/// The title that a message gives to its chat: its first characters.
pub fn title_from_message(message: &str) -> (title: String)
    ensures
        title@ == title_of(message@),
{
    take_chars(message, 50)
}

/// The new title of a chat when a message comes, where it gets one. `current_title` is
/// missing when there is no such chat.
pub fn update_title_from_message(current_title: Option<&str>, message: &str) -> (title: Option<
    String,
>)
    ensures
        option_view(title) == retitled(
            match current_title {
                Some(text) => Some(text@),
                None => None,
            },
            message@,
        ),
{
    match current_title {
        Some(text) => if same_text(text, "New Chat") {
            Some(title_from_message(message))
        } else {
            None
        },
        None => None,
    }
}

/// A chat gets its title, of at most 50 characters, from the first message, and keeps it
/// unless that title is again the one of a new chat.
pub proof fn law_title_given_once(first: Seq<char>, second: Seq<char>)
    requires
        title_of(first) != untitled(),
    ensures
        retitled(Some(untitled()), first) == Some(title_of(first)),
        retitled(Some(title_of(first)), second) is None,
        title_of(first).len() <= 50,
        first.len() <= 50 ==> title_of(first) == first,
{
}

/// A chat that still has the title of a new chat takes the first 50 characters of the
/// message as its title, or the whole message where that is shorter; every other chat
/// keeps its title.
pub proof fn law_titles_come_from_the_first_message(
    current: Option<Seq<char>>,
    head: Seq<char>,
    rest: Seq<char>,
)
    requires
        head.len() == 50 || (head.len() < 50 && rest.len() == 0),
    ensures
        current == Some("New Chat"@) ==> retitled(current, head + rest) == Some(head),
        current != Some("New Chat"@) ==> retitled(current, head + rest) is None,
        title_of(head + rest) == head,
{
    if rest.len() == 0 {
        assert(head + rest =~= head);
    }
    assert((head + rest).take(head.len() as int) =~= head);
}

// ---------------------------------------------------------------------------
// What a model is sent
// ---------------------------------------------------------------------------

/// Whether a model is sent a message: all are sent but empty replies.
pub open spec fn is_sent(message: MessageOutView) -> bool {
    !(message.role == "assistant"@ && !has_calls(message.tool_calls) && is_blank(message.content))
}

/// A message as a model is sent it.
pub open spec fn as_sent(message: MessageOutView) -> OllamaChatMessageView {
    OllamaChatMessageView {
        role: message.role,
        content: message.content,
        tool_calls: some_calls(message.tool_calls),
        name: None,
        images: message.images,
    }
}

/// The message that every conversation begins with.
pub open spec fn system_message() -> OllamaChatMessageView {
    OllamaChatMessageView {
        role: "system"@,
        content: CODING_SYSTEM_PROMPT@,
        tool_calls: None,
        name: None,
        images: None,
    }
}

/// What a model is sent of a chat.
pub open spec fn conversation(messages: Seq<MessageOutView>) -> Seq<OllamaChatMessageView>
    decreases messages.len(),
{
    if messages.len() == 0 {
        seq![system_message()]
    } else if is_sent(messages.last()) {
        conversation(messages.drop_last()).push(as_sent(messages.last()))
    } else {
        conversation(messages.drop_last())
    }
}

/// What a model is told of its work.
pub const CODING_SYSTEM_PROMPT: &'static str = "You are pj, a pragmatic coding agent working directly in the user's filesystem. You get real work done with tools instead of describing what could be done.\n\nWorking rules:\n- Read before you edit: inspect relevant files with read_file/grep/glob so edits match reality.\n- Prefer edit_file with a unique old_string for targeted changes; use write_file only for new files or full rewrites.\n- After code changes, verify with run_command (build/test) when it makes sense.\n- Chain multiple tool calls autonomously to finish the task; execution is already gated by the UI, so never ask the user for permission between steps.\n- Keep prose short: report what you did, what changed, and anything the user must decide. No filler.\nIf you cannot use tools for something, say so plainly.";

/// What a model is told of its work.
pub fn get_coding_system_prompt() -> (prompt: String)
    ensures
        prompt@ == CODING_SYSTEM_PROMPT@,
{
    CODING_SYSTEM_PROMPT.to_owned()
}

/// What a model is sent of a chat with these messages.
pub fn build_messages_from_db(db_msgs: &Vec<MessageOut>) -> (messages: Vec<OllamaChatMessage>)
    ensures
        item_views(messages@) == conversation(item_views(db_msgs@)),
{
    let mut messages: Vec<OllamaChatMessage> = Vec::new();
    messages.push(
        OllamaChatMessage {
            role: "system".to_owned(),
            content: get_coding_system_prompt(),
            tool_calls: None,
            name: None,
            images: None,
        },
    );
    let ghost all = item_views(db_msgs@);
    assert(item_views(messages@) =~= conversation(all.take(0)));
    let mut i: usize = 0;
    while i < db_msgs.len()
        invariant
            i <= db_msgs@.len(),
            all == item_views(db_msgs@),
            item_views(messages@) == conversation(all.take(i as int)),
        decreases db_msgs@.len() - i,
    {
        let m: &MessageOut = &db_msgs[i];
        let ghost before = item_views(messages@);
        proof {
            assert(all[i as int] == m@);
            assert(all.take(i + 1).drop_last() =~= all.take(i as int));
        }
        let tool_calls = nonempty_calls(copy_option_calls(&m.tool_calls));
        if same_text(m.role.as_str(), "assistant") && tool_calls.is_none() && blank(
            m.content.as_str(),
        ) {
            i = i + 1;
            continue;
        }
        let message = OllamaChatMessage {
            role: m.role.clone(),
            content: m.content.clone(),
            tool_calls,
            name: None,
            images: copy_option_texts(&m.images),
        };
        let ghost seen = message@;
        messages.push(message);
        assert(item_views(messages@) =~= before.push(seen));
        i = i + 1;
    }
    assert(all.take(db_msgs@.len() as int) =~= all);
    messages
}

/// A conversation begins with the system prompt and grows with its chat: a message that
/// comes to the chat comes to its end, and nothing else changes.
pub proof fn law_conversation_grows(messages: Seq<MessageOutView>, message: MessageOutView)
    ensures
        conversation(messages).len() >= 1,
        conversation(messages)[0] == system_message(),
        conversation(messages.push(message)) == if is_sent(message) {
            conversation(messages).push(as_sent(message))
        } else {
            conversation(messages)
        },
    decreases messages.len(),
{
    assert(messages.push(message).drop_last() =~= messages);
    if messages.len() > 0 {
        law_conversation_grows(messages.drop_last(), messages.last());
    }
}

/// A message that comes to a chat is sent whole, behind everything that was sent before:
/// with its own role, content and images, and with its tool calls where it has any. Only
/// a reply without tool calls that is blank is left out.
pub proof fn law_messages_are_sent_whole(messages: Seq<MessageOutView>, message: MessageOutView)
    ensures
        ({
            let before = conversation(messages);
            let after = conversation(messages.push(message));
            let with_calls = message.tool_calls is Some && message.tool_calls->0.len() > 0;
            let left_out = message.role == "assistant"@ && !with_calls && is_blank(message.content);
            &&& left_out ==> after == before
            &&& !left_out ==> {
                &&& after.len() == before.len() + 1
                &&& after.take(before.len() as int) == before
                &&& after.last().role == message.role
                &&& after.last().content == message.content
                &&& after.last().images == message.images
                &&& with_calls ==> after.last().tool_calls == message.tool_calls
                &&& !with_calls ==> after.last().tool_calls is None
                &&& after.last().name is None
            }
        }),
{
    law_conversation_grows(messages, message);
    let before = conversation(messages);
    if is_sent(message) {
        assert(before.push(as_sent(message)).take(before.len() as int) =~= before);
    }
}

/// The last message of a chat, unless it is a blank reply without calls, is the last that a
/// model is sent, with all that it holds.
pub proof fn law_last_message_is_sent(
    db_msgs: Vec<MessageOut>,
    messages: Vec<OllamaChatMessage>,
)
    requires
        call_ensures(build_messages_from_db, (&db_msgs,), messages),
        db_msgs@.len() > 0,
    ensures
        ({
            let last = db_msgs@.last();
            let sent = messages@.last();
            let with_calls = last@.tool_calls is Some && last@.tool_calls->0.len() > 0;
            !(last.role@ == "assistant"@ && !with_calls && is_blank(last.content@)) ==> {
                &&& messages@.len() > 1
                &&& sent.role@ == last.role@
                &&& sent.content@ == last.content@
                &&& option_views(sent.images) == option_views(last.images)
                &&& with_calls ==> option_call_views(sent.tool_calls) == option_call_views(
                    last.tool_calls,
                )
                &&& !with_calls ==> sent.tool_calls is None
            }
        }),
{
    let all = item_views(db_msgs@);
    assert(all.last() == db_msgs@.last()@);
    assert(all =~= all.drop_last().push(all.last()));
    law_messages_are_sent_whole(all.drop_last(), all.last());
    law_conversation_opens_with_the_prompt(all.drop_last());
    assert(item_views(messages@).len() == messages@.len());
    assert(item_views(messages@)[messages@.len() - 1] == messages@[messages@.len() - 1]@);
}

/// A chat without messages is sent as the system prompt alone.
pub proof fn law_conversation_opens_with_the_prompt(messages: Seq<MessageOutView>)
    ensures
        conversation(messages).len() > 0,
        conversation(messages)[0].role == "system"@,
        conversation(messages)[0].content == CODING_SYSTEM_PROMPT@,
        conversation(messages)[0].tool_calls is None,
        conversation(messages)[0].images is None,
        conversation(messages)[0].name is None,
        messages.len() == 0 ==> conversation(messages).len() == 1,
        conversation(messages).len() <= messages.len() + 1,
    decreases messages.len(),
{
    if messages.len() > 0 {
        law_conversation_opens_with_the_prompt(messages.drop_last());
    }
}

/// Whatever the user says and a tool reports, a model is sent, also when it is empty.
pub proof fn law_only_empty_replies_are_left_out(message: MessageOutView)
    ensures
        message.role != "assistant"@ ==> is_sent(message),
        has_calls(message.tool_calls) ==> is_sent(message),
        !is_blank(message.content) ==> is_sent(message),
{
}

// ---------------------------------------------------------------------------
// Tool calls that wait
// ---------------------------------------------------------------------------

/// What the store holds of the tool calls of a chat that wait.
#[derive(Debug)]
pub enum StoredCalls {
    /// Nothing.
    Missing,
    /// The calls.
    Read(Vec<ToolCall>),
    /// Something that cannot be read, for the given reason.
    Unreadable(String),
}

/// What a [`StoredCalls`] stands for.
pub enum StoredCallsView {
    Missing,
    Read(Seq<ToolCallView>),
    Unreadable(Seq<char>),
}

impl View for StoredCalls {
    type V = StoredCallsView;

    open spec fn view(&self) -> StoredCallsView {
        match *self {
            StoredCalls::Missing => StoredCallsView::Missing,
            StoredCalls::Read(calls) => StoredCallsView::Read(call_views(calls@)),
            StoredCalls::Unreadable(reason) => StoredCallsView::Unreadable(reason@),
        }
    }
}

/// A change of the table of tool calls that wait, which holds the calls of each chat.
#[derive(Debug)]
pub enum PendingWrite {
    /// Put these calls in the place of those that the chat had.
    Save { chat_id: i64, calls: Vec<ToolCall> },
    /// Take the calls of the chat out.
    Delete { chat_id: i64 },
}

/// What a [`PendingWrite`] stands for.
pub enum PendingWriteView {
    Save { chat_id: i64, calls: Seq<ToolCallView> },
    Delete { chat_id: i64 },
}

impl View for PendingWrite {
    type V = PendingWriteView;

    open spec fn view(&self) -> PendingWriteView {
        match *self {
            PendingWrite::Save { chat_id, calls } => PendingWriteView::Save {
                chat_id,
                calls: call_views(calls@),
            },
            PendingWrite::Delete { chat_id } => PendingWriteView::Delete { chat_id },
        }
    }
}

/// The chat that a change of the table is about.
pub open spec fn chat_written(write: PendingWriteView) -> i64 {
    match write {
        PendingWriteView::Save { chat_id, .. } => chat_id,
        PendingWriteView::Delete { chat_id } => chat_id,
    }
}

/// The table after a change.
pub open spec fn written(
    table: Map<i64, Seq<ToolCallView>>,
    write: PendingWriteView,
) -> Map<i64, Seq<ToolCallView>> {
    match write {
        PendingWriteView::Save { chat_id, calls } => table.insert(chat_id, calls),
        PendingWriteView::Delete { chat_id } => table.remove(chat_id),
    }
}

/// The table after a row of changes.
pub open spec fn all_written(
    table: Map<i64, Seq<ToolCallView>>,
    writes: Seq<PendingWriteView>,
) -> Map<i64, Seq<ToolCallView>>
    decreases writes.len(),
{
    if writes.len() == 0 {
        table
    } else {
        written(all_written(table, writes.drop_last()), writes.last())
    }
}

/// What the table holds of the calls of a chat.
pub open spec fn stored_in(
    table: Map<i64, Seq<ToolCallView>>,
    chat_id: i64,
) -> StoredCallsView {
    if table.contains_key(chat_id) {
        StoredCallsView::Read(table[chat_id])
    } else {
        StoredCallsView::Missing
    }
}

/// The calls of a chat that wait, given what the store holds of them.
pub open spec fn pending_of(chat_id: i64, stored: StoredCallsView) -> Result<
    Option<Seq<ToolCallView>>,
    Seq<char>,
> {
    match stored {
        StoredCallsView::Missing => Ok(None),
        StoredCallsView::Read(calls) => Ok(Some(calls)),
        StoredCallsView::Unreadable(reason) => Err(
            "Corrupt pending tools for chat "@ + signed_decimal(chat_id as int) + ": "@ + reason,
        ),
    }
}

/// The view of calls that may wait, or may be unreadable.
pub open spec fn pending_view(pending: Result<Option<Vec<ToolCall>>, String>) -> Result<
    Option<Seq<ToolCallView>>,
    Seq<char>,
> {
    match pending {
        Ok(Some(calls)) => Ok(Some(call_views(calls@))),
        Ok(None) => Ok(None),
        Err(error) => Err(error@),
    }
}

/// Puts the calls of a chat that wait in the place of those it had.
pub fn save_pending_tools(chat_id: i64, calls: &Vec<ToolCall>) -> (write: PendingWrite)
    ensures
        write@ == (PendingWriteView::Save { chat_id, calls: call_views(calls@) }),
{
    PendingWrite::Save { chat_id, calls: copy_calls(calls) }
}

/// Forgets the calls of a chat that wait.
pub fn delete_pending_tools(chat_id: i64) -> (write: PendingWrite)
    ensures
        write@ == (PendingWriteView::Delete { chat_id }),
{
    PendingWrite::Delete { chat_id }
}

/// The tool calls of a chat that wait for approval, where there are any.
pub fn load_pending_tools(chat_id: i64, stored: StoredCalls) -> (calls: Result<
    Option<Vec<ToolCall>>,
    String,
>)
    ensures
        pending_view(calls) == pending_of(chat_id, stored@),
{
    match stored {
        StoredCalls::Missing => Ok(None),
        StoredCalls::Read(list) => Ok(Some(list)),
        StoredCalls::Unreadable(reason) => {
            let mut error: String = "Corrupt pending tools for chat ".to_owned();
            error.push_str(signed_text(chat_id).as_str());
            error.push_str(": ");
            error.push_str(reason.as_str());
            Err(error)
        },
    }
}

/// Calls that cannot be read are an error that names the chat and the reason; none that
/// was stored is no error.
pub proof fn law_unreadable_calls_are_reported(chat_id: i64, reason: Seq<char>)
    ensures
        pending_of(chat_id, StoredCallsView::Unreadable(reason)) == Err::<
            Option<Seq<ToolCallView>>,
            Seq<char>,
        >("Corrupt pending tools for chat "@ + signed_decimal(chat_id as int) + ": "@ + reason),
        pending_of(chat_id, StoredCallsView::Missing) == Ok::<
            Option<Seq<ToolCallView>>,
            Seq<char>,
        >(None),
{
}

/// Saving the calls of a chat leaves exactly these waiting, deleting them leaves none, and
/// neither touches another chat; what waits is what is loaded.
pub proof fn law_saved_calls_wait_until_deleted(
    table: Map<i64, Seq<ToolCallView>>,
    chat_id: i64,
    other: i64,
    calls: Vec<ToolCall>,
    saved: PendingWrite,
    deleted: PendingWrite,
    loaded: Result<Option<Vec<ToolCall>>, String>,
)
    requires
        call_ensures(save_pending_tools, (chat_id, &calls), saved),
        call_ensures(delete_pending_tools, (chat_id,), deleted),
        call_ensures(load_pending_tools, (chat_id, StoredCalls::Read(calls)), loaded),
    ensures
        stored_in(written(table, saved@), chat_id) == StoredCallsView::Read(call_views(calls@)),
        stored_in(written(table, deleted@), chat_id) == StoredCallsView::Missing,
        other != chat_id ==> stored_in(written(table, saved@), other) == stored_in(table, other),
        other != chat_id ==> stored_in(written(table, deleted@), other) == stored_in(table, other),
        loaded matches Ok(Some(list)) && call_views(list@) == call_views(calls@),
{
}

/// Changes that are about other chats leave the calls of a chat as they are.
pub proof fn law_other_chats_keep_their_calls(
    table: Map<i64, Seq<ToolCallView>>,
    writes: Seq<PendingWriteView>,
    chat_id: i64,
)
    requires
        forall|i: int| 0 <= i < writes.len() ==> chat_written(#[trigger] writes[i]) != chat_id,
    ensures
        stored_in(all_written(table, writes), chat_id) == stored_in(table, chat_id),
    decreases writes.len(),
{
    if writes.len() > 0 {
        let earlier = writes.drop_last();
        assert forall|i: int| 0 <= i < earlier.len() implies chat_written(#[trigger] earlier[i])
            != chat_id by {
            assert(earlier[i] == writes[i]);
        }
        law_other_chats_keep_their_calls(table, earlier, chat_id);
        assert(chat_written(writes.last()) != chat_id);
    }
}

/// Changes follow one another.
proof fn lemma_all_written(
    table: Map<i64, Seq<ToolCallView>>,
    first: Seq<PendingWriteView>,
    second: Seq<PendingWriteView>,
)
    ensures
        all_written(table, first + second) == all_written(all_written(table, first), second),
    decreases second.len(),
{
    if second.len() == 0 {
        assert(first + second =~= first);
    } else {
        assert((first + second).drop_last() =~= first + second.drop_last());
        lemma_all_written(table, first, second.drop_last());
    }
}

/// What was saved last for a chat is what is loaded, in its order and with nothing left
/// of what was there before, whatever was done earlier and is done to other chats later.
pub proof fn law_last_save_is_loaded(
    table: Map<i64, Seq<ToolCallView>>,
    earlier: Seq<PendingWriteView>,
    chat_id: i64,
    calls: Seq<ToolCallView>,
    later: Seq<PendingWriteView>,
)
    requires
        forall|i: int| 0 <= i < later.len() ==> chat_written(#[trigger] later[i]) != chat_id,
    ensures
        pending_of(
            chat_id,
            stored_in(
                all_written(
                    table,
                    earlier.push(PendingWriteView::Save { chat_id, calls }) + later,
                ),
                chat_id,
            ),
        ) == Ok::<Option<Seq<ToolCallView>>, Seq<char>>(Some(calls)),
{
    let saved = earlier.push(PendingWriteView::Save { chat_id, calls });
    lemma_all_written(table, saved, later);
    assert(saved.drop_last() =~= earlier);
    law_other_chats_keep_their_calls(all_written(table, saved), later, chat_id);
}

/// When the calls of a chat were deleted, none is loaded, whatever was done earlier and is
/// done to other chats later.
pub proof fn law_deleted_calls_are_gone(
    table: Map<i64, Seq<ToolCallView>>,
    earlier: Seq<PendingWriteView>,
    chat_id: i64,
    later: Seq<PendingWriteView>,
)
    requires
        forall|i: int| 0 <= i < later.len() ==> chat_written(#[trigger] later[i]) != chat_id,
    ensures
        pending_of(
            chat_id,
            stored_in(
                all_written(table, earlier.push(PendingWriteView::Delete { chat_id }) + later),
                chat_id,
            ),
        ) == Ok::<Option<Seq<ToolCallView>>, Seq<char>>(None),
{
    let deleted = earlier.push(PendingWriteView::Delete { chat_id });
    lemma_all_written(table, deleted, later);
    assert(deleted.drop_last() =~= earlier);
    law_other_chats_keep_their_calls(all_written(table, deleted), later, chat_id);
}

} // verus!
