//! The web interface: what requests ask for, and what they are answered.

use vstd::prelude::*;

use crate::chat::{
    add_message, new_message, option_call_views, retitled, title_from_message, title_of,
    NewMessageView,
};
use crate::engine::{published, stored, Effect, EffectView, TurnOutcome, TurnOutcomeView};
use crate::events::{ChatActivityState, ChatChange};
use crate::json::{json_text, text_array};
use crate::number::{signed_decimal, signed_text};
use crate::ollama::connect_error;
use crate::paths::{absolute, is_absolute};
use crate::sorting::item_views;
use crate::text::{blank, is_blank, option_views, trim, trimmed};
use crate::tools::{ToolCall, ToolCallView};

verus! {

/// A request to send a message, with images, to a chat whose model may use tools.
#[derive(Debug)]
pub struct ToolChatRequest {
    pub chat_id: Option<i64>,
    pub message: String,
    pub images: Option<Vec<String>>,
}

/// The answer: a text, or tool calls that wait.
#[derive(Debug)]
pub struct ToolChatResponse {
    pub kind: String,
    pub content: String,
    pub tool_calls: Option<Vec<ToolCall>>,
    pub chat_id: i64,
}

/// A request to approve or decline the calls of a chat that wait.
#[derive(Debug)]
pub struct ToolConfirmRequest {
    pub chat_id: i64,
    pub approved: bool,
}

/// What a [`ToolChatResponse`] stands for.
pub struct ToolChatResponseView {
    pub kind: Seq<char>,
    pub content: Seq<char>,
    pub tool_calls: Option<Seq<ToolCallView>>,
    pub chat_id: i64,
}

impl View for ToolChatResponse {
    type V = ToolChatResponseView;

    open spec fn view(&self) -> ToolChatResponseView {
        ToolChatResponseView {
            kind: self.kind@,
            content: self.content@,
            tool_calls: option_call_views(self.tool_calls),
            chat_id: self.chat_id,
        }
    }
}

// ---------------------------------------------------------------------------
// Chats
// ---------------------------------------------------------------------------

/// Which chat a request is for: the one it names, which has to exist, or, where it names
/// none, a new one.
pub fn ensure_chat(chat_id: Option<i64>, exists: bool) -> (chat: Result<Option<i64>, String>)
    ensures
        match chat_id {
            Some(id) => if exists {
                chat matches Ok(Some(found)) && found == id
            } else {
                chat matches Err(error) && error@ == "chat "@ + signed_decimal(id as int)
                    + " not found"@
            },
            None => chat matches Ok(None),
        },
{
    match chat_id {
        Some(id) => if exists {
            Ok(Some(id))
        } else {
            let mut error: String = "chat ".to_owned();
            error.push_str(signed_text(id).as_str());
            error.push_str(" not found");
            Err(error)
        },
        None => Ok(None),
    }
}

/// The chat that a message goes to.
#[derive(Debug)]
pub enum ChatOpening {
    /// One that exists.
    Existing(i64),
    /// A new one with this title.
    Create { title: String },
}

/// What a [`ChatOpening`] stands for.
pub enum ChatOpeningView {
    Existing(i64),
    Create { title: Seq<char> },
}

/// The chat that a message goes to, where the request names `chat_id`: that one, which has
/// to exist, or without it a new one with the beginning of the message as its title.
pub open spec fn opening_of(chat_id: Option<i64>, exists: bool, message: Seq<char>) -> Result<
    ChatOpeningView,
    Seq<char>,
> {
    match chat_id {
        Some(id) => if exists {
            Ok(ChatOpeningView::Existing(id))
        } else {
            Err("chat "@ + signed_decimal(id as int) + " not found"@)
        },
        None => Ok(ChatOpeningView::Create { title: title_of(message) }),
    }
}

/// A message goes to the chat that the request names, and to no other; where that is not
/// there, that is the error. Without a name it goes to a new chat, with the first 50
/// characters of the message as its title.
pub proof fn law_messages_go_to_their_chat(
    id: i64,
    exists: bool,
    head: Seq<char>,
    rest: Seq<char>,
)
    requires
        head.len() == 50 || (head.len() < 50 && rest.len() == 0),
    ensures
        opening_of(Some(id), true, head + rest) == Ok::<ChatOpeningView, Seq<char>>(
            ChatOpeningView::Existing(id),
        ),
        opening_of(Some(id), false, head + rest) == Err::<ChatOpeningView, Seq<char>>(
            "chat "@ + signed_decimal(id as int) + " not found"@,
        ),
        opening_of(None, exists, head + rest) == Ok::<ChatOpeningView, Seq<char>>(
            ChatOpeningView::Create { title: head },
        ),
{
    crate::chat::law_titles_come_from_the_first_message(None, head, rest);
}

/// The view of the chat that a message goes to.
pub open spec fn opening_view(opening: Result<ChatOpening, String>) -> Result<
    ChatOpeningView,
    Seq<char>,
> {
    match opening {
        Ok(ChatOpening::Existing(id)) => Ok(ChatOpeningView::Existing(id)),
        Ok(ChatOpening::Create { title }) => Ok(ChatOpeningView::Create { title: title@ }),
        Err(error) => Err(error@),
    }
}

/// The chat that a message goes to, where the request names `chat_id`.
pub fn open_chat(chat_id: Option<i64>, exists: bool, message: &str) -> (opening: Result<
    ChatOpening,
    String,
>)
    ensures
        opening_view(opening) == opening_of(chat_id, exists, message@),
{
    match ensure_chat(chat_id, exists) {
        Ok(Some(id)) => Ok(ChatOpening::Existing(id)),
        Ok(None) => Ok(ChatOpening::Create { title: title_from_message(message) }),
        Err(error) => Err(error),
    }
}

/// What to do about a working directory that a request names.
#[derive(Debug)]
pub enum WorkdirStep {
    /// It can be set.
    Accept,
    /// It cannot.
    Reject(String),
    /// It has to be a directory that exists.
    Look(String),
}

/// What to do about the working directory that a request names.
pub fn check_workdir(workdir: Option<&str>) -> (step: WorkdirStep)
    ensures
        match workdir {
            Some(dir) => if is_blank(dir@) {
                step is Accept
            } else if absolute(trim(dir@)) {
                step matches WorkdirStep::Look(path) && path@ == trim(dir@)
            } else {
                step matches WorkdirStep::Reject(error) && error@
                    == "workdir must be an absolute path"@
            },
            None => step is Accept,
        },
{
    match workdir {
        None => WorkdirStep::Accept,
        Some(dir) => {
            if blank(dir) {
                return WorkdirStep::Accept;
            }
            let path = trimmed(dir);
            if is_absolute(path.as_str()) {
                WorkdirStep::Look(path)
            } else {
                WorkdirStep::Reject("workdir must be an absolute path".to_owned())
            }
        },
    }
}

/// What to do when it is known whether a directory exists.
pub fn workdir_looked_up(path: &str, is_directory: bool) -> (step: WorkdirStep)
    ensures
        if is_directory {
            step is Accept
        } else {
            step matches WorkdirStep::Reject(error) && error@ == "directory does not exist: "@
                + path@
        },
{
    if is_directory {
        WorkdirStep::Accept
    } else {
        let mut error: String = "directory does not exist: ".to_owned();
        error.push_str(path);
        WorkdirStep::Reject(error)
    }
}

/// A working directory can be set where it is an absolute path to a directory that exists,
/// and it can be left out; any other is refused, with the reason.
pub proof fn law_workdirs_are_checked(
    dir: &str,
    path: &str,
    missing: WorkdirStep,
    asked: WorkdirStep,
    found: WorkdirStep,
    lost: WorkdirStep,
)
    requires
        call_ensures(check_workdir, (None,), missing),
        call_ensures(check_workdir, (Some(dir),), asked),
        call_ensures(workdir_looked_up, (path, true), found),
        call_ensures(workdir_looked_up, (path, false), lost),
    ensures
        missing is Accept,
        asked is Accept <==> is_blank(dir@),
        !is_blank(dir@) && trim(dir@)[0] == '/' ==> (asked matches WorkdirStep::Look(text) && text@
            == trim(dir@)),
        !is_blank(dir@) && trim(dir@)[0] != '/' ==> (asked matches WorkdirStep::Reject(error)
            && error@ == "workdir must be an absolute path"@),
        found is Accept,
        lost matches WorkdirStep::Reject(error) && error@ == "directory does not exist: "@ + path@,
{
    crate::text::lemma_trim_bounds(dir@);
}

// ---------------------------------------------------------------------------
// Turns
// ---------------------------------------------------------------------------

/// The answer that tells what came of a turn.
pub open spec fn response_of(chat_id: i64, outcome: TurnOutcomeView) -> ToolChatResponseView {
    match outcome {
        TurnOutcomeView::Reply(text) => text_response(chat_id, text),
        TurnOutcomeView::PendingTools(calls) => ToolChatResponseView {
            kind: "tool_calls"@,
            content: seq![],
            tool_calls: Some(calls),
            chat_id,
        },
    }
}

/// The answer that is a text.
pub open spec fn text_response(chat_id: i64, text: Seq<char>) -> ToolChatResponseView {
    ToolChatResponseView { kind: "text"@, content: text, tool_calls: None, chat_id }
}

/// A reply is answered as a text, and calls that wait as calls, all of them; the answer
/// names its chat.
pub proof fn law_answers_tell_the_outcome(
    chat_id: i64,
    text: Seq<char>,
    calls: Seq<ToolCallView>,
)
    ensures
        ({
            let told = response_of(chat_id, TurnOutcomeView::Reply(text));
            &&& told.kind == "text"@
            &&& told.content == text
            &&& told.tool_calls is None
            &&& told.chat_id == chat_id
        }),
        ({
            let told = response_of(chat_id, TurnOutcomeView::PendingTools(calls));
            &&& told.kind == "tool_calls"@
            &&& told.content.len() == 0
            &&& told.tool_calls == Some(calls)
            &&& told.chat_id == chat_id
        }),
{
}

/// The answer that tells what came of a turn.
pub fn turn_response(chat_id: i64, outcome: TurnOutcome) -> (response: ToolChatResponse)
    ensures
        response@ == response_of(chat_id, outcome@),
{
    match outcome {
        TurnOutcome::Reply(text) => ToolChatResponse {
            kind: "text".to_owned(),
            content: text,
            tool_calls: None,
            chat_id,
        },
        TurnOutcome::PendingTools(calls) => ToolChatResponse {
            kind: "tool_calls".to_owned(),
            content: String::new(),
            tool_calls: Some(calls),
            chat_id,
        },
    }
}

/// What the user is told when the model takes no images.
pub open spec fn no_vision_reply(model: Seq<char>) -> Seq<char> {
    "I can't read images \u{2014} the current model '"@ + model
        + "' doesn't support vision. Switch to a vision-capable model (e.g. llava, bakllava, llava-phi3) to send images."@
}

/// What to do with a message that came for a chat.
#[derive(Debug)]
pub enum ToolChatPlan {
    /// Do this, and answer at once.
    Refuse(Vec<Effect>, ToolChatResponse),
    /// Do this, and let the model take its turn.
    TakeTurn(Vec<Effect>),
}

/// What a [`ToolChatPlan`] stands for.
pub enum ToolChatPlanView {
    Refuse(Seq<EffectView>, ToolChatResponseView),
    TakeTurn(Seq<EffectView>),
}

impl View for ToolChatPlan {
    type V = ToolChatPlanView;

    open spec fn view(&self) -> ToolChatPlanView {
        match *self {
            ToolChatPlan::Refuse(effects, response) => ToolChatPlanView::Refuse(
                item_views(effects@),
                response@,
            ),
            ToolChatPlan::TakeTurn(effects) => ToolChatPlanView::TakeTurn(item_views(effects@)),
        }
    }
}

/// What to do with a message that came for a chat: where it has images and the model
/// takes none, the user is told so; the message is kept either way.
pub open spec fn tool_chat_plan(
    chat_id: i64,
    message: Seq<char>,
    images: Option<Seq<Seq<char>>>,
    model: Seq<char>,
    vision: bool,
) -> ToolChatPlanView {
    if (images matches Some(list) && list.len() > 0) && !vision {
        ToolChatPlanView::Refuse(
            seq![
                EffectView::Store(new_message(chat_id, "user"@, message, None, None)),
                EffectView::Store(
                    new_message(chat_id, "assistant"@, no_vision_reply(model), None, None),
                ),
                EffectView::Publish(ChatChange::Upsert { id: chat_id }),
            ],
            text_response(chat_id, no_vision_reply(model)),
        )
    } else {
        ToolChatPlanView::TakeTurn(
            seq![
                EffectView::Publish(ChatChange::Upsert { id: chat_id }),
                EffectView::Store(new_message(chat_id, "user"@, message, None, images)),
                EffectView::Publish(
                    ChatChange::Activity { id: chat_id, state: ChatActivityState::Thinking },
                ),
                EffectView::Publish(ChatChange::Upsert { id: chat_id }),
            ],
        )
    }
}

/// What to do with a message that came for a chat, as an [`crate::engine::Occasion::Request`].
pub fn handle_tool_chat(
    chat_id: i64,
    message: &str,
    images: &Option<Vec<String>>,
    model: &str,
    vision: bool,
) -> (plan: ToolChatPlan)
    ensures
        plan@ == tool_chat_plan(chat_id, message@, option_views(*images), model@, vision),
{
    let has_images: bool = match images {
        Some(list) => list.len() > 0,
        None => false,
    };
    let ghost wanted = tool_chat_plan(chat_id, message@, option_views(*images), model@, vision);
    let mut effects: Vec<Effect> = Vec::new();
    if has_images && !vision {
        let mut reply: String =
            "I can't read images \u{2014} the current model '".to_owned();
        reply.push_str(model);
        reply.push_str(
            "' doesn't support vision. Switch to a vision-capable model (e.g. llava, bakllava, llava-phi3) to send images.",
        );
        effects.push(Effect::Store(add_message(chat_id, "user", message, None)));
        effects.push(Effect::Store(add_message(chat_id, "assistant", reply.as_str(), None)));
        effects.push(Effect::Publish(ChatChange::Upsert { id: chat_id }));
        assert(item_views(effects@) =~= wanted->Refuse_0);
        return ToolChatPlan::Refuse(
            effects,
            ToolChatResponse {
                kind: "text".to_owned(),
                content: reply,
                tool_calls: None,
                chat_id,
            },
        );
    }
    effects.push(Effect::Publish(ChatChange::Upsert { id: chat_id }));
    let stored = match images {
        Some(list) => add_message(chat_id, "user", message, Some(list)),
        None => add_message(chat_id, "user", message, None),
    };
    effects.push(Effect::Store(stored));
    effects.push(
        Effect::Publish(
            ChatChange::Activity { id: chat_id, state: ChatActivityState::Thinking },
        ),
    );
    effects.push(Effect::Publish(ChatChange::Upsert { id: chat_id }));
    assert(item_views(effects@) =~= wanted->TakeTurn_0);
    ToolChatPlan::TakeTurn(effects)
}

/// Images go to a model only where it takes them: a request with images is let through
/// exactly to a model with vision, and one without images to any.
pub proof fn law_images_need_vision(
    chat_id: i64,
    message: Seq<char>,
    images: Option<Seq<Seq<char>>>,
    model: Seq<char>,
    vision: bool,
)
    ensures
        tool_chat_plan(chat_id, message, images, model, vision) is TakeTurn <==> vision
            || images is None || images == Some(Seq::<Seq<char>>::empty()),
{
    if let Some(list) = images {
        if list.len() == 0 {
            assert(list =~= Seq::<Seq<char>>::empty());
        }
    }
}

/// The message that `role` said in a chat, with images as a JSON text.
pub open spec fn said(
    chat_id: i64,
    role: Seq<char>,
    content: Seq<char>,
    images: Option<Seq<char>>,
) -> EffectView {
    EffectView::Store(
        NewMessageView { chat_id, role, content, name: None, images, tool_calls: None },
    )
}

/// A message is stored in its chat as the user wrote it, with its images where the model
/// takes them, before the model takes its turn. Where it does not, the message is stored
/// without them and the user is answered, in the chat and at once, that the model cannot
/// see.
pub proof fn law_requests_are_stored(
    chat_id: i64,
    message: Seq<char>,
    images: Seq<Seq<char>>,
    model: Seq<char>,
    vision: bool,
)
    ensures
        ({
            let changed = EffectView::Publish(ChatChange::Upsert { id: chat_id });
            let thinking = EffectView::Publish(
                ChatChange::Activity { id: chat_id, state: ChatActivityState::Thinking },
            );
            let told = "I can't read images \u{2014} the current model '"@ + model
                + "' doesn't support vision. Switch to a vision-capable model (e.g. llava, bakllava, llava-phi3) to send images."@;
            &&& tool_chat_plan(chat_id, message, None, model, vision) matches
                ToolChatPlanView::TakeTurn(effects) && effects == seq![
                changed,
                said(chat_id, "user"@, message, None),
                thinking,
                changed,
            ]
            &&& images.len() == 0 || vision ==> (tool_chat_plan(
                chat_id,
                message,
                Some(images),
                model,
                vision,
            ) matches ToolChatPlanView::TakeTurn(effects) && effects == seq![
                changed,
                said(chat_id, "user"@, message, Some(json_text(text_array(images)))),
                thinking,
                changed,
            ])
            &&& images.len() > 0 && !vision ==> (tool_chat_plan(
                chat_id,
                message,
                Some(images),
                model,
                vision,
            ) matches ToolChatPlanView::Refuse(effects, answer) && effects == seq![
                said(chat_id, "user"@, message, None),
                said(chat_id, "assistant"@, told, None),
                changed,
            ] && answer.kind == "text"@ && answer.content == told && answer.tool_calls is None
                && answer.chat_id == chat_id)
        }),
{
}

/// What tells that a chat is idle.
pub open spec fn goes_idle(chat_id: i64) -> Seq<EffectView> {
    seq![
        EffectView::Publish(
            ChatChange::Activity { id: chat_id, state: ChatActivityState::Idle },
        ),
    ]
}

fn go_idle(chat_id: i64) -> (effects: Vec<Effect>)
    ensures
        item_views(effects@) == goes_idle(chat_id),
{
    let mut effects: Vec<Effect> = Vec::new();
    effects.push(
        Effect::Publish(ChatChange::Activity { id: chat_id, state: ChatActivityState::Idle }),
    );
    assert(item_views(effects@) =~= goes_idle(chat_id));
    effects
}

/// What to do when a turn failed, and what is answered: the chat becomes idle.
pub fn turn_failed(chat_id: i64, error: &str) -> (answer: (Vec<Effect>, String))
    ensures
        item_views(answer.0@) == goes_idle(chat_id),
        answer.1@ == "Ollama error: "@ + error@,
{
    let mut text: String = "Ollama error: ".to_owned();
    text.push_str(error);
    (go_idle(chat_id), text)
}

/// What to do before calls that wait are resolved.
pub fn confirm_begins(chat_id: i64) -> (effects: Vec<Effect>)
    ensures
        item_views(effects@) == seq![
            EffectView::Publish(
                ChatChange::Activity { id: chat_id, state: ChatActivityState::Thinking },
            ),
        ],
{
    let mut effects: Vec<Effect> = Vec::new();
    effects.push(
        Effect::Publish(
            ChatChange::Activity { id: chat_id, state: ChatActivityState::Thinking },
        ),
    );
    assert(item_views(effects@) =~= seq![
        EffectView::Publish(
            ChatChange::Activity { id: chat_id, state: ChatActivityState::Thinking },
        ),
    ]);
    effects
}

/// What to do when calls could not be resolved, and what is answered: the chat becomes
/// idle.
pub fn confirm_failed(chat_id: i64, error: &str) -> (answer: (Vec<Effect>, String))
    ensures
        item_views(answer.0@) == goes_idle(chat_id),
        answer.1@ == error@,
{
    (go_idle(chat_id), error.to_owned())
}

// ---------------------------------------------------------------------------
// Streamed replies
// ---------------------------------------------------------------------------

/// What to do before the reply to a message is streamed.
pub open spec fn stream_begins(chat_id: i64, message: Seq<char>) -> Seq<EffectView> {
    seq![
        EffectView::Retitle { chat_id, message },
        EffectView::Publish(ChatChange::Upsert { id: chat_id }),
        EffectView::Store(new_message(chat_id, "user"@, message, None, None)),
        EffectView::Publish(
            ChatChange::Activity { id: chat_id, state: ChatActivityState::Thinking },
        ),
    ]
}

/// What to do when the reply `text` was streamed: it is stored, unless it is empty.
pub open spec fn stream_ends(chat_id: i64, text: Seq<char>) -> Seq<EffectView> {
    (if text.len() > 0 {
        seq![
            EffectView::Store(new_message(chat_id, "assistant"@, text, None, None)),
            EffectView::Publish(ChatChange::Upsert { id: chat_id }),
        ]
    } else {
        seq![]
    }).push(
        EffectView::Publish(
            ChatChange::Activity { id: chat_id, state: ChatActivityState::Idle },
        ),
    )
}

/// Before a reply is streamed, its chat gets a title and the message is stored in it as the
/// user wrote it; a reply that was streamed is stored as it came, one that is empty not at
/// all, and then the chat is idle.
pub proof fn law_streamed_replies_are_stored(chat_id: i64, message: Seq<char>, text: Seq<char>)
    ensures
        ({
            let changed = EffectView::Publish(ChatChange::Upsert { id: chat_id });
            let now = |state: ChatActivityState|
                EffectView::Publish(ChatChange::Activity { id: chat_id, state });
            &&& stream_begins(chat_id, message) == seq![
                EffectView::Retitle { chat_id, message },
                changed,
                said(chat_id, "user"@, message, None),
                now(ChatActivityState::Thinking),
            ]
            &&& text.len() > 0 ==> stream_ends(chat_id, text) == seq![
                said(chat_id, "assistant"@, text, None),
                changed,
                now(ChatActivityState::Idle),
            ]
            &&& text.len() == 0 ==> stream_ends(chat_id, text) == seq![now(ChatActivityState::Idle)]
            &&& goes_idle(chat_id) == seq![now(ChatActivityState::Idle)]
        }),
{
}

/// What to do before the reply to a message is streamed, as an
/// [`crate::engine::Occasion::Request`].
pub fn handle_chat(chat_id: i64, message: &str) -> (effects: Vec<Effect>)
    ensures
        item_views(effects@) == stream_begins(chat_id, message@),
{
    let mut effects: Vec<Effect> = Vec::new();
    effects.push(Effect::Retitle { chat_id, message: message.to_owned() });
    effects.push(Effect::Publish(ChatChange::Upsert { id: chat_id }));
    effects.push(Effect::Store(add_message(chat_id, "user", message, None)));
    effects.push(
        Effect::Publish(
            ChatChange::Activity { id: chat_id, state: ChatActivityState::Thinking },
        ),
    );
    assert(item_views(effects@) =~= stream_begins(chat_id, message@));
    effects
}

/// What to do when a reply was streamed, as an [`crate::engine::Occasion::StreamEnd`].
pub fn chat_streamed(chat_id: i64, full_response: &str) -> (effects: Vec<Effect>)
    ensures
        item_views(effects@) == stream_ends(chat_id, full_response@),
{
    let mut effects: Vec<Effect> = Vec::new();
    if !full_response.is_empty() {
        effects.push(Effect::Store(add_message(chat_id, "assistant", full_response, None)));
        effects.push(Effect::Publish(ChatChange::Upsert { id: chat_id }));
    }
    effects.push(
        Effect::Publish(ChatChange::Activity { id: chat_id, state: ChatActivityState::Idle }),
    );
    assert(item_views(effects@) =~= stream_ends(chat_id, full_response@));
    effects
}

/// What to do when Ollama could not be reached, and what is answered: the chat becomes
/// idle.
pub fn chat_unreachable(chat_id: i64, reason: &str) -> (answer: (Vec<Effect>, String))
    ensures
        item_views(answer.0@) == seq![
            EffectView::Publish(
                ChatChange::Activity { id: chat_id, state: ChatActivityState::Idle },
            ),
        ],
        answer.1@ == "Failed to connect to Ollama: "@ + reason@,
{
    (go_idle(chat_id), connect_error(reason))
}

/// Where Ollama cannot be reached, a chat keeps the message of the user and nothing else,
/// and others are told that it changed, that it thinks, and that it is idle; where the
/// chat was made for the message, its title is the beginning of the message.
pub proof fn law_unreachable_chat_keeps_the_message(chat_id: i64, message: Seq<char>)
    ensures
        published(stream_begins(chat_id, message) + goes_idle(chat_id)) == seq![
            ChatChange::Upsert { id: chat_id },
            ChatChange::Activity { id: chat_id, state: ChatActivityState::Thinking },
            ChatChange::Activity { id: chat_id, state: ChatActivityState::Idle },
        ],
        stored(stream_begins(chat_id, message) + goes_idle(chat_id)) == seq![
            new_message(chat_id, "user"@, message, None, None),
        ],
        opening_of(None, false, message) == Ok::<ChatOpeningView, Seq<char>>(
            ChatOpeningView::Create { title: title_of(message) },
        ),
        retitled(Some(title_of(message)), message) matches Some(title) ==> title == title_of(
            message,
        ),
{
    reveal_with_fuel(published, 6);
    reveal_with_fuel(stored, 6);
    let all = stream_begins(chat_id, message) + goes_idle(chat_id);
    assert(all.drop_last() =~= all.take(4));
    assert(all.take(4).drop_last() =~= all.take(3));
    assert(all.take(3).drop_last() =~= all.take(2));
    assert(all.take(2).drop_last() =~= all.take(1));
    assert(all.take(1).drop_last() =~= Seq::<EffectView>::empty());
    assert(published(all) =~= seq![
        ChatChange::Upsert { id: chat_id },
        ChatChange::Activity { id: chat_id, state: ChatActivityState::Thinking },
        ChatChange::Activity { id: chat_id, state: ChatActivityState::Idle },
    ]);
    assert(stored(all) =~= seq![new_message(chat_id, "user"@, message, None, None)]);
}

/// What a browser is told at the end of a request.
#[derive(Clone, Copy, PartialEq, Eq, Structural, Debug)]
pub enum Ending {
    /// What it asked for.
    Answered,
    /// That it asked for a chat that is not there.
    ChatNotFound,
    /// That a working directory cannot be set.
    WorkdirRejected,
    /// That something could not be stored or read.
    StoreFailed,
    /// That Ollama could not be reached.
    Unreachable,
    /// That a turn failed.
    TurnFailed,
    /// That calls could not be resolved.
    ConfirmFailed,
}

/// The status code of an answer: what is wrong with the request is told from what failed
/// here.
pub fn status_code(ending: Ending) -> (code: u16)
    ensures
        code == (match ending {
            Ending::Answered => 200int,
            Ending::ChatNotFound | Ending::WorkdirRejected => 400,
            Ending::StoreFailed | Ending::Unreachable | Ending::TurnFailed
            | Ending::ConfirmFailed => 500,
        }),
{
    match ending {
        Ending::Answered => 200,
        Ending::ChatNotFound => 400,
        Ending::WorkdirRejected => 400,
        Ending::StoreFailed => 500,
        Ending::Unreachable => 500,
        Ending::TurnFailed => 500,
        Ending::ConfirmFailed => 500,
    }
}

/// Whatever goes wrong in a turn, others are told that the chat is idle, and the browser
/// what went wrong; before calls are resolved others are told that the chat thinks.
pub proof fn law_failures_leave_the_chat_idle(
    chat_id: i64,
    error: &str,
    turn: (Vec<Effect>, String),
    confirm: (Vec<Effect>, String),
    lost: (Vec<Effect>, String),
    begun: Vec<Effect>,
)
    requires
        call_ensures(turn_failed, (chat_id, error), turn),
        call_ensures(confirm_failed, (chat_id, error), confirm),
        call_ensures(chat_unreachable, (chat_id, error), lost),
        call_ensures(confirm_begins, (chat_id,), begun),
    ensures
        ({
            let now = |state: ChatActivityState|
                seq![EffectView::Publish(ChatChange::Activity { id: chat_id, state })];
            &&& item_views(turn.0@) == now(ChatActivityState::Idle)
            &&& item_views(confirm.0@) == now(ChatActivityState::Idle)
            &&& item_views(lost.0@) == now(ChatActivityState::Idle)
            &&& item_views(begun@) == now(ChatActivityState::Thinking)
        }),
        turn.1@ == "Ollama error: "@ + error@,
        confirm.1@ == error@,
        lost.1@ == "Failed to connect to Ollama: "@ + error@,
{
}

/// An answer tells by its status whether all went well, whether the request was wrong, or
/// whether something failed here.
pub proof fn law_status_tells_whose_fault_it_is(ending: Ending, code: u16)
    requires
        call_ensures(status_code, (ending,), code),
    ensures
        code == 200 <==> ending == Ending::Answered,
        code == 400 <==> ending == Ending::ChatNotFound || ending == Ending::WorkdirRejected,
        code == 500 <==> ending == Ending::StoreFailed || ending == Ending::Unreachable || ending
            == Ending::TurnFailed || ending == Ending::ConfirmFailed,
{
}

/// What is sent to the browser when the stream broke off.
pub fn stream_failure(reason: &str) -> (text: String)
    ensures
        text@ == "Error: "@ + reason@,
{
    let mut text: String = "Error: ".to_owned();
    text.push_str(reason);
    text
}

} // verus!
