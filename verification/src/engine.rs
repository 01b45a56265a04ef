//! The agent: what follows from a model's reply, and what follows when the user approves
//! or declines the tool calls in it.

use vstd::prelude::*;

use crate::chat::{
    add_assistant_message_with_tools, add_message, add_tool_result_message, assistant_with_calls,
    has_calls, new_message, pending_view, tool_result, NewMessage, NewMessageView, OllamaChatMessage,
    OllamaChatMessageView,
};
use crate::events::{ChatActivityState, ChatChange};
use crate::markup::{
    law_tool_calls_read_in_order, strip_tool_calls_from_text, tool_call_payloads, tool_call_texts,
    with_tool_calls, without_tool_calls,
};
use crate::number::{signed_decimal, signed_text};
use crate::paths::directory;
use crate::sorting::item_views;
use crate::text::{blank, contains, is_blank, trim, views};
use crate::tools::{
    all_normalized, call_text, call_views, copy_calls, lemma_call_text_is_trimmed,
    normalize_tool_calls, ToolCall, ToolCallView,
};

verus! {

/// What came of a turn.
#[derive(Debug)]
pub enum TurnOutcome {
    /// The model replied.
    Reply(String),
    /// The model wants to use tools, which the user has to approve.
    PendingTools(Vec<ToolCall>),
}

/// What a [`TurnOutcome`] stands for.
pub enum TurnOutcomeView {
    Reply(Seq<char>),
    PendingTools(Seq<ToolCallView>),
}

impl View for TurnOutcome {
    type V = TurnOutcomeView;

    open spec fn view(&self) -> TurnOutcomeView {
        match *self {
            TurnOutcome::Reply(text) => TurnOutcomeView::Reply(text@),
            TurnOutcome::PendingTools(calls) => TurnOutcomeView::PendingTools(call_views(calls@)),
        }
    }
}

/// Something to do for a chat. Publishing may fail without harm.
#[derive(Debug)]
pub enum Effect {
    /// Give a chat its title from a message.
    Retitle { chat_id: i64, message: String },
    /// Store a message.
    Store(NewMessage),
    /// Store the tool calls of a chat that wait.
    SavePending { chat_id: i64, calls: Vec<ToolCall> },
    /// Publish a change.
    Publish(ChatChange),
}

/// What an [`Effect`] stands for.
pub enum EffectView {
    Retitle { chat_id: i64, message: Seq<char> },
    Store(NewMessageView),
    SavePending { chat_id: i64, calls: Seq<ToolCallView> },
    Publish(ChatChange),
}

impl View for Effect {
    type V = EffectView;

    open spec fn view(&self) -> EffectView {
        match *self {
            Effect::Retitle { chat_id, message } => EffectView::Retitle {
                chat_id,
                message: message@,
            },
            Effect::Store(message) => EffectView::Store(message@),
            Effect::SavePending { chat_id, calls } => EffectView::SavePending {
                chat_id,
                calls: call_views(calls@),
            },
            Effect::Publish(change) => EffectView::Publish(change),
        }
    }
}

// ---------------------------------------------------------------------------
// Effects
// ---------------------------------------------------------------------------

/// What effects are done for.
#[derive(Clone, Copy, PartialEq, Eq, Structural, Debug)]
pub enum Occasion {
    /// The end of a turn.
    TurnEnd,
    /// A request of the web interface.
    Request,
    /// The end of a reply that was streamed.
    StreamEnd,
    /// A question on the command line.
    Question,
    /// Telling others of a change.
    Notice,
}

/// Whether something that cannot be stored stops what stands behind it.
pub open spec fn stops_at_failure(occasion: Occasion) -> bool {
    occasion == Occasion::TurnEnd || occasion == Occasion::Request
}

/// How doing a row of effects goes on.
#[derive(Debug)]
pub enum EffectStep {
    /// Do the effect with this number.
    Perform(usize),
    /// All is done.
    Finished,
    /// It failed; nothing more is done.
    Failed(String),
}

/// What an [`EffectStep`] stands for.
pub enum EffectStepView {
    Perform(nat),
    Finished,
    Failed(Seq<char>),
}

impl View for EffectStep {
    type V = EffectStepView;

    open spec fn view(&self) -> EffectStepView {
        match *self {
            EffectStep::Perform(i) => EffectStepView::Perform(i as nat),
            EffectStep::Finished => EffectStepView::Finished,
            EffectStep::Failed(error) => EffectStepView::Failed(error@),
        }
    }
}

/// Whether the failure of the effect with number `i` stops what stands behind it: that of
/// publishing never does.
pub open spec fn failure_matters(occasion: Occasion, effects: Seq<EffectView>, i: int) -> bool {
    stops_at_failure(occasion) && 0 <= i < effects.len() && effects[i] !is Publish
}

/// How doing `effects` goes on when the first `done` were done and `last` came of the
/// last of them.
pub open spec fn effect_step(
    occasion: Occasion,
    effects: Seq<EffectView>,
    done: nat,
    last: Result<(), Seq<char>>,
) -> EffectStepView {
    match last {
        Err(error) if failure_matters(occasion, effects, done - 1) => EffectStepView::Failed(error),
        _ => if done < effects.len() {
            EffectStepView::Perform(done)
        } else {
            EffectStepView::Finished
        },
    }
}

/// How doing `effects` goes on when the first `done` were done and `last` came of the
/// last of them; before the first, `last` is `Ok`.
pub fn next_effect(
    occasion: Occasion,
    effects: &Vec<Effect>,
    done: usize,
    last: Result<(), String>,
) -> (step: EffectStep)
    ensures
        step@ == effect_step(occasion, item_views(effects@), done as nat, stored_view(last)),
{
    let stops: bool = occasion == Occasion::TurnEnd || occasion == Occasion::Request;
    if let Err(error) = last {
        if stops && done > 0 && done <= effects.len() {
            assert(item_views(effects@)[done - 1] == effects@[done - 1]@);
            let published: bool = match &effects[done - 1] {
                Effect::Publish(_) => true,
                _ => false,
            };
            if !published {
                return EffectStep::Failed(error);
            }
        }
    }
    if done < effects.len() {
        EffectStep::Perform(done)
    } else {
        EffectStep::Finished
    }
}

/// What comes of doing `effects` from number `done` on, where `outcomes` is what comes of
/// each: how many are done in all, and whether that succeeds.
pub open spec fn effects_run(
    occasion: Occasion,
    effects: Seq<EffectView>,
    outcomes: Seq<Result<(), Seq<char>>>,
    done: nat,
    last: Result<(), Seq<char>>,
) -> (nat, Result<(), Seq<char>>)
    decreases effects.len() - done,
{
    match effect_step(occasion, effects, done, last) {
        EffectStepView::Perform(i) => if done < effects.len() {
            effects_run(occasion, effects, outcomes, done + 1, outcomes[i as int])
        } else {
            (done, Ok(()))
        },
        EffectStepView::Finished => (done, Ok(())),
        EffectStepView::Failed(error) => (done, Err(error)),
    }
}

/// Whether the effect with number `i` lets those behind it be done.
pub open spec fn lets_go_on(
    occasion: Occasion,
    effects: Seq<EffectView>,
    outcomes: Seq<Result<(), Seq<char>>>,
    i: int,
) -> bool {
    outcomes[i] is Ok || !failure_matters(occasion, effects, i)
}

proof fn lemma_effects_run(
    occasion: Occasion,
    effects: Seq<EffectView>,
    outcomes: Seq<Result<(), Seq<char>>>,
    done: nat,
    last: Result<(), Seq<char>>,
    to: nat,
)
    requires
        done <= to <= effects.len(),
        last is Ok || !failure_matters(occasion, effects, done - 1),
        forall|i: int|
            done <= i < to ==> #[trigger] lets_go_on(occasion, effects, outcomes, i),
    ensures
        effects_run(occasion, effects, outcomes, done, last) == effects_run(
            occasion,
            effects,
            outcomes,
            to,
            if to == done {
                last
            } else {
                outcomes[to - 1]
            },
        ),
    decreases to - done,
{
    if done < to {
        assert(lets_go_on(occasion, effects, outcomes, done as int));
        lemma_effects_run(occasion, effects, outcomes, done + 1, outcomes[done as int], to);
    }
}

/// At the end of a turn and in a request, the first thing that cannot be stored stops all
/// that stands behind it, and its error is what comes of it.
pub proof fn law_failed_store_stops_the_rest(
    occasion: Occasion,
    effects: Seq<EffectView>,
    outcomes: Seq<Result<(), Seq<char>>>,
    k: int,
)
    requires
        stops_at_failure(occasion),
        0 <= k < effects.len(),
        effects[k] !is Publish,
        outcomes[k] is Err,
        forall|i: int| 0 <= i < k ==> #[trigger] lets_go_on(occasion, effects, outcomes, i),
    ensures
        effects_run(occasion, effects, outcomes, 0, Ok(())) == ((k + 1) as nat, outcomes[k]),
{
    lemma_effects_run(occasion, effects, outcomes, 0, Ok(()), k as nat);
    if k > 0 {
        assert(lets_go_on(occasion, effects, outcomes, k - 1));
    }
    reveal_with_fuel(effects_run, 3);
}

/// Where nothing stops it, all is done: on any other occasion whatever fails, and always
/// where nothing but publishing fails.
pub proof fn law_all_effects_are_done(
    occasion: Occasion,
    effects: Seq<EffectView>,
    outcomes: Seq<Result<(), Seq<char>>>,
)
    requires
        !stops_at_failure(occasion) || forall|i: int|
            0 <= i < effects.len() ==> #[trigger] lets_go_on(occasion, effects, outcomes, i),
    ensures
        effects_run(occasion, effects, outcomes, 0, Ok(())) == (
            effects.len(),
            Ok::<(), Seq<char>>(()),
        ),
{
    assert forall|i: int| 0 <= i < effects.len() implies #[trigger] lets_go_on(
        occasion,
        effects,
        outcomes,
        i,
    ) by {
    }
    lemma_effects_run(occasion, effects, outcomes, 0, Ok(()), effects.len());
    if effects.len() > 0 {
        assert(lets_go_on(occasion, effects, outcomes, effects.len() - 1));
    }
}

/// Effects are done one behind the other, each once. At the end of a turn and in a request
/// something that cannot be stored ends them with its error; nothing else does: neither
/// what cannot be published nor any failure on another occasion.
pub proof fn law_effects_follow_one_another(
    occasion: Occasion,
    effects: Seq<EffectView>,
    done: nat,
    error: Seq<char>,
)
    ensures
        ({
            let on = if done < effects.len() {
                EffectStepView::Perform(done)
            } else {
                EffectStepView::Finished
            };
            let strict = occasion == Occasion::TurnEnd || occasion == Occasion::Request;
            let last_stored = 0 < done <= effects.len() && !(effects[done - 1] is Publish);
            &&& effect_step(occasion, effects, done, Ok(())) == on
            &&& strict && last_stored ==> effect_step(occasion, effects, done, Err(error))
                == EffectStepView::Failed(error)
            &&& !(strict && last_stored) ==> effect_step(occasion, effects, done, Err(error)) == on
        }),
{
}

/// The changes that `effects` publish.
pub open spec fn published(effects: Seq<EffectView>) -> Seq<ChatChange>
    decreases effects.len(),
{
    if effects.len() == 0 {
        seq![]
    } else {
        match effects.last() {
            EffectView::Publish(change) => published(effects.drop_last()).push(change),
            _ => published(effects.drop_last()),
        }
    }
}

/// The messages that `effects` store.
pub open spec fn stored(effects: Seq<EffectView>) -> Seq<NewMessageView>
    decreases effects.len(),
{
    if effects.len() == 0 {
        seq![]
    } else {
        match effects.last() {
            EffectView::Store(message) => stored(effects.drop_last()).push(message),
            _ => stored(effects.drop_last()),
        }
    }
}

/// The end of a turn: what to do, as an [`Occasion::TurnEnd`], and what then came of it.
#[derive(Debug)]
pub struct Turn {
    pub effects: Vec<Effect>,
    pub outcome: TurnOutcome,
}

/// What a [`Turn`] stands for.
pub struct TurnView {
    pub effects: Seq<EffectView>,
    pub outcome: TurnOutcomeView,
}

impl View for Turn {
    type V = TurnView;

    open spec fn view(&self) -> TurnView {
        TurnView { effects: item_views(self.effects@), outcome: self.outcome@ }
    }
}

// ---------------------------------------------------------------------------
// Turns
// ---------------------------------------------------------------------------

/// The views of tool calls some of which could not be read.
pub open spec fn parsed_views(parsed: Seq<Option<ToolCall>>) -> Seq<Option<ToolCallView>> {
    Seq::new(
        parsed.len(),
        |i: int|
            match parsed[i] {
                Some(call) => Some(call@),
                None => None,
            },
    )
}

/// The calls that could be read.
pub open spec fn readable(parsed: Seq<Option<ToolCallView>>) -> Seq<ToolCallView>
    decreases parsed.len(),
{
    if parsed.len() == 0 {
        seq![]
    } else {
        match parsed.last() {
            Some(call) => readable(parsed.drop_last()).push(call),
            None => readable(parsed.drop_last()),
        }
    }
}

/// The texts in a reply that are to be read as tool calls: none where the model made its
/// calls in the proper way.
pub open spec fn written_calls(reply: OllamaChatMessageView) -> Seq<Seq<char>> {
    if has_calls(reply.tool_calls) {
        seq![]
    } else {
        tool_call_texts(reply.content)
    }
}

/// The calls that a reply makes. Those in its text count only where there are no others.
pub open spec fn reply_calls(
    reply: OllamaChatMessageView,
    parsed: Seq<Option<ToolCallView>>,
    dir: Option<Seq<char>>,
) -> Seq<ToolCallView> {
    all_normalized(
        if has_calls(reply.tool_calls) {
            reply.tool_calls->0
        } else {
            readable(parsed)
        },
        dir,
    )
}

/// How a turn ends in which a model made `calls` and said `text`.
pub open spec fn turn_end(
    chat_id: i64,
    calls: Seq<ToolCallView>,
    text: Seq<char>,
) -> TurnView {
    if calls.len() > 0 {
        TurnView {
            effects: seq![
                EffectView::Store(assistant_with_calls(chat_id, text, calls)),
                EffectView::SavePending { chat_id, calls },
                EffectView::Publish(ChatChange::Upsert { id: chat_id }),
                EffectView::Publish(
                    ChatChange::Activity {
                        id: chat_id,
                        state: ChatActivityState::AwaitingToolConfirmation,
                    },
                ),
            ],
            outcome: TurnOutcomeView::PendingTools(calls),
        }
    } else if is_blank(text) {
        TurnView { effects: seq![], outcome: TurnOutcomeView::Reply(seq![]) }
    } else {
        TurnView {
            effects: seq![
                EffectView::Store(new_message(chat_id, "assistant"@, text, None, None)),
                EffectView::Publish(ChatChange::Upsert { id: chat_id }),
            ],
            outcome: TurnOutcomeView::Reply(text),
        }
    }
}

/// Of the texts that were read, each that is a call counts as that call, in its place,
/// and no other counts.
pub proof fn law_readable_calls_count(
    front: Seq<Option<ToolCallView>>,
    back: Seq<Option<ToolCallView>>,
    call: ToolCallView,
)
    ensures
        readable(front + back) == readable(front) + readable(back),
        readable(seq![Some(call)]) == seq![call],
        readable(seq![None]) == Seq::<ToolCallView>::empty(),
    decreases back.len(),
{
    reveal_with_fuel(readable, 2);
    assert(seq![Some(call)].drop_last() =~= Seq::<Option<ToolCallView>>::empty());
    assert(readable(seq![Some(call)]) =~= seq![call]);
    assert(seq![None::<ToolCallView>].drop_last() =~= Seq::<Option<ToolCallView>>::empty());
    if back.len() > 0 {
        law_readable_calls_count(front, back.drop_last(), call);
        assert((front + back).drop_last() =~= front + back.drop_last());
        assert((front + back).last() == back.last());
        assert(readable(front + back) =~= readable(front) + readable(back));
    } else {
        assert(front + back =~= front);
        assert(readable(front) + readable(back) =~= readable(front));
    }
}

/// The calls that a model makes in the proper way are its calls, and its text is then not
/// searched for any; otherwise those count that were read from the text. Each is made in
/// its place, as it stands but for its path.
pub proof fn law_reply_makes_its_calls(
    reply: OllamaChatMessageView,
    parsed: Seq<Option<ToolCallView>>,
    dir: Option<Seq<char>>,
    i: int,
)
    ensures
        ({
            let proper = reply.tool_calls is Some && reply.tool_calls->0.len() > 0;
            let made = if proper {
                reply.tool_calls->0
            } else {
                readable(parsed)
            };
            let calls = reply_calls(reply, parsed, dir);
            &&& calls.len() == made.len()
            &&& 0 <= i < made.len() ==> calls[i].name == made[i].name && calls[i]
                == crate::tools::normalized(made[i], dir)
            &&& proper ==> written_calls(reply).len() == 0
            &&& !proper ==> written_calls(reply) == tool_call_texts(reply.content)
        }),
{
    let made = if has_calls(reply.tool_calls) {
        reply.tool_calls->0
    } else {
        readable(parsed)
    };
    if 0 <= i < made.len() {
        crate::tools::law_paths_are_made_absolute(made, dir, i);
    }
}

/// A turn with tool calls stores the text with all of the calls, then the calls as
/// pending, and only then tells others: that the chat changed, and that it waits. A turn
/// with a reply stores the reply and tells others. Everything is about the chat of the
/// turn.
pub proof fn law_turn_ends_in_its_chat(chat_id: i64, calls: Seq<ToolCallView>, text: Seq<char>)
    ensures
        ({
            let turn = turn_end(chat_id, calls, text);
            let changed = EffectView::Publish(ChatChange::Upsert { id: chat_id });
            let message = NewMessageView {
                chat_id,
                role: "assistant"@,
                content: text,
                name: None,
                images: None,
                tool_calls: if calls.len() > 0 {
                    Some(calls)
                } else {
                    None
                },
            };
            &&& calls.len() > 0 ==> {
                &&& turn.outcome == TurnOutcomeView::PendingTools(calls)
                &&& turn.effects == seq![
                    EffectView::Store(message),
                    EffectView::SavePending { chat_id, calls },
                    changed,
                    EffectView::Publish(
                        ChatChange::Activity {
                            id: chat_id,
                            state: ChatActivityState::AwaitingToolConfirmation,
                        },
                    ),
                ]
            }
            &&& calls.len() == 0 && !is_blank(text) ==> {
                &&& turn.outcome == TurnOutcomeView::Reply(text)
                &&& turn.effects == seq![EffectView::Store(message), changed]
            }
            &&& calls.len() == 0 && is_blank(text) ==> {
                &&& turn.outcome == TurnOutcomeView::Reply(seq![])
                &&& turn.effects.len() == 0
            }
        }),
{
}

/// The texts in a reply that are to be read as tool calls.
pub fn calls_to_parse(reply: &OllamaChatMessage) -> (payloads: Vec<String>)
    ensures
        views(payloads@) == written_calls(reply@),
{
    if let Some(calls) = &reply.tool_calls {
        if calls.len() > 0 {
            let none: Vec<String> = Vec::new();
            assert(views(none@) =~= Seq::<Seq<char>>::empty());
            return none;
        }
    }
    tool_call_payloads(reply.content.as_str())
}

/// The calls that could be read, in their order.
pub fn readable_calls(parsed: Vec<Option<ToolCall>>) -> (calls: Vec<ToolCall>)
    ensures
        call_views(calls@) == readable(parsed_views(parsed@)),
{
    let ghost all = parsed_views(parsed@);
    let mut calls: Vec<ToolCall> = Vec::new();
    let mut i: usize = 0;
    assert(all.take(0) =~= Seq::<Option<ToolCallView>>::empty());
    assert(call_views(calls@) =~= Seq::<ToolCallView>::empty());
    while i < parsed.len()
        invariant
            i <= parsed@.len(),
            all == parsed_views(parsed@),
            call_views(calls@) == readable(all.take(i as int)),
        decreases parsed@.len() - i,
    {
        let ghost before = call_views(calls@);
        assert(all.take(i + 1).drop_last() =~= all.take(i as int));
        if let Some(call) = &parsed[i] {
            calls.push(call.clone());
            assert(call_views(calls@) =~= before.push(call@));
        }
        i = i + 1;
    }
    assert(all.take(parsed@.len() as int) =~= all);
    calls
}

/// Ends a turn in which the model sent `reply`. `parsed` is what the texts of
/// [`calls_to_parse`] were read as.
pub fn run_chat_turn(
    chat_id: i64,
    reply: &OllamaChatMessage,
    parsed: Vec<Option<ToolCall>>,
    cwd: Option<&str>,
) -> (turn: Turn)
    ensures
        turn@ == turn_end(
            chat_id,
            reply_calls(reply@, parsed_views(parsed@), directory(None, cwd)),
            without_tool_calls(reply@.content),
        ),
{
    let native: Vec<ToolCall> = match &reply.tool_calls {
        Some(calls) => copy_calls(calls),
        None => Vec::new(),
    };
    let text = strip_tool_calls_from_text(reply.content.as_str());
    let calls: Vec<ToolCall> = if native.len() > 0 {
        normalize_tool_calls(&native, cwd)
    } else {
        normalize_tool_calls(&readable_calls(parsed), cwd)
    };
    assert(call_views(calls@) =~= reply_calls(
        reply@,
        parsed_views(parsed@),
        directory(None, cwd),
    )) by {
        assert(call_views(native@).len() == native@.len());
    }
    let mut effects: Vec<Effect> = Vec::new();
    if calls.len() == 0 && blank(text.as_str()) {
        assert(item_views(effects@) =~= Seq::<EffectView>::empty());
        return Turn { effects, outcome: TurnOutcome::Reply(String::new()) };
    }
    if calls.len() == 0 {
        effects.push(Effect::Store(add_message(chat_id, "assistant", text.as_str(), None)));
        effects.push(Effect::Publish(ChatChange::Upsert { id: chat_id }));
        proof {
            let wanted = turn_end(chat_id, seq![], text@);
            assert(call_views(calls@) =~= Seq::<ToolCallView>::empty());
            assert(item_views(effects@) =~= wanted.effects);
        }
        return Turn { effects, outcome: TurnOutcome::Reply(text) };
    }
    effects.push(
        Effect::Store(add_assistant_message_with_tools(chat_id, text.as_str(), &calls)),
    );
    effects.push(Effect::SavePending { chat_id, calls: copy_calls(&calls) });
    effects.push(Effect::Publish(ChatChange::Upsert { id: chat_id }));
    effects.push(
        Effect::Publish(
            ChatChange::Activity {
                id: chat_id,
                state: ChatActivityState::AwaitingToolConfirmation,
            },
        ),
    );
    proof {
        let wanted = turn_end(chat_id, call_views(calls@), text@);
        assert(item_views(effects@) =~= wanted.effects);
    }
    Turn { effects, outcome: TurnOutcome::PendingTools(calls) }
}

/// What a reply of the model leads to: the calls that it makes in the proper way wait, all
/// of them; without any, those that were read from its text; without these, what it says
/// is the reply. Either way its text is stored without the calls and thoughts in it.
pub proof fn law_reply_leads_to_its_turn(
    chat_id: i64,
    reply: OllamaChatMessage,
    parsed: Vec<Option<ToolCall>>,
    cwd: Option<&str>,
    turn: Turn,
)
    requires
        call_ensures(run_chat_turn, (chat_id, &reply, parsed, cwd), turn),
    ensures
        ({
            let proper = reply@.tool_calls is Some && reply@.tool_calls->0.len() > 0;
            let read = readable(parsed_views(parsed@));
            let text = without_tool_calls(reply@.content);
            let dir = match cwd {
                Some(dir) => Some(dir@),
                None => None,
            };
            let stored = stored(turn@.effects);
            &&& proper ==> turn@.outcome == TurnOutcomeView::PendingTools(
                all_normalized(reply@.tool_calls->0, dir),
            )
            &&& !proper && read.len() > 0 ==> turn@.outcome == TurnOutcomeView::PendingTools(
                all_normalized(read, dir),
            )
            &&& !proper && read.len() == 0 && !is_blank(text) ==> turn@.outcome
                == TurnOutcomeView::Reply(text)
            &&& !proper && read.len() == 0 && is_blank(text) ==> turn@.outcome
                == TurnOutcomeView::Reply(seq![]) && stored.len() == 0
            &&& proper || read.len() > 0 || !is_blank(text) ==> stored.len() == 1
                && stored[0].chat_id == chat_id && stored[0].role == "assistant"@
                && stored[0].content == text
        }),
{
    let all = turn@.effects;
    reveal_with_fuel(stored, 5);
    if all.len() == 4 {
        assert(all.drop_last() =~= all.take(3));
        assert(all.take(3).drop_last() =~= all.take(2));
        assert(all.take(2).drop_last() =~= all.take(1));
        assert(all.take(1).drop_last() =~= Seq::<EffectView>::empty());
    } else if all.len() == 2 {
        assert(all.drop_last() =~= all.take(1));
        assert(all.take(1).drop_last() =~= Seq::<EffectView>::empty());
    }
}

/// Tool calls wait for the user: a turn with tool calls stores them with the reply and
/// as pending, all of them, and hands them out as pending; a turn without does not.
pub proof fn law_calls_wait_for_the_user(
    chat_id: i64,
    calls: Seq<ToolCallView>,
    text: Seq<char>,
)
    ensures
        turn_end(chat_id, calls, text).outcome is PendingTools <==> calls.len() > 0,
        calls.len() > 0 ==> {
            &&& turn_end(chat_id, calls, text).outcome == TurnOutcomeView::PendingTools(calls)
            &&& turn_end(chat_id, calls, text).effects[1] == (EffectView::SavePending {
                chat_id,
                calls,
            })
        },
        calls.len() == 0 ==> forall|i: int|
            0 <= i < turn_end(chat_id, calls, text).effects.len() ==> !((
            #[trigger] turn_end(chat_id, calls, text).effects[i]) is SavePending),
{
}

/// The calls that wait name absolute paths, where the working directory is absolute.
pub proof fn law_pending_paths_are_absolute(
    reply: OllamaChatMessageView,
    parsed: Seq<Option<ToolCallView>>,
    dir: Seq<char>,
    i: int,
)
    requires
        crate::paths::absolute(dir),
        0 <= i < reply_calls(reply, parsed, Some(dir)).len(),
    ensures
        ({
            let call = reply_calls(reply, parsed, Some(dir))[i];
            crate::tools::works_on_path(crate::tools::kind_of(call.name))
                ==> match crate::json::text_member(call.arguments, "path"@) {
                Some(path) => is_blank(path) || crate::paths::absolute(path),
                None => true,
            }
        }),
{
    let calls = if has_calls(reply.tool_calls) {
        reply.tool_calls->0
    } else {
        readable(parsed)
    };
    crate::tools::law_normalizing_is_final(calls[i], Some(dir), None);
}

/// Where every call could be read, those are the calls.
pub proof fn law_all_calls_readable(calls: Seq<ToolCallView>)
    ensures
        readable(Seq::new(calls.len(), |i: int| Some(calls[i]))) == calls,
    decreases calls.len(),
{
    let parsed = Seq::new(calls.len(), |i: int| Some(calls[i]));
    if calls.len() > 0 {
        let earlier = calls.drop_last();
        law_all_calls_readable(earlier);
        assert(parsed.drop_last() =~= Seq::new(earlier.len(), |i: int| Some(earlier[i])));
        assert(calls =~= earlier.push(calls.last()));
    } else {
        assert(readable(parsed) =~= calls);
    }
}

/// A reply that carries several calls in its text is read as those calls, in their order:
/// the texts to read are the texts of the calls, and where each is read as its call, the
/// reply makes these calls.
pub proof fn law_calls_in_text_are_made(
    reply: OllamaChatMessageView,
    befores: Seq<Seq<char>>,
    calls: Seq<ToolCallView>,
    tail: Seq<char>,
    dir: Option<Seq<char>>,
)
    requires
        !has_calls(reply.tool_calls),
        befores.len() == calls.len(),
        reply.content == with_tool_calls(
            befores,
            Seq::new(calls.len(), |i: int| call_text(calls[i])),
            tail,
        ),
        forall|i: int|
            0 <= i < befores.len() ==> !contains(#[trigger] befores[i], "<tool_call>"@),
        forall|i: int|
            0 <= i < calls.len() ==> !contains(call_text(#[trigger] calls[i]), "</tool_call>"@),
        !contains(tail, "<tool_call>"@),
    ensures
        written_calls(reply) == Seq::new(calls.len(), |i: int| call_text(calls[i])),
        reply_calls(reply, Seq::new(calls.len(), |i: int| Some(calls[i])), dir) == all_normalized(
            calls,
            dir,
        ),
{
    let texts = Seq::new(calls.len(), |i: int| call_text(calls[i]));
    assert forall|i: int| 0 <= i < texts.len() implies !contains(
        #[trigger] texts[i],
        "</tool_call>"@,
    ) by {
        assert(texts[i] == call_text(calls[i]));
    }
    law_tool_calls_read_in_order(befores, texts, tail);
    assert forall|i: int| 0 <= i < texts.len() implies trim(#[trigger] texts[i]) == texts[i] by {
        lemma_call_text_is_trimmed(calls[i]);
    }
    assert(Seq::new(texts.len(), |i: int| trim(texts[i])) =~= texts);
    law_all_calls_readable(calls);
}

/// A reply that says something is stored as it is handed out; one that says nothing
/// leaves no trace.
pub proof fn law_replies_are_stored(chat_id: i64, text: Seq<char>)
    ensures
        ({
            let turn = turn_end(chat_id, seq![], text);
            &&& is_blank(text) ==> turn.effects.len() == 0 && turn.outcome
                == TurnOutcomeView::Reply(seq![])
            &&& !is_blank(text) ==> turn.outcome == TurnOutcomeView::Reply(text)
                && turn.effects[0] == EffectView::Store(
                new_message(chat_id, "assistant"@, text, None, None),
            )
        }),
{
}

// ---------------------------------------------------------------------------
// Pending calls
// ---------------------------------------------------------------------------

/// Tool calls that the user has approved or declined, of which the first `done` are
/// dealt with.
#[derive(Debug)]
pub struct Resolution {
    pub chat_id: i64,
    pub approved: bool,
    pub calls: Vec<ToolCall>,
    pub done: usize,
}

/// What a [`Resolution`] stands for.
pub struct ResolutionView {
    pub chat_id: i64,
    pub approved: bool,
    pub calls: Seq<ToolCallView>,
    pub done: nat,
}

impl View for Resolution {
    type V = ResolutionView;

    open spec fn view(&self) -> ResolutionView {
        ResolutionView {
            chat_id: self.chat_id,
            approved: self.approved,
            calls: call_views(self.calls@),
            done: self.done as nat,
        }
    }
}

impl ResolutionView {
    /// Whether there is a call that is not dealt with.
    pub open spec fn has_next(self) -> bool {
        self.done < self.calls.len()
    }
}

/// What to do next about tool calls that were approved or declined.
#[derive(Debug)]
pub enum ResolveStep {
    /// It failed.
    Failed(String),
    /// Forget that the calls are pending.
    DeletePending(Resolution),
    /// Run a tool.
    Execute(ToolCall, Resolution),
    /// Store the result of a tool.
    Record(NewMessage, Resolution),
    /// All is done: publish the changes, and let the model go on.
    Resolved(Vec<ChatChange>),
}

/// What a [`ResolveStep`] stands for.
pub enum ResolveStepView {
    Failed(Seq<char>),
    DeletePending(ResolutionView),
    Execute(ToolCallView, ResolutionView),
    Record(NewMessageView, ResolutionView),
    Resolved(Seq<ChatChange>),
}

impl View for ResolveStep {
    type V = ResolveStepView;

    open spec fn view(&self) -> ResolveStepView {
        match *self {
            ResolveStep::Failed(error) => ResolveStepView::Failed(error@),
            ResolveStep::DeletePending(rest) => ResolveStepView::DeletePending(rest@),
            ResolveStep::Execute(call, rest) => ResolveStepView::Execute(call@, rest@),
            ResolveStep::Record(message, rest) => ResolveStepView::Record(message@, rest@),
            ResolveStep::Resolved(changes) => ResolveStepView::Resolved(changes@),
        }
    }
}

/// What is recorded of a call that was declined.
pub open spec fn declined_text() -> Seq<char> {
    "User declined to execute this tool call."@
}

/// What is recorded of a call that was run.
pub open spec fn result_text(result: Result<Seq<char>, Seq<char>>) -> Seq<char> {
    match result {
        Ok(report) => report,
        Err(error) => "Error: "@ + error,
    }
}

/// The step that deals with the next call.
pub open spec fn next_call(rest: ResolutionView) -> ResolveStepView {
    if !rest.has_next() {
        ResolveStepView::Resolved(
            seq![
                ChatChange::Upsert { id: rest.chat_id },
                ChatChange::Activity { id: rest.chat_id, state: ChatActivityState::Thinking },
            ],
        )
    } else if rest.approved {
        ResolveStepView::Execute(rest.calls[rest.done as int], rest)
    } else {
        ResolveStepView::Record(
            tool_result(rest.chat_id, rest.calls[rest.done as int].name, declined_text()),
            rest,
        )
    }
}

/// The first step, given the calls that are pending.
pub open spec fn resolve_begins(
    chat_id: i64,
    approved: bool,
    pending: Result<Option<Seq<ToolCallView>>, Seq<char>>,
) -> ResolveStepView {
    match pending {
        Err(error) => ResolveStepView::Failed(error),
        Ok(None) => ResolveStepView::Failed(
            "No pending tool calls for chat "@ + signed_decimal(chat_id as int)
                + " (already resolved elsewhere?)"@,
        ),
        Ok(Some(calls)) => ResolveStepView::DeletePending(
            ResolutionView { chat_id, approved, calls, done: 0 },
        ),
    }
}

/// The step when a tool was run.
pub open spec fn after_execution(
    rest: ResolutionView,
    result: Result<Seq<char>, Seq<char>>,
) -> ResolveStepView {
    ResolveStepView::Record(
        tool_result(rest.chat_id, rest.calls[rest.done as int].name, result_text(result)),
        rest,
    )
}

/// The step when the pending calls were forgotten, or could not be.
pub open spec fn after_deletion(
    rest: ResolutionView,
    outcome: Result<(), Seq<char>>,
) -> ResolveStepView {
    match outcome {
        Ok(_) => next_call(rest),
        Err(error) => ResolveStepView::Failed(error),
    }
}

/// The call behind the one that was dealt with.
pub open spec fn advanced(rest: ResolutionView) -> ResolutionView {
    ResolutionView { done: rest.done + 1, ..rest }
}

/// The step when a result was stored, or could not be.
pub open spec fn after_record(
    rest: ResolutionView,
    outcome: Result<(), Seq<char>>,
) -> ResolveStepView {
    match outcome {
        Ok(_) => next_call(advanced(rest)),
        Err(error) => ResolveStepView::Failed(error),
    }
}

fn step_to_next_call(rest: Resolution) -> (step: ResolveStep)
    ensures
        step@ == next_call(rest@),
{
    if rest.done >= rest.calls.len() {
        let mut changes: Vec<ChatChange> = Vec::new();
        changes.push(ChatChange::Upsert { id: rest.chat_id });
        changes.push(
            ChatChange::Activity { id: rest.chat_id, state: ChatActivityState::Thinking },
        );
        proof {
            let wanted = next_call(rest@);
            assert(changes@ =~= wanted->Resolved_0);
        }
        return ResolveStep::Resolved(changes);
    }
    if rest.approved {
        let call = rest.calls[rest.done].clone();
        return ResolveStep::Execute(call, rest);
    }
    let message = add_tool_result_message(
        rest.chat_id,
        rest.calls[rest.done].function.name.as_str(),
        "User declined to execute this tool call.",
    );
    ResolveStep::Record(message, rest)
}

/// The view of what came of storing.
pub open spec fn stored_view(outcome: Result<(), String>) -> Result<(), Seq<char>> {
    match outcome {
        Ok(unit) => Ok(unit),
        Err(error) => Err(error@),
    }
}

/// The view of what came of a tool.
pub open spec fn result_view(result: Result<String, String>) -> Result<Seq<char>, Seq<char>> {
    match result {
        Ok(report) => Ok(report@),
        Err(error) => Err(error@),
    }
}

/// Begins to deal with the pending calls of a chat, which the user has approved or
/// declined.
pub fn resolve_pending_tools(
    chat_id: i64,
    approved: bool,
    pending: Result<Option<Vec<ToolCall>>, String>,
) -> (step: ResolveStep)
    ensures
        step@ == resolve_begins(chat_id, approved, pending_view(pending)),
{
    match pending {
        Err(error) => ResolveStep::Failed(error),
        Ok(None) => {
            let mut error: String = "No pending tool calls for chat ".to_owned();
            error.push_str(signed_text(chat_id).as_str());
            error.push_str(" (already resolved elsewhere?)");
            ResolveStep::Failed(error)
        },
        Ok(Some(calls)) => ResolveStep::DeletePending(
            Resolution { chat_id, approved, calls, done: 0 },
        ),
    }
}

/// Goes on when the pending calls were forgotten, or could not be.
pub fn pending_deleted(rest: Resolution, outcome: Result<(), String>) -> (step: ResolveStep)
    ensures
        step@ == after_deletion(rest@, stored_view(outcome)),
{
    match outcome {
        Ok(_) => step_to_next_call(rest),
        Err(error) => ResolveStep::Failed(error),
    }
}

/// Goes on when the next tool was run.
pub fn tool_executed(rest: Resolution, result: Result<String, String>) -> (step: ResolveStep)
    requires
        rest@.has_next(),
    ensures
        step@ == after_execution(rest@, result_view(result)),
{
    let text: String = match result {
        Ok(report) => report,
        Err(error) => {
            let mut text: String = "Error: ".to_owned();
            text.push_str(error.as_str());
            text
        },
    };
    let message = add_tool_result_message(
        rest.chat_id,
        rest.calls[rest.done].function.name.as_str(),
        text.as_str(),
    );
    ResolveStep::Record(message, rest)
}

/// Goes on when the result of a call was stored, or could not be.
pub fn result_recorded(rest: Resolution, outcome: Result<(), String>) -> (step: ResolveStep)
    requires
        rest@.has_next(),
    ensures
        step@ == after_record(rest@, stored_view(outcome)),
{
    match outcome {
        Ok(_) => {
            let total: usize = rest.calls.len();
            assert(rest.done < total);
            let next = Resolution {
                chat_id: rest.chat_id,
                approved: rest.approved,
                calls: rest.calls,
                done: rest.done + 1,
            };
            step_to_next_call(next)
        },
        Err(error) => ResolveStep::Failed(error),
    }
}

// ---------------------------------------------------------------------------
// Laws of pending calls
// ---------------------------------------------------------------------------

/// Something that was done about a call.
pub enum Deed {
    Executed(ToolCallView),
    Recorded(NewMessageView),
}

/// What is done from a step on, where all that is stored can be stored and `results` is
/// what the tools return.
pub open spec fn deeds(
    step: ResolveStepView,
    results: Seq<Result<Seq<char>, Seq<char>>>,
    fuel: nat,
) -> Seq<Deed>
    decreases fuel,
{
    if fuel == 0 {
        seq![]
    } else {
        match step {
            ResolveStepView::DeletePending(rest) => deeds(
                after_deletion(rest, Ok(())),
                results,
                (fuel - 1) as nat,
            ),
            ResolveStepView::Execute(call, rest) => seq![Deed::Executed(call)] + deeds(
                after_execution(rest, results[rest.done as int]),
                results,
                (fuel - 1) as nat,
            ),
            ResolveStepView::Record(message, rest) => seq![Deed::Recorded(message)] + deeds(
                after_record(rest, Ok(())),
                results,
                (fuel - 1) as nat,
            ),
            _ => seq![],
        }
    }
}

/// What has to be done about the calls from number `from` on.
pub open spec fn deeds_owed(
    rest: ResolutionView,
    results: Seq<Result<Seq<char>, Seq<char>>>,
    from: nat,
) -> Seq<Deed>
    decreases rest.calls.len() - from,
{
    if from >= rest.calls.len() {
        seq![]
    } else {
        let call = rest.calls[from as int];
        (if rest.approved {
            seq![
                Deed::Executed(call),
                Deed::Recorded(
                    tool_result(rest.chat_id, call.name, result_text(results[from as int])),
                ),
            ]
        } else {
            seq![Deed::Recorded(tool_result(rest.chat_id, call.name, declined_text()))]
        }) + deeds_owed(rest, results, from + 1)
    }
}

proof fn lemma_deeds(
    rest: ResolutionView,
    results: Seq<Result<Seq<char>, Seq<char>>>,
    fuel: nat,
)
    requires
        fuel >= 2 * (rest.calls.len() - rest.done) + 1,
    ensures
        deeds(next_call(rest), results, fuel) == deeds_owed(rest, results, rest.done),
    decreases rest.calls.len() - rest.done,
{
    if rest.has_next() {
        let call = rest.calls[rest.done as int];
        let next = advanced(rest);
        lemma_same_owed(rest, results, rest.done + 1);
        if rest.approved {
            reveal_with_fuel(deeds, 3);
            lemma_deeds(next, results, (fuel - 2) as nat);
            let message = tool_result(
                rest.chat_id,
                call.name,
                result_text(results[rest.done as int]),
            );
            let later = deeds_owed(next, results, next.done);
            assert(seq![Deed::Executed(call)] + (seq![Deed::Recorded(message)] + later) =~= seq![
                Deed::Executed(call),
                Deed::Recorded(message),
            ] + later);
        } else {
            lemma_deeds(next, results, (fuel - 1) as nat);
        }
    }
}

proof fn lemma_same_owed(
    rest: ResolutionView,
    results: Seq<Result<Seq<char>, Seq<char>>>,
    from: nat,
)
    ensures
        deeds_owed(advanced(rest), results, from) == deeds_owed(rest, results, from),
    decreases rest.calls.len() - from,
{
    if from < rest.calls.len() {
        lemma_same_owed(rest, results, from + 1);
    }
}

/// Approved calls are run once each, in their order, and the result of each is recorded
/// before the next is run; of declined calls, none is run and each is recorded as
/// declined.
pub proof fn law_calls_are_resolved_in_order(
    chat_id: i64,
    approved: bool,
    calls: Seq<ToolCallView>,
    results: Seq<Result<Seq<char>, Seq<char>>>,
    fuel: nat,
)
    requires
        fuel >= 2 * calls.len() + 2,
    ensures
        deeds(resolve_begins(chat_id, approved, Ok(Some(calls))), results, fuel) == deeds_owed(
            ResolutionView { chat_id, approved, calls, done: 0 },
            results,
            0,
        ),
{
    let rest = ResolutionView { chat_id, approved, calls, done: 0 };
    lemma_deeds(rest, results, (fuel - 1) as nat);
}

/// What a chat has pending is taken whole: all of its calls, in their order, with the
/// user's answer. Where it has none, or they cannot be read, that is the error.
pub proof fn law_pending_calls_are_taken_whole(
    chat_id: i64,
    approved: bool,
    calls: Seq<ToolCallView>,
    error: Seq<char>,
)
    ensures
        resolve_begins(chat_id, approved, Ok(Some(calls))) matches ResolveStepView::DeletePending(
            rest,
        ) && rest.chat_id == chat_id && rest.approved == approved && rest.calls == calls
            && rest.done == 0,
        resolve_begins(chat_id, approved, Ok(None)) == ResolveStepView::Failed(
            "No pending tool calls for chat "@ + signed_decimal(chat_id as int)
                + " (already resolved elsewhere?)"@,
        ),
        resolve_begins(chat_id, approved, Err(error)) == ResolveStepView::Failed(error),
{
}

/// How one call leads to the next: an approved call is run, and what it reports is
/// recorded under its tool's name, an error marked as one; a declined call is recorded as
/// declined and is not run. When a result was recorded, the call behind it is the next,
/// with nothing else changed; when there is none, others are told that the chat changed
/// and that the model thinks.
pub proof fn law_each_call_leads_to_the_next(
    rest: ResolutionView,
    result: Result<Seq<char>, Seq<char>>,
    error: Seq<char>,
)
    requires
        rest.done <= rest.calls.len(),
    ensures
        ({
            let here = rest.calls[rest.done as int];
            let first = after_deletion(rest, Ok(()));
            let report = |content: Seq<char>|
                NewMessageView {
                    chat_id: rest.chat_id,
                    role: "tool"@,
                    content,
                    name: Some(here.name),
                    images: None,
                    tool_calls: None,
                };
            let over = ResolveStepView::Resolved(
                seq![
                    ChatChange::Upsert { id: rest.chat_id },
                    ChatChange::Activity { id: rest.chat_id, state: ChatActivityState::Thinking },
                ],
            );
            &&& after_deletion(rest, Err(error)) == ResolveStepView::Failed(error)
            &&& rest.done == rest.calls.len() ==> first == over
            &&& rest.done < rest.calls.len() && rest.approved ==> first == ResolveStepView::Execute(
                here,
                rest,
            )
            &&& rest.done < rest.calls.len() && !rest.approved ==> first == ResolveStepView::Record(
                report("User declined to execute this tool call."@),
                rest,
            )
            &&& rest.done < rest.calls.len() ==> {
                let next = ResolutionView {
                    chat_id: rest.chat_id,
                    approved: rest.approved,
                    calls: rest.calls,
                    done: rest.done + 1,
                };
                &&& after_execution(rest, result) == ResolveStepView::Record(
                    report(
                        if result is Ok {
                            result->Ok_0
                        } else {
                            "Error: "@ + result->Err_0
                        },
                    ),
                    rest,
                )
                &&& after_record(rest, Ok(())) == after_deletion(next, Ok(()))
                &&& after_record(rest, Err(error)) == ResolveStepView::Failed(error)
            }
        }),
{
}

/// No tool is run that the user declined.
pub proof fn law_declined_calls_are_not_run(
    rest: ResolutionView,
    outcome: Result<(), Seq<char>>,
)
    requires
        !rest.approved,
    ensures
        after_deletion(rest, outcome) !is Execute,
        after_record(rest, outcome) !is Execute,
        after_record(rest, outcome) matches ResolveStepView::Record(_, next) ==> !next.approved,
        after_deletion(rest, outcome) matches ResolveStepView::Record(_, next) ==> !next.approved,
{
}

/// Calls are no longer pending before anything is done about them, so they cannot be
/// resolved twice: where that fails, nothing is done.
pub proof fn law_pending_calls_are_taken_first(
    chat_id: i64,
    approved: bool,
    pending: Result<Option<Seq<ToolCallView>>, Seq<char>>,
    error: Seq<char>,
)
    ensures
        resolve_begins(chat_id, approved, pending) is DeletePending || resolve_begins(
            chat_id,
            approved,
            pending,
        ) is Failed,
        resolve_begins(chat_id, approved, pending) matches ResolveStepView::DeletePending(rest)
            ==> after_deletion(rest, Err(error)) == ResolveStepView::Failed(error),
{
}

/// A step that runs a tool or stores a result is about a call that is not dealt with.
pub proof fn law_steps_have_a_call(
    rest: ResolutionView,
    result: Result<Seq<char>, Seq<char>>,
    outcome: Result<(), Seq<char>>,
)
    ensures
        after_deletion(rest, outcome) matches ResolveStepView::Execute(_, next) ==> next.has_next(),
        after_deletion(rest, outcome) matches ResolveStepView::Record(_, next) ==> next.has_next(),
        after_record(rest, outcome) matches ResolveStepView::Execute(_, next) ==> next.has_next(),
        after_record(rest, outcome) matches ResolveStepView::Record(_, next) ==> next.has_next(),
        after_execution(rest, result) matches ResolveStepView::Record(_, next) ==> next == rest,
{
}

} // verus!
