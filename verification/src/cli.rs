//! The plain terminal interface: how the program was called, what was typed, and what is
//! printed.

use vstd::prelude::*;

use crate::chat::{add_message, new_message};
use crate::engine::{Effect, EffectView, TurnOutcome, TurnOutcomeView};
use crate::events::ChatChange;
use crate::lines::{join, joined};
use crate::markup::{fences_ended, strip_code_blocks, unfenced};
use crate::sorting::item_views;
use crate::text::{blank, is_blank, same_text, trim, trimmed, views};
use crate::tools::{call_views, description, tool_call_description, ToolCall, ToolCallView};

verus! {

/// How the program is used.
#[derive(Debug)]
pub enum Mode {
    /// In the plain terminal.
    Plain,
    /// On the full screen.
    Tui,
    /// For one question.
    OneShot(String),
}

/// What a [`Mode`] stands for.
pub enum ModeView {
    Plain,
    Tui,
    OneShot(Seq<char>),
}

impl View for Mode {
    type V = ModeView;

    open spec fn view(&self) -> ModeView {
        match *self {
            Mode::Plain => ModeView::Plain,
            Mode::Tui => ModeView::Tui,
            Mode::OneShot(question) => ModeView::OneShot(question@),
        }
    }
}

/// How the program is used when it is called with `args`, the first of which is its name.
pub open spec fn mode_of(args: Seq<Seq<char>>) -> ModeView {
    if args.len() <= 1 {
        ModeView::Tui
    } else if args[1] == "--plain"@ {
        ModeView::Plain
    } else if args[1] == "--tui"@ {
        ModeView::Tui
    } else {
        ModeView::OneShot(joined(args.skip(1), " "@))
    }
}

/// Without arguments the program fills the screen. A first argument that is a flag decides
/// by itself; anything else is a question, made of all the arguments behind the program's
/// name with a space between each two.
pub proof fn law_arguments_choose_the_mode(program: Seq<char>, words: Seq<Seq<char>>)
    ensures
        ({
            let args = seq![program] + words;
            &&& words.len() == 0 ==> mode_of(args) == ModeView::Tui
            &&& words.len() > 0 && words[0] == "--plain"@ ==> mode_of(args) == ModeView::Plain
            &&& words.len() > 0 && words[0] == "--tui"@ ==> mode_of(args) == ModeView::Tui
            &&& words.len() > 0 && words[0] != "--plain"@ && words[0] != "--tui"@ ==> mode_of(args)
                == ModeView::OneShot(joined(words, seq![' ']))
        }),
{
    let args = seq![program] + words;
    reveal_strlit(" ");
    reveal_strlit("--plain");
    reveal_strlit("--tui");
    assert("--plain"@.len() == 7 && "--tui"@.len() == 5);
    assert(" "@ =~= seq![' ']);
    assert(args.skip(1) =~= words);
}

/// How the program is used when it is called with `args`, the first of which is its name.
pub fn cli_mode(args: &Vec<String>) -> (mode: Mode)
    ensures
        mode@ == mode_of(views(args@)),
{
    if args.len() <= 1 {
        return Mode::Tui;
    }
    assert(views(args@)[1] == args@[1]@);
    if same_text(args[1].as_str(), "--plain") {
        return Mode::Plain;
    }
    if same_text(args[1].as_str(), "--tui") {
        return Mode::Tui;
    }
    let ghost all = views(args@).skip(1);
    let mut words: Vec<String> = Vec::new();
    let mut i: usize = 1;
    assert(views(words@) =~= all.take(0));
    while i < args.len()
        invariant
            1 <= i <= args@.len(),
            all == views(args@).skip(1),
            views(words@) == all.take(i - 1),
        decreases args@.len() - i,
    {
        let ghost before = views(words@);
        words.push(args[i].clone());
        assert(views(words@) =~= before.push(args@[i as int]@));
        i = i + 1;
        assert(views(words@) =~= all.take(i - 1));
    }
    assert(all.take(args@.len() - 1) =~= all);
    Mode::OneShot(join(&words, " "))
}

/// What a line that was typed asks for.
#[derive(Debug)]
pub enum PlainInput {
    /// Nothing.
    Skip,
    /// To end.
    Quit,
    /// A reply to this.
    Ask(String),
}

/// What a line that was typed asks for.
pub fn plain_input(typed: &str) -> (input: PlainInput)
    ensures
        match input {
            PlainInput::Skip => is_blank(typed@),
            PlainInput::Quit => trim(typed@) == "/exit"@ && !is_blank(typed@),
            PlainInput::Ask(question) => !is_blank(typed@) && trim(typed@) != "/exit"@
                && question@ == trim(typed@),
        },
{
    if blank(typed) {
        return PlainInput::Skip;
    }
    let question = trimmed(typed);
    if same_text(question.as_str(), "/exit") {
        PlainInput::Quit
    } else {
        PlainInput::Ask(question)
    }
}

/// A line is passed over where it is blank, ends the program where it is the command to do
/// so, and is asked as it was typed otherwise, without the white space around it.
pub proof fn law_lines_are_understood(
    typed: &str,
    input: PlainInput,
    front: Seq<char>,
    line: Seq<char>,
    back: Seq<char>,
)
    requires
        call_ensures(plain_input, (typed,), input),
        typed@ == front + line + back,
        is_blank(front),
        is_blank(back),
        line.len() > 0 ==> !crate::text::is_white(line[0]) && !crate::text::is_white(line.last()),
    ensures
        input is Skip <==> line.len() == 0,
        input is Quit <==> line == "/exit"@,
        input is Ask <==> line.len() > 0 && line != "/exit"@,
        input matches PlainInput::Ask(question) ==> question@ == line,
{
    reveal_strlit("/exit");
    crate::text::law_trimming_takes_blank_ends(front, line, back);
    crate::text::lemma_trim_bounds(typed@);
}

/// Whether what was typed approves tool calls: a `y`, small or capital, and nothing else.
pub open spec fn approves(typed: Seq<char>) -> bool {
    trim(typed) == seq!['y'] || trim(typed) == seq!['Y']
}

/// Whether what was typed approves tool calls.
pub fn is_approval(typed: &str) -> (yes: bool)
    ensures
        yes == approves(typed@),
{
    let answer = trimmed(typed);
    proof {
        reveal_strlit("y");
        reveal_strlit("Y");
        assert("y"@ =~= seq!['y']);
        assert("Y"@ =~= seq!['Y']);
    }
    same_text(answer.as_str(), "y") || same_text(answer.as_str(), "Y")
}

/// Whoever answers nothing declines.
pub proof fn law_silence_declines(typed: Seq<char>)
    requires
        is_blank(typed),
    ensures
        !approves(typed),
{
    crate::text::lemma_trim_bounds(typed);
}

/// An answer approves where it is a `y`, small or capital, with nothing but white space
/// around it.
pub proof fn law_only_y_approves(front: Seq<char>, answer: Seq<char>, back: Seq<char>)
    requires
        is_blank(front),
        is_blank(back),
        answer.len() > 0 ==> !crate::text::is_white(answer[0]) && !crate::text::is_white(
            answer.last(),
        ),
    ensures
        approves(front + answer + back) <==> answer.len() == 1 && (answer[0] == 'y' || answer[0]
            == 'Y'),
{
    crate::text::law_trimming_takes_blank_ends(front, answer, back);
    if answer.len() == 1 {
        assert(answer =~= seq![answer[0]]);
    }
}

/// What to do when a question was asked: the chat gets its title, and the question is
/// stored.
pub open spec fn question_effects(chat_id: i64, question: Seq<char>) -> Seq<EffectView> {
    seq![
        EffectView::Retitle { chat_id, message: question },
        EffectView::Store(new_message(chat_id, "user"@, question, None, None)),
        EffectView::Publish(ChatChange::Upsert { id: chat_id }),
    ]
}

/// A question gives its chat a title and is stored in it as it was asked, as a message of
/// the user; then others are told.
pub proof fn law_questions_are_stored(chat_id: i64, question: Seq<char>)
    ensures
        question_effects(chat_id, question).len() == 3,
        question_effects(chat_id, question)[0] == (EffectView::Retitle {
            chat_id,
            message: question,
        }),
        question_effects(chat_id, question)[1] matches EffectView::Store(message) && {
            &&& message.chat_id == chat_id
            &&& message.role == "user"@
            &&& message.content == question
            &&& message.name is None
            &&& message.images is None
            &&& message.tool_calls is None
        },
        question_effects(chat_id, question)[2] == EffectView::Publish(
            ChatChange::Upsert { id: chat_id },
        ),
{
}

/// What to do when a question was asked, as an [`crate::engine::Occasion::Question`].
pub fn ask_question(chat_id: i64, question: &str) -> (effects: Vec<Effect>)
    ensures
        item_views(effects@) == question_effects(chat_id, question@),
{
    let mut effects: Vec<Effect> = Vec::new();
    effects.push(Effect::Retitle { chat_id, message: question.to_owned() });
    effects.push(Effect::Store(add_message(chat_id, "user", question, None)));
    effects.push(Effect::Publish(ChatChange::Upsert { id: chat_id }));
    assert(item_views(effects@) =~= question_effects(chat_id, question@));
    effects
}

/// What is printed when a turn has ended, and what follows.
#[derive(Debug)]
pub enum CliTurn {
    /// The reply, where it says something; then the turn is over.
    Print(Option<String>),
    /// The calls that wait; then the user is asked.
    Confirm(Vec<String>),
    /// An error; then the turn is over.
    Fail(String),
}

/// What a [`CliTurn`] stands for.
pub enum CliTurnView {
    Print(Option<Seq<char>>),
    Confirm(Seq<Seq<char>>),
    Fail(Seq<char>),
}

impl View for CliTurn {
    type V = CliTurnView;

    open spec fn view(&self) -> CliTurnView {
        match *self {
            CliTurn::Print(text) => CliTurnView::Print(crate::text::option_view(text)),
            CliTurn::Confirm(list) => CliTurnView::Confirm(views(list@)),
            CliTurn::Fail(text) => CliTurnView::Fail(text@),
        }
    }
}

/// The calls that wait, as they are printed.
pub open spec fn printed_calls(calls: Seq<ToolCallView>) -> Seq<Seq<char>> {
    Seq::new(calls.len(), |i: int| "  "@ + description(calls[i]))
}

/// What is printed when a turn has ended.
pub open spec fn cli_turn_of(outcome: Result<TurnOutcomeView, Seq<char>>) -> CliTurnView {
    match outcome {
        Ok(TurnOutcomeView::Reply(text)) => CliTurnView::Print(
            if is_blank(text) {
                None
            } else {
                Some(unfenced(text))
            },
        ),
        Ok(TurnOutcomeView::PendingTools(calls)) => CliTurnView::Confirm(printed_calls(calls)),
        Err(error) => CliTurnView::Fail("\nError: "@ + error),
    }
}

/// A reply that says something is printed without its code blocks, and one that is blank
/// is not; of calls that wait, each is printed in its place, indented; an error is printed
/// as one.
pub proof fn law_turns_are_printed(text: Seq<char>, calls: Seq<ToolCallView>, i: int)
    ensures
        is_blank(text) ==> cli_turn_of(Ok(TurnOutcomeView::Reply(text))) == CliTurnView::Print(
            None,
        ),
        !is_blank(text) ==> cli_turn_of(Ok(TurnOutcomeView::Reply(text))) == CliTurnView::Print(
            Some(unfenced(text)),
        ),
        cli_turn_of(Ok(TurnOutcomeView::PendingTools(calls))) matches CliTurnView::Confirm(list)
            && list.len() == calls.len() && (0 <= i < calls.len() ==> list[i] == seq![' ', ' ']
            + description(calls[i])),
        cli_turn_of(Err(text)) == CliTurnView::Fail("\nError: "@ + text),
{
    reveal_strlit("  ");
    assert("  "@ =~= seq![' ', ' ']);
}

fn print_calls(calls: &Vec<ToolCall>) -> (list: Vec<String>)
    ensures
        views(list@) == printed_calls(call_views(calls@)),
{
    let ghost all = printed_calls(call_views(calls@));
    let mut list: Vec<String> = Vec::new();
    let mut i: usize = 0;
    while i < calls.len()
        invariant
            i <= calls@.len(),
            all == printed_calls(call_views(calls@)),
            views(list@) == all.take(i as int),
        decreases calls@.len() - i,
    {
        let ghost before = views(list@);
        let mut text: String = "  ".to_owned();
        text.push_str(tool_call_description(&calls[i]).as_str());
        let ghost new = text@;
        list.push(text);
        assert(views(list@) =~= before.push(new));
        i = i + 1;
        assert(views(list@) =~= all.take(i as int));
    }
    assert(all.take(calls@.len() as int) =~= all);
    list
}

/// What is printed when a turn has ended.
pub fn run_cli_turn(outcome: &Result<TurnOutcome, String>) -> (turn: CliTurn)
    requires
        outcome matches Ok(TurnOutcome::Reply(text)) ==> is_blank(text@) || fences_ended(text@),
    ensures
        turn@ == cli_turn_of(crate::tui::outcome_view(*outcome)),
{
    match outcome {
        Ok(TurnOutcome::Reply(text)) => {
            if blank(text.as_str()) {
                CliTurn::Print(None)
            } else {
                CliTurn::Print(Some(strip_code_blocks(text.as_str())))
            }
        },
        Ok(TurnOutcome::PendingTools(calls)) => CliTurn::Confirm(print_calls(calls)),
        Err(error) => {
            let mut text: String = "\nError: ".to_owned();
            text.push_str(error.as_str());
            CliTurn::Fail(text)
        },
    }
}

} // verus!
