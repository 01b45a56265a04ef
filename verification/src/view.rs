//! What the terminal interface shows: the list of chats, the messages, the calls that
//! wait, and where the cursor stands.

use vstd::prelude::*;

use crate::chat::{ChatSummary, ChatSummaryView, MessageOut, MessageOutView};
use crate::lines::{lines, lines_of};
use crate::markup::{code_fences_ended, fences_ended, strip_code_blocks, unfenced};
use crate::number::{decimal, decimal_text};
use crate::sorting::item_views;
use crate::text::{chars_of, prefix, same_text, string_of, take_chars, views};
use crate::tools::{call_views, description, tool_call_description, ToolCall, ToolCallView};
use crate::tui::{App, AppView, Focus};

verus! {

// ---------------------------------------------------------------------------
// Display width
// ---------------------------------------------------------------------------

/// How many columns a character takes, where it is no control character.
pub uninterp spec fn char_width(c: char) -> Option<usize>;

/// How many columns a text takes.
pub uninterp spec fn text_width(s: Seq<char>) -> usize;

/// `UnicodeWidthChar::width` of `unicode_width`: the columns that a character takes, by a
/// fixed table, or nothing for a control character. What the table holds is not stated.
#[verifier::external_body]
fn width_of_char(c: char) -> (width: Option<usize>)
    ensures
        width == char_width(c),
{
    unicode_width::UnicodeWidthChar::width(c)
}

/// `UnicodeWidthStr::width` of `unicode_width`: the columns that a text takes, which
/// depends on the text alone. How it is worked out is not stated.
#[verifier::external_body]
fn width_of_text(s: &str) -> (width: usize)
    ensures
        width == text_width(s@),
{
    unicode_width::UnicodeWidthStr::width(s)
}

/// How many columns the characters of a text take; control characters take none.
pub open spec fn widths_of(s: Seq<char>) -> Seq<usize> {
    Seq::new(
        s.len(),
        |i: int|
            match char_width(s[i]) {
                Some(width) => width,
                None => 0,
            },
    )
}

/// How many characters fit, from the first on, into `room` columns.
pub open spec fn fitting(widths: Seq<usize>, room: nat) -> nat
    decreases widths.len(),
{
    if widths.len() == 0 || widths[0] > room {
        0
    } else {
        1 + fitting(widths.drop_first(), (room - widths[0]) as nat)
    }
}

/// The columns that characters take together.
pub open spec fn total_width(widths: Seq<usize>) -> nat
    decreases widths.len(),
{
    if widths.len() == 0 {
        0
    } else {
        widths[0] as nat + total_width(widths.drop_first())
    }
}

/// What fits does fit, and nothing more would: the next character takes more room than is
/// left.
pub proof fn law_as_much_as_fits(widths: Seq<usize>, room: nat)
    ensures
        fitting(widths, room) <= widths.len(),
        total_width(widths.take(fitting(widths, room) as int)) <= room,
        fitting(widths, room) < widths.len() ==> total_width(
            widths.take(fitting(widths, room) as int + 1),
        ) > room,
    decreases widths.len(),
{
    if widths.len() > 0 && widths[0] <= room {
        let rest = widths.drop_first();
        let less = (room - widths[0]) as nat;
        law_as_much_as_fits(rest, less);
        let n = fitting(rest, less);
        assert(widths.take(n as int + 1).drop_first() =~= rest.take(n as int));
        if n < rest.len() {
            assert(widths.take(n as int + 2).drop_first() =~= rest.take(n as int + 1));
        }
    } else if widths.len() > 0 {
        assert(widths.take(1).drop_first() =~= Seq::<usize>::empty());
    }
}

/// The columns of a text are those of its characters one by one, and a control character
/// takes none; those of two texts add up.
pub proof fn law_columns_add_up(front: Seq<char>, c: char, back: Seq<char>)
    ensures
        widths_of(front + back) == widths_of(front) + widths_of(back),
        char_width(c) matches Some(width) ==> widths_of(seq![c]) == seq![width],
        char_width(c) is None ==> widths_of(seq![c]) == seq![0usize],
        total_width(widths_of(front + back)) == total_width(widths_of(front)) + total_width(
            widths_of(back),
        ),
{
    assert(widths_of(front + back) =~= widths_of(front) + widths_of(back));
    if char_width(c) is Some {
        assert(widths_of(seq![c]) =~= seq![char_width(c)->0]);
    } else {
        assert(widths_of(seq![c]) =~= seq![0usize]);
    }
    lemma_total_width(widths_of(front), widths_of(back));
}

proof fn lemma_total_width(a: Seq<usize>, b: Seq<usize>)
    ensures
        total_width(a + b) == total_width(a) + total_width(b),
    decreases a.len(),
{
    if a.len() > 0 {
        assert((a + b).drop_first() =~= a.drop_first() + b);
        lemma_total_width(a.drop_first(), b);
    } else {
        assert(a + b =~= b);
    }
}

/// How many characters of the given widths fit, from the first on, into `room` columns.
pub fn count_fitting(widths: &Vec<usize>, room: usize) -> (n: usize)
    ensures
        n == fitting(widths@, room as nat),
        n <= widths@.len(),
{
    let mut n: usize = 0;
    let mut left: usize = room;
    assert(widths@.skip(0) =~= widths@);
    while n < widths.len() && widths[n] <= left
        invariant
            n <= widths@.len(),
            n + fitting(widths@.skip(n as int), left as nat) == fitting(widths@, room as nat),
        decreases widths@.len() - n,
    {
        assert(widths@.skip(n as int)[0] == widths@[n as int]);
        assert(widths@.skip(n as int).drop_first() =~= widths@.skip(n + 1));
        left = left - widths[n];
        n = n + 1;
    }
    assert(n < widths@.len() ==> widths@.skip(n as int)[0] == widths@[n as int]);
    n
}

/// The beginning of a text that fits into `max_width` columns.
pub fn truncate_display_width(text: &str, max_width: usize) -> (cut: String)
    ensures
        cut@ == text@.take(fitting(widths_of(text@), max_width as nat) as int),
{
    let chars = chars_of(text);
    let mut widths: Vec<usize> = Vec::new();
    let mut i: usize = 0;
    while i < chars.len()
        invariant
            i <= chars@.len(),
            chars@ == text@,
            widths@ == widths_of(text@).take(i as int),
        decreases chars@.len() - i,
    {
        let width: usize = match width_of_char(chars[i]) {
            Some(width) => width,
            None => 0,
        };
        widths.push(width);
        i = i + 1;
        assert(widths@ =~= widths_of(text@).take(i as int));
    }
    assert(widths@ =~= widths_of(text@));
    let n: usize = count_fitting(&widths, max_width);
    let cut = string_of(&chars, 0, n);
    assert(cut@ =~= text@.take(n as int));
    cut
}

// ---------------------------------------------------------------------------
// The list of chats
// ---------------------------------------------------------------------------

/// How a chat stands out in the list.
#[derive(Clone, Copy, PartialEq, Eq, Structural, Debug)]
pub enum RowStyle {
    Selected,
    Active,
    Plain,
}

/// A chat in the list.
#[derive(Debug)]
pub struct SidebarRow {
    pub label: String,
    pub style: RowStyle,
}

/// What a [`SidebarRow`] stands for.
pub struct SidebarRowView {
    pub label: Seq<char>,
    pub style: RowStyle,
}

impl View for SidebarRow {
    type V = SidebarRowView;

    open spec fn view(&self) -> SidebarRowView {
        SidebarRowView { label: self.label@, style: self.style }
    }
}

/// The label of a chat, given the width of its title and the beginning that fits.
pub open spec fn label_of(
    title: Seq<char>,
    width: usize,
    cut: Seq<char>,
    active: bool,
) -> Seq<char> {
    (if active {
        " \u{25b6} "@
    } else {
        "   "@
    }) + if width > 22 {
        cut
    } else {
        title
    }
}

/// How the chat number `i` stands out in the list.
pub open spec fn row_style(app: AppView, i: int) -> RowStyle {
    if i == app.sidebar_index && app.focus == Focus::Sidebar {
        RowStyle::Selected
    } else if app.active == Some(app.chats[i].id) {
        RowStyle::Active
    } else {
        RowStyle::Plain
    }
}

/// The chat number `i` in the list.
pub open spec fn row_of_chat(app: AppView, i: int) -> SidebarRowView {
    let title = app.chats[i].title;
    SidebarRowView {
        label: label_of(
            title,
            text_width(title),
            title.take(fitting(widths_of(title), 22) as int),
            app.active == Some(app.chats[i].id),
        ),
        style: row_style(app, i),
    }
}

/// A chat is listed by its title, or by the beginning of the title where that is wider than
/// 22 columns, behind a mark where it is shown and behind as much space where it is not. It
/// stands out where it is selected while the keys go to the list, and otherwise where it is
/// shown.
pub proof fn law_chats_are_listed_by_title(app: AppView, i: int, cut: Seq<char>, rest: Seq<char>)
    requires
        0 <= i < app.chats.len(),
        app.chats[i].title == cut + rest,
        total_width(widths_of(cut)) <= 22,
        rest.len() > 0 ==> total_width(widths_of(cut.push(rest[0]))) > 22,
    ensures
        ({
            let row = row_of_chat(app, i);
            let shown = app.active == Some(app.chats[i].id);
            let selected = app.sidebar_index == i && app.focus == Focus::Sidebar;
            let mark = if shown {
                " \u{25b6} "@
            } else {
                "   "@
            };
            &&& text_width(cut + rest) <= 22 ==> row.label == mark + (cut + rest)
            &&& text_width(cut + rest) > 22 ==> row.label == mark + cut
            &&& selected ==> row.style == RowStyle::Selected
            &&& !selected && shown ==> row.style == RowStyle::Active
            &&& !selected && !shown ==> row.style == RowStyle::Plain
        }),
{
    let title = cut + rest;
    let widths = widths_of(title);
    let n = fitting(widths, 22);
    law_as_much_as_fits(widths, 22);
    assert(widths.take(cut.len() as int) =~= widths_of(cut));
    if n < cut.len() {
        lemma_longer_is_wider(widths, n as int + 1, cut.len() as int);
    } else if n > cut.len() {
        assert(widths.take(cut.len() as int + 1) =~= widths_of(cut.push(rest[0])));
        lemma_longer_is_wider(widths, cut.len() as int + 1, n as int);
    }
    assert(title.take(cut.len() as int) =~= cut);
}

proof fn lemma_longer_is_wider(widths: Seq<usize>, a: int, b: int)
    requires
        0 <= a <= b <= widths.len(),
    ensures
        total_width(widths.take(a)) <= total_width(widths.take(b)),
{
    assert(widths.take(b) =~= widths.take(a) + widths.subrange(a, b));
    lemma_total_width(widths.take(a), widths.subrange(a, b));
}

/// The label of a chat, given the width of its title and the beginning that fits.
pub fn sidebar_label(title: &str, width: usize, cut: &str, active: bool) -> (label: String)
    ensures
        label@ == label_of(title@, width, cut@, active),
{
    let mut label: String = if active {
        " \u{25b6} ".to_owned()
    } else {
        "   ".to_owned()
    };
    if width > 22 {
        label.push_str(cut);
    } else {
        label.push_str(title);
    }
    label
}

/// The list of chats.
pub fn sidebar_rows(app: &App) -> (rows: Vec<SidebarRow>)
    ensures
        item_views(rows@) == Seq::new(app@.chats.len(), |i: int| row_of_chat(app@, i)),
{
    let mut rows: Vec<SidebarRow> = Vec::new();
    let mut i: usize = 0;
    let ghost all = Seq::new(app@.chats.len(), |i: int| row_of_chat(app@, i));
    while i < app.chats.len()
        invariant
            i <= app.chats@.len(),
            all == Seq::new(app@.chats.len(), |i: int| row_of_chat(app@, i)),
            item_views(rows@) == all.take(i as int),
        decreases app.chats@.len() - i,
    {
        let chat: &ChatSummary = &app.chats[i];
        assert(app@.chats[i as int] == chat@);
        let active: bool = match app.active_chat_id {
            Some(id) => id == chat.id,
            None => false,
        };
        let cut = truncate_display_width(chat.title.as_str(), 22);
        let width: usize = width_of_text(chat.title.as_str());
        let style: RowStyle = if i == app.sidebar_index && app.focus == Focus::Sidebar {
            RowStyle::Selected
        } else if active {
            RowStyle::Active
        } else {
            RowStyle::Plain
        };
        let row = SidebarRow {
            label: sidebar_label(chat.title.as_str(), width, cut.as_str(), active),
            style,
        };
        let ghost before = item_views(rows@);
        let ghost seen = row@;
        rows.push(row);
        assert(item_views(rows@) =~= before.push(seen));
        i = i + 1;
        assert(item_views(rows@) =~= all.take(i as int));
    }
    assert(all.take(app.chats@.len() as int) =~= all);
    rows
}

/// The keys that are named below the list of chats.
pub fn sidebar_help(focus: Focus) -> (text: &'static str)
    ensures
        text@ == (if focus == Focus::Sidebar {
            " [n] new  [d] del  [Tab] focus  [q] quit "@
        } else {
            " [Tab] focus  [q] quit "@
        }),
{
    if focus == Focus::Sidebar {
        " [n] new  [d] del  [Tab] focus  [q] quit "
    } else {
        " [Tab] focus  [q] quit "
    }
}

// ---------------------------------------------------------------------------
// Lines
// ---------------------------------------------------------------------------

/// How a line stands out.
#[derive(Clone, Copy, PartialEq, Eq, Structural, Debug)]
pub enum LineStyle {
    Plain,
    Faint,
    User,
    Assistant,
    OtherRole,
    Busy,
    Heading,
    Detail,
}

/// A line with its style.
#[derive(Debug)]
pub struct StyledLine {
    pub text: String,
    pub style: LineStyle,
}

/// What a [`StyledLine`] stands for.
pub struct StyledLineView {
    pub text: Seq<char>,
    pub style: LineStyle,
}

impl View for StyledLine {
    type V = StyledLineView;

    open spec fn view(&self) -> StyledLineView {
        StyledLineView { text: self.text@, style: self.style }
    }
}

/// A line with its style.
pub open spec fn line(text: Seq<char>, style: LineStyle) -> StyledLineView {
    StyledLineView { text, style }
}

/// `texts` as lines that are set in.
pub open spec fn set_in(texts: Seq<Seq<char>>, style: LineStyle) -> Seq<StyledLineView> {
    Seq::new(texts.len(), |i: int| line("  "@ + texts[i], style))
}

fn push_line(list: &mut Vec<StyledLine>, text: String, style: LineStyle)
    ensures
        item_views(final(list)@) == item_views(old(list)@).push(line(text@, style)),
{
    let ghost before = item_views(list@);
    let ghost new = line(text@, style);
    list.push(StyledLine { text, style });
    assert(item_views(list@) =~= before.push(new));
}

fn push_set_in(list: &mut Vec<StyledLine>, texts: &Vec<String>, style: LineStyle)
    ensures
        item_views(final(list)@) == item_views(old(list)@) + set_in(views(texts@), style),
{
    let ghost before = item_views(list@);
    let ghost all = set_in(views(texts@), style);
    let mut i: usize = 0;
    assert(before + all.take(0) =~= before);
    while i < texts.len()
        invariant
            i <= texts@.len(),
            all == set_in(views(texts@), style),
            item_views(list@) == before + all.take(i as int),
        decreases texts@.len() - i,
    {
        let mut text: String = "  ".to_owned();
        text.push_str(texts[i].as_str());
        push_line(list, text, style);
        proof {
            assert(views(texts@)[i as int] == texts@[i as int]@);
            assert(all.take(i + 1) =~= all.take(i as int).push(all[i as int]));
            assert(before + all.take(i + 1) =~= (before + all.take(i as int)).push(all[i as int]));
        }
        i = i + 1;
    }
    assert(all.take(texts@.len() as int) =~= all);
}

/// The lines that describe calls.
pub open spec fn call_lines(calls: Seq<ToolCallView>, style: LineStyle) -> Seq<StyledLineView>
    decreases calls.len(),
{
    if calls.len() == 0 {
        seq![]
    } else {
        call_lines(calls.drop_last(), style) + set_in(lines(description(calls.last())), style)
    }
}

/// Calls are described one behind the other, each by the lines of its description, set in.
pub proof fn law_calls_are_described_in_order(
    front: Seq<ToolCallView>,
    call: ToolCallView,
    style: LineStyle,
    i: int,
)
    ensures
        call_lines(seq![], style).len() == 0,
        ({
            let all = call_lines(front.push(call), style);
            let before = call_lines(front, style);
            let new = lines(description(call));
            &&& all.len() == before.len() + new.len()
            &&& all.take(before.len() as int) == before
            &&& 0 <= i < new.len() ==> all[before.len() + i].text == seq![' ', ' '] + new[i]
                && all[before.len() + i].style == style
        }),
{
    reveal_strlit("  ");
    assert("  "@ =~= seq![' ', ' ']);
    assert(front.push(call).drop_last() =~= front);
    let before = call_lines(front, style);
    assert(call_lines(front.push(call), style).take(before.len() as int) =~= before);
}

fn push_call_lines(list: &mut Vec<StyledLine>, calls: &Vec<ToolCall>, style: LineStyle)
    ensures
        item_views(final(list)@) == item_views(old(list)@) + call_lines(
            call_views(calls@),
            style,
        ),
{
    let ghost before = item_views(list@);
    let ghost all = call_views(calls@);
    let mut i: usize = 0;
    assert(all.take(0) =~= Seq::<ToolCallView>::empty());
    assert(before + call_lines(all.take(0), style) =~= before);
    while i < calls.len()
        invariant
            i <= calls@.len(),
            all == call_views(calls@),
            item_views(list@) == before + call_lines(all.take(i as int), style),
        decreases calls@.len() - i,
    {
        let texts = lines_of(tool_call_description(&calls[i]).as_str());
        push_set_in(list, &texts, style);
        proof {
            assert(all.take(i + 1).drop_last() =~= all.take(i as int));
            assert(all.take(i + 1).last() == calls@[i as int]@);
            let earlier = call_lines(all.take(i as int), style);
            let new = set_in(lines(description(calls@[i as int]@)), style);
            assert(before + earlier + new =~= before + (earlier + new));
        }
        i = i + 1;
    }
    assert(all.take(calls@.len() as int) =~= all);
}

// ---------------------------------------------------------------------------
// Messages
// ---------------------------------------------------------------------------

/// The first line of a text.
pub open spec fn first_line(s: Seq<char>) -> Seq<char> {
    if lines(s).len() > 0 {
        lines(s)[0]
    } else {
        seq![]
    }
}

/// Who speaks, as it is shown.
pub open spec fn role_label(role: Seq<char>) -> Seq<char> {
    if role == "user"@ {
        "You"@
    } else if role == "assistant"@ {
        "AI"@
    } else {
        role
    }
}

/// How it stands out who speaks.
pub open spec fn role_style(role: Seq<char>) -> LineStyle {
    if role == "user"@ {
        LineStyle::User
    } else if role == "assistant"@ {
        LineStyle::Assistant
    } else {
        LineStyle::OtherRole
    }
}

/// The lines of a message.
pub open spec fn message_lines(message: MessageOutView) -> Seq<StyledLineView> {
    if message.role == "tool"@ {
        seq![
            line(
                "  ["@ + (match message.name {
                    Some(name) => name,
                    None => "tool"@,
                }) + "] "@ + prefix(first_line(message.content), 200),
                LineStyle::Faint,
            ),
        ]
    } else {
        seq![line("["@ + role_label(message.role) + "]"@, role_style(message.role))] + (
        match message.tool_calls {
            Some(calls) => call_lines(calls, LineStyle::Faint),
            None => seq![],
        }) + (if message.content.len() > 0 {
            seq![line(unfenced(message.content), LineStyle::Plain)]
        } else {
            seq![]
        }) + seq![line(""@, LineStyle::Plain)]
    }
}

/// The lines of messages.
pub open spec fn all_message_lines(messages: Seq<MessageOutView>) -> Seq<StyledLineView>
    decreases messages.len(),
{
    if messages.len() == 0 {
        seq![]
    } else {
        all_message_lines(messages.drop_last()) + message_lines(messages.last())
    }
}

/// Messages are shown one behind the other, all of them and in their order.
pub proof fn law_messages_are_shown_in_order(
    front: Seq<MessageOutView>,
    back: Seq<MessageOutView>,
    message: MessageOutView,
)
    ensures
        all_message_lines(seq![]).len() == 0,
        all_message_lines(seq![message]) == message_lines(message),
        all_message_lines(front + back) == all_message_lines(front) + all_message_lines(back),
    decreases back.len(),
{
    reveal_with_fuel(all_message_lines, 2);
    assert(seq![message].drop_last() =~= Seq::<MessageOutView>::empty());
    assert(all_message_lines(seq![message]) =~= message_lines(message));
    if back.len() > 0 {
        law_messages_are_shown_in_order(front, back.drop_last(), message);
        assert((front + back).drop_last() =~= front + back.drop_last());
        assert((front + back).last() == back.last());
        assert(all_message_lines(front + back) =~= all_message_lines(front) + all_message_lines(
            back,
        ));
    } else {
        assert(front + back =~= front);
        assert(all_message_lines(front) + all_message_lines(back) =~= all_message_lines(front));
    }
}

/// What a tool reported is shown in one faint line: the name of the tool and the first 200
/// characters of the first line.
pub proof fn law_tool_results_take_one_line(
    message: MessageOutView,
    head: Seq<char>,
    rest: Seq<char>,
)
    requires
        message.role == "tool"@,
        head.len() == 200 || (head.len() < 200 && rest.len() == 0),
        if lines(message.content).len() > 0 {
            lines(message.content)[0] == head + rest
        } else {
            head.len() == 0
        },
    ensures
        message_lines(message).len() == 1,
        message_lines(message)[0].style == LineStyle::Faint,
        message.name matches Some(name) ==> message_lines(message)[0].text == "  ["@ + name + "] "@
            + head,
        message.name is None ==> message_lines(message)[0].text == "  ["@ + "tool"@ + "] "@ + head,
{
    crate::text::law_prefix(head, rest, 200);
    if rest.len() == 0 {
        assert(head + rest =~= head);
    }
    assert(head.len() == 0 ==> head =~= seq![]);
}

/// Any other message is shown with who said it, then the calls in it, then its text without
/// code blocks where it has one, then an empty line.
pub proof fn law_messages_are_shown_whole(message: MessageOutView)
    requires
        message.role != "tool"@,
    ensures
        ({
            let who = if message.role == "user"@ {
                "You"@
            } else if message.role == "assistant"@ {
                "AI"@
            } else {
                message.role
            };
            let style = if message.role == "user"@ {
                LineStyle::User
            } else if message.role == "assistant"@ {
                LineStyle::Assistant
            } else {
                LineStyle::OtherRole
            };
            let calls = if message.tool_calls is Some {
                call_lines(message.tool_calls->0, LineStyle::Faint)
            } else {
                seq![]
            };
            let shown = message_lines(message);
            let n = calls.len() as int;
            &&& shown.len() == 2 + n + (if message.content.len() > 0 {
                1int
            } else {
                0
            })
            &&& shown[0] == (StyledLineView { text: "["@ + who + "]"@, style })
            &&& shown.subrange(1, 1 + n) == calls
            &&& message.content.len() > 0 ==> shown[1 + n] == (StyledLineView {
                text: unfenced(message.content),
                style: LineStyle::Plain,
            })
            &&& shown.last().text.len() == 0
            &&& shown.last().style == LineStyle::Plain
        }),
{
    reveal_strlit("");
    let calls = if message.tool_calls is Some {
        call_lines(message.tool_calls->0, LineStyle::Faint)
    } else {
        seq![]
    };
    assert(message_lines(message).subrange(1, 1 + calls.len() as int) =~= calls);
}

/// Whether a message can be shown: the fences of its code end.
pub open spec fn can_be_shown(message: MessageOutView) -> bool {
    message.role == "tool"@ || fences_ended(message.content)
}

/// Whether messages can be shown.
pub open spec fn all_can_be_shown(messages: Seq<MessageOutView>) -> bool {
    forall|i: int| 0 <= i < messages.len() ==> can_be_shown(#[trigger] messages[i])
}

/// What a tool reported can always be shown; any other message where each of its fences
/// ends.
pub proof fn law_which_messages_can_be_shown(front: Seq<MessageOutView>, message: MessageOutView)
    ensures
        can_be_shown(message) <==> message.role == "tool"@ || fences_ended(message.content),
        all_can_be_shown(seq![]),
        all_can_be_shown(front.push(message)) <==> all_can_be_shown(front) && can_be_shown(message),
{
    let all = front.push(message);
    assert(all[front.len() as int] == message);
    if all_can_be_shown(all) {
        assert forall|i: int| 0 <= i < front.len() implies can_be_shown(#[trigger] front[i]) by {
            assert(all[i] == front[i]);
        }
    }
    if all_can_be_shown(front) && can_be_shown(message) {
        assert forall|i: int| 0 <= i < all.len() implies can_be_shown(#[trigger] all[i]) by {
            if i < front.len() {
                assert(all[i] == front[i]);
            }
        }
    }
}

/// Tests whether messages can be shown.
pub fn messages_can_be_shown(messages: &Vec<MessageOut>) -> (yes: bool)
    ensures
        yes == all_can_be_shown(item_views(messages@)),
{
    let ghost all = item_views(messages@);
    let mut i: usize = 0;
    while i < messages.len()
        invariant
            i <= messages@.len(),
            all == item_views(messages@),
            forall|j: int| 0 <= j < i ==> can_be_shown(#[trigger] all[j]),
        decreases messages@.len() - i,
    {
        assert(all[i as int] == messages@[i as int]@);
        if !same_text(messages[i].role.as_str(), "tool") && !code_fences_ended(
            messages[i].content.as_str(),
        ) {
            assert(!can_be_shown(all[i as int]));
            return false;
        }
        i = i + 1;
    }
    true
}

fn tool_line(message: &MessageOut) -> (text: String)
    ensures
        text@ == "  ["@ + (match message@.name {
            Some(name) => name,
            None => "tool"@,
        }) + "] "@ + prefix(first_line(message@.content), 200),
{
    let all = lines_of(message.content.as_str());
    let first: String = if all.len() > 0 {
        assert(views(all@)[0] == all@[0]@);
        take_chars(all[0].as_str(), 200)
    } else {
        assert(prefix(Seq::<char>::empty(), 200) =~= Seq::<char>::empty());
        String::new()
    };
    let mut text: String = "  [".to_owned();
    match &message.name {
        Some(name) => {
            text.push_str(name.as_str());
        },
        None => {
            text.push_str("tool");
        },
    }
    text.push_str("] ");
    text.push_str(first.as_str());
    text
}

fn push_message_lines(list: &mut Vec<StyledLine>, message: &MessageOut)
    requires
        can_be_shown(message@),
    ensures
        item_views(final(list)@) == item_views(old(list)@) + message_lines(message@),
{
    let ghost before = item_views(list@);
    let role: &str = message.role.as_str();
    if same_text(role, "tool") {
        push_line(list, tool_line(message), LineStyle::Faint);
        assert(item_views(list@) =~= before + message_lines(message@));
        return;
    }
    let user: bool = same_text(role, "user");
    let assistant: bool = same_text(role, "assistant");
    let mut head: String = "[".to_owned();
    if user {
        head.push_str("You");
    } else if assistant {
        head.push_str("AI");
    } else {
        head.push_str(role);
    }
    head.push_str("]");
    let style: LineStyle = if user {
        LineStyle::User
    } else if assistant {
        LineStyle::Assistant
    } else {
        LineStyle::OtherRole
    };
    push_line(list, head, style);
    let ghost headed = item_views(list@);
    let ghost told: Seq<StyledLineView> = match message@.tool_calls {
        Some(calls) => call_lines(calls, LineStyle::Faint),
        None => seq![],
    };
    if let Some(calls) = &message.tool_calls {
        push_call_lines(list, calls, LineStyle::Faint);
    }
    assert(item_views(list@) =~= headed + told);
    if !message.content.as_str().is_empty() {
        push_line(list, strip_code_blocks(message.content.as_str()), LineStyle::Plain);
    }
    push_line(list, "".to_owned(), LineStyle::Plain);
    assert(item_views(list@) =~= before + message_lines(message@));
}

// ---------------------------------------------------------------------------
// The main area
// ---------------------------------------------------------------------------

/// What the main area shows.
#[derive(Debug)]
pub enum MainBody {
    /// A notice in place of messages.
    Notice(&'static str),
    /// The messages.
    Lines(Vec<StyledLine>),
}

/// What a [`MainBody`] stands for.
pub enum MainBodyView {
    Notice(Seq<char>),
    Lines(Seq<StyledLineView>),
}

impl View for MainBody {
    type V = MainBodyView;

    open spec fn view(&self) -> MainBodyView {
        match *self {
            MainBody::Notice(text) => MainBodyView::Notice(text@),
            MainBody::Lines(list) => MainBodyView::Lines(item_views(list@)),
        }
    }
}

/// What the main area shows.
pub open spec fn main_view(app: AppView) -> MainBodyView {
    if app.active is None {
        MainBodyView::Notice("Select a chat from the sidebar or press n to create one."@)
    } else if app.messages.len() == 0 && !app.thinks() && !app.confirms() {
        MainBodyView::Notice("No messages yet. Type below to start chatting."@)
    } else {
        MainBodyView::Lines(
            all_message_lines(app.messages) + if app.thinks() {
                seq![line("[AI] Thinking..."@, LineStyle::Busy)]
            } else {
                seq![]
            },
        )
    }
}

/// Where no chat is shown, and where a chat has nothing to show, the main area says so.
/// Otherwise it shows the messages, and at their end that the model thinks where the turn
/// of the chat is under way.
pub proof fn law_main_area(app: AppView)
    ensures
        ({
            let thinking = app.loading && app.loading_chat == app.active;
            let confirming = app.pending matches Some((waiting, _)) && app.active == Some(waiting);
            let told = all_message_lines(app.messages);
            &&& app.active is None ==> main_view(app) == MainBodyView::Notice(
                "Select a chat from the sidebar or press n to create one."@,
            )
            &&& app.active is Some && app.messages.len() == 0 && !thinking && !confirming
                ==> main_view(app) == MainBodyView::Notice(
                "No messages yet. Type below to start chatting."@,
            )
            &&& app.active is Some && (app.messages.len() > 0 || confirming) && !thinking
                ==> main_view(app) == MainBodyView::Lines(told)
            &&& app.active is Some && thinking ==> main_view(app) == MainBodyView::Lines(
                told.push(
                    StyledLineView { text: "[AI] Thinking..."@, style: LineStyle::Busy },
                ),
            )
        }),
{
    let told = all_message_lines(app.messages);
    assert(told + seq![] =~= told);
    assert(told + seq![line("[AI] Thinking..."@, LineStyle::Busy)] =~= told.push(
        line("[AI] Thinking..."@, LineStyle::Busy),
    ));
}

/// What the main area shows.
pub fn main_body(app: &App) -> (body: MainBody)
    requires
        app@.active is Some ==> all_can_be_shown(app@.messages),
    ensures
        body@ == main_view(app@),
{
    if app.active_chat_id.is_none() {
        return MainBody::Notice("Select a chat from the sidebar or press n to create one.");
    }
    let thinking: bool = app.is_active_chat_loading();
    if app.messages.len() == 0 && !thinking && !app.has_pending_confirmation_for_active_chat() {
        return MainBody::Notice("No messages yet. Type below to start chatting.");
    }
    let ghost all = item_views(app.messages@);
    let mut list: Vec<StyledLine> = Vec::new();
    let mut i: usize = 0;
    assert(all.take(0) =~= Seq::<MessageOutView>::empty());
    assert(item_views(list@) =~= Seq::<StyledLineView>::empty());
    while i < app.messages.len()
        invariant
            i <= app.messages@.len(),
            all == item_views(app.messages@),
            all_can_be_shown(all),
            item_views(list@) == all_message_lines(all.take(i as int)),
        decreases app.messages@.len() - i,
    {
        proof {
            assert(all[i as int] == app.messages@[i as int]@);
            assert(all.take(i + 1).drop_last() =~= all.take(i as int));
        }
        push_message_lines(&mut list, &app.messages[i]);
        i = i + 1;
    }
    assert(all.take(app.messages@.len() as int) =~= all);
    let ghost told = item_views(list@);
    if thinking {
        push_line(&mut list, "[AI] Thinking...".to_owned(), LineStyle::Busy);
        assert(item_views(list@) =~= told + seq![line("[AI] Thinking..."@, LineStyle::Busy)]);
    } else {
        assert(told + Seq::<StyledLineView>::empty() =~= told);
    }
    MainBody::Lines(list)
}

/// The title of the first chat with a given number.
pub open spec fn title_among(chats: Seq<ChatSummaryView>, id: i64) -> Option<Seq<char>>
    decreases chats.len(),
{
    if chats.len() == 0 {
        None
    } else if chats[0].id == id {
        Some(chats[0].title)
    } else {
        title_among(chats.drop_first(), id)
    }
}

/// The title of the main area.
pub open spec fn main_title_of(app: AppView) -> Seq<char> {
    match app.active {
        Some(id) => " "@ + (match title_among(app.chats, id) {
            Some(title) => title,
            None => "Chat"@,
        }) + " "@,
        None => seq![],
    }
}

/// The main area has the title of the chat that is shown, of the first in the list with its
/// number, or a stand-in where the list does not hold it.
pub proof fn law_main_area_has_the_title(
    app: AppView,
    front: Seq<ChatSummaryView>,
    chat: ChatSummaryView,
    back: Seq<ChatSummaryView>,
)
    requires
        forall|i: int| 0 <= i < front.len() ==> (#[trigger] front[i]).id != chat.id,
    ensures
        app.active is None ==> main_title_of(app).len() == 0,
        app.active == Some(chat.id) && app.chats == front.push(chat) + back ==> main_title_of(app)
            == seq![' '] + chat.title + seq![' '],
        app.active == Some(chat.id) && app.chats == front ==> main_title_of(app) == seq![' ']
            + "Chat"@ + seq![' '],
{
    reveal_strlit(" ");
    assert(" "@ =~= seq![' ']);
    lemma_title_among(front, chat, back);
}

proof fn lemma_title_among(
    front: Seq<ChatSummaryView>,
    chat: ChatSummaryView,
    back: Seq<ChatSummaryView>,
)
    requires
        forall|i: int| 0 <= i < front.len() ==> (#[trigger] front[i]).id != chat.id,
    ensures
        title_among(front.push(chat) + back, chat.id) == Some(chat.title),
        title_among(front, chat.id) is None,
    decreases front.len(),
{
    let all = front.push(chat) + back;
    if front.len() > 0 {
        let rest = front.drop_first();
        assert(front[0].id != chat.id);
        assert(all[0] == front[0]);
        assert(all.drop_first() =~= rest.push(chat) + back);
        assert forall|i: int| 0 <= i < rest.len() implies (#[trigger] rest[i]).id != chat.id by {
            assert(front[i + 1].id != chat.id);
        }
        lemma_title_among(rest, chat, back);
    } else {
        assert(all[0] == chat);
    }
}

fn find_title(chats: &Vec<ChatSummary>, id: i64) -> (title: Option<String>)
    ensures
        crate::text::option_view(title) == title_among(item_views(chats@), id),
{
    let ghost all = item_views(chats@);
    let mut i: usize = 0;
    assert(all.skip(0) =~= all);
    while i < chats.len()
        invariant
            i <= chats@.len(),
            all == item_views(chats@),
            title_among(all, id) == title_among(all.skip(i as int), id),
        decreases chats@.len() - i,
    {
        assert(all.skip(i as int)[0] == chats@[i as int]@);
        assert(all.skip(i as int).drop_first() =~= all.skip(i + 1));
        if chats[i].id == id {
            return Some(chats[i].title.clone());
        }
        i = i + 1;
    }
    None
}

/// The title of the main area.
pub fn main_title(app: &App) -> (title: String)
    ensures
        title@ == main_title_of(app@),
{
    match app.active_chat_id {
        None => String::new(),
        Some(id) => {
            let mut title: String = " ".to_owned();
            match find_title(&app.chats, id) {
                Some(text) => {
                    title.push_str(text.as_str());
                },
                None => {
                    title.push_str("Chat");
                },
            }
            title.push_str(" ");
            title
        },
    }
}

// ---------------------------------------------------------------------------
// The calls that wait
// ---------------------------------------------------------------------------

/// The lines that describe the calls that wait, each behind an empty line.
pub open spec fn waiting_lines(calls: Seq<ToolCallView>) -> Seq<StyledLineView>
    decreases calls.len(),
{
    if calls.len() == 0 {
        seq![line("AI wants to use tools"@, LineStyle::Heading)]
    } else {
        waiting_lines(calls.drop_last()).push(line(""@, LineStyle::Plain)) + set_in(
            lines(description(calls.last())),
            LineStyle::Detail,
        )
    }
}

/// What is shown of the calls that wait.
pub open spec fn confirmation_view(app: AppView) -> Seq<StyledLineView> {
    match app.pending {
        Some((_, calls)) => waiting_lines(calls),
        None => waiting_lines(seq![]),
    }
}

/// The calls that wait are shown below a heading, all of them and in their order: each
/// behind an empty line, by the lines of its description, set in.
pub proof fn law_waiting_calls_are_shown(
    app: AppView,
    chat_id: i64,
    front: Seq<ToolCallView>,
    call: ToolCallView,
    i: int,
)
    ensures
        waiting_lines(seq![]) == seq![
            StyledLineView { text: "AI wants to use tools"@, style: LineStyle::Heading },
        ],
        app.pending == Some((chat_id, front.push(call))) ==> confirmation_view(app)
            == waiting_lines(front.push(call)),
        app.pending is None ==> confirmation_view(app) == waiting_lines(seq![]),
        ({
            let all = waiting_lines(front.push(call));
            let before = waiting_lines(front);
            let new = lines(description(call));
            let n = before.len() as int;
            &&& all.len() == n + 1 + new.len()
            &&& all.take(n) == before
            &&& all[n].text.len() == 0
            &&& all[n].style == LineStyle::Plain
            &&& 0 <= i < new.len() ==> all[n + 1 + i].text == seq![' ', ' '] + new[i] && all[n + 1
                + i].style == LineStyle::Detail
        }),
{
    reveal_strlit("");
    reveal_strlit("  ");
    assert("  "@ =~= seq![' ', ' ']);
    assert(front.push(call).drop_last() =~= front);
    let before = waiting_lines(front);
    assert(waiting_lines(front.push(call)).take(before.len() as int) =~= before);
}

fn describe_waiting(calls: &Vec<ToolCall>) -> (list: Vec<StyledLine>)
    ensures
        item_views(list@) == waiting_lines(call_views(calls@)),
{
    let ghost all = call_views(calls@);
    let mut list: Vec<StyledLine> = Vec::new();
    push_line(&mut list, "AI wants to use tools".to_owned(), LineStyle::Heading);
    assert(all.take(0) =~= Seq::<ToolCallView>::empty());
    assert(item_views(list@) =~= waiting_lines(all.take(0)));
    let mut i: usize = 0;
    while i < calls.len()
        invariant
            i <= calls@.len(),
            all == call_views(calls@),
            item_views(list@) == waiting_lines(all.take(i as int)),
        decreases calls@.len() - i,
    {
        proof {
            assert(all.take(i + 1).drop_last() =~= all.take(i as int));
            assert(all.take(i + 1).last() == calls@[i as int]@);
        }
        push_line(&mut list, "".to_owned(), LineStyle::Plain);
        let texts = lines_of(tool_call_description(&calls[i]).as_str());
        push_set_in(&mut list, &texts, LineStyle::Detail);
        i = i + 1;
    }
    assert(all.take(calls@.len() as int) =~= all);
    list
}

/// What is shown of the calls that wait.
pub fn confirmation_panel(app: &App) -> (list: Vec<StyledLine>)
    ensures
        item_views(list@) == confirmation_view(app@),
{
    match &app.pending_tool_calls {
        Some((_, calls)) => describe_waiting(calls),
        None => {
            let none: Vec<ToolCall> = Vec::new();
            assert(call_views(none@) =~= Seq::<ToolCallView>::empty());
            describe_waiting(&none)
        },
    }
}

/// The panel takes one line more than the calls are counted in: its heading.
pub proof fn law_panel_height(calls: Seq<ToolCallView>)
    ensures
        waiting_lines(calls).len() == crate::tui::confirmation_lines(calls) + 1,
    decreases calls.len(),
{
    if calls.len() > 0 {
        law_panel_height(calls.drop_last());
    }
}

// ---------------------------------------------------------------------------
// The rest
// ---------------------------------------------------------------------------

/// What the line at the top tells.
#[derive(Debug)]
pub enum TopBar {
    /// A turn is under way.
    Thinking,
    /// Calls wait.
    Confirming,
    /// How many chats there are.
    Chats(String),
}

/// What the line at the top tells.
pub fn top_bar(app: &App) -> (bar: TopBar)
    ensures
        match bar {
            TopBar::Thinking => app@.loading,
            TopBar::Confirming => !app@.loading && app@.waiting,
            TopBar::Chats(text) => !app@.loading && !app@.waiting && text@ == " "@ + decimal(
                app@.chats.len(),
            ) + " chats "@,
        },
{
    if app.loading {
        TopBar::Thinking
    } else if app.waiting_confirmation {
        TopBar::Confirming
    } else {
        let mut text: String = " ".to_owned();
        text.push_str(decimal_text(app.chats.len() as u128).as_str());
        text.push_str(" chats ");
        TopBar::Chats(text)
    }
}

/// What the input line shows.
pub fn input_text(app: &App) -> (text: String)
    ensures
        text@ == (if app@.input.len() == 0 {
            " Type a message..."@
        } else {
            app@.input
        }),
{
    if app.input.as_str().is_empty() {
        " Type a message...".to_owned()
    } else {
        app.input.clone()
    }
}

/// The line at the top tells of a turn that is under way before it tells of calls that
/// wait, and otherwise counts the chats; the input line shows what was typed, or what it is
/// for where nothing was.
pub proof fn law_top_and_input_lines(app: App, bar: TopBar, text: String)
    requires
        call_ensures(top_bar, (&app,), bar),
        call_ensures(input_text, (&app,), text),
    ensures
        bar is Thinking <==> app@.loading,
        bar is Confirming <==> !app@.loading && app@.waiting,
        bar matches TopBar::Chats(count) ==> count@ == seq![' '] + decimal(app@.chats.len())
            + " chats "@,
        app@.input.len() > 0 ==> text@ == app@.input,
        app@.input.len() == 0 ==> text@ == " Type a message..."@,
{
    reveal_strlit(" ");
    assert(" "@ =~= seq![' ']);
}

/// Where something stands on the screen.
#[derive(Clone, Copy, PartialEq, Eq, Structural, Debug)]
pub struct Area {
    pub x: u16,
    pub y: u16,
    pub width: u16,
    pub height: u16,
}

/// A sum or product of coordinates, modulo 2^16.
pub open spec fn wrapped(n: int) -> u16 {
    (n % 0x1_0000) as u16
}

/// The column of the cursor in the input line, behind what was typed as far as that fits.
pub open spec fn cursor_column_of(typed_width: usize, area_width: u16) -> int {
    let column = (typed_width + 1) % 0x1_0000;
    if column < area_width - 2 {
        column
    } else {
        area_width - 2
    }
}

/// Where the cursor stands, given the width of what was typed: in the input line, where
/// that has the focus and room.
pub open spec fn cursor_of(app: AppView, typed_width: usize, area: Area) -> Option<(u16, u16)> {
    if !app.confirms() && app.focus == Focus::Input && area.width > 2 && area.height > 2 {
        Some(
            (
                wrapped(area.x + cursor_column_of(typed_width, area.width)),
                wrapped(area.y + 1),
            ),
        )
    } else {
        None
    }
}

/// Where the cursor stands, given the width of what was typed.
pub fn cursor_at(app: &App, typed_width: usize, area: Area) -> (position: Option<(u16, u16)>)
    ensures
        position == cursor_of(app@, typed_width, area),
{
    if app.has_pending_confirmation_for_active_chat() || app.focus != Focus::Input || area.width
        <= 2 || area.height <= 2 {
        return None;
    }
    let column: u16 = ((typed_width as u128 + 1) % 0x1_0000) as u16;
    let last: u16 = area.width - 2;
    let shown: u16 = if column < last { column } else { last };
    Some((area.x.wrapping_add(shown), area.y.wrapping_add(1)))
}

/// Where the cursor stands.
pub fn cursor_position(app: &App, area: Area) -> (position: Option<(u16, u16)>)
    ensures
        position == cursor_of(app@, text_width(app@.input), area),
{
    let width: usize = width_of_text(app.input.as_str());
    cursor_at(app, width, area)
}

/// The cursor stands inside its area, where that lies on the screen.
pub proof fn law_cursor_stays_inside(app: AppView, typed_width: usize, area: Area)
    requires
        area.x + area.width <= u16::MAX,
        area.y + area.height <= u16::MAX,
    ensures
        cursor_of(app, typed_width, area) matches Some((x, y)) ==> {
            &&& area.x <= x < area.x + area.width
            &&& area.y < y < area.y + area.height
        },
{
}

/// The cursor is shown while the keys go to the input line and there is room for it. It
/// stands right behind what was typed, and at the end of the line where that is too long.
pub proof fn law_cursor_stands_behind_the_input(app: AppView, typed_width: usize, area: Area)
    requires
        area.x + area.width <= u16::MAX,
        area.y + area.height <= u16::MAX,
        typed_width < u16::MAX,
    ensures
        ({
            let confirming = app.pending matches Some((waiting, _)) && app.active == Some(waiting);
            let shown = !confirming && app.focus == Focus::Input && area.width > 2 && area.height
                > 2;
            &&& cursor_of(app, typed_width, area) is Some <==> shown
            &&& shown && typed_width + 3 <= area.width ==> cursor_of(app, typed_width, area)
                == Some(((area.x + 1 + typed_width) as u16, (area.y + 1) as u16))
            &&& shown && typed_width + 3 > area.width ==> cursor_of(app, typed_width, area)
                == Some(((area.x + area.width - 2) as u16, (area.y + 1) as u16))
        }),
{
}

/// The cursor moves with its area, and a text that is wider by 2^16 columns has its cursor in
/// the same place: positions on the screen wrap around.
pub proof fn law_cursor_moves_with_its_area(
    app: AppView,
    typed_width: usize,
    wider: usize,
    area: Area,
)
    requires
        wider == typed_width + 0x1_0000,
    ensures
        cursor_of(app, wider, area) == cursor_of(app, typed_width, area),
        cursor_of(app, typed_width, Area { x: 0, y: 0, ..area }) matches Some((x, y))
            ==> cursor_of(app, typed_width, area) == Some(
            (((area.x + x) % 0x1_0000) as u16, ((area.y + y) % 0x1_0000) as u16),
        ),
        cursor_of(app, typed_width, Area { x: 0, y: 0, ..area }) is None ==> cursor_of(
            app,
            typed_width,
            area,
        ) is None,
{
}

/// Coordinates are counted modulo 2^16.
pub proof fn law_coordinates_wrap(n: int)
    ensures
        0 <= n < 0x1_0000 ==> wrapped(n) == n,
        wrapped(n + 0x1_0000) == wrapped(n),
{
}

/// The height of the area below the messages.
pub fn lower_height(app: &App) -> (height: u16)
    ensures
        height == (if app@.confirms() {
            10
        } else {
            7int
        }),
{
    if app.has_pending_confirmation_for_active_chat() {
        10
    } else {
        7
    }
}

/// There is more room below the messages while calls of the chat that is shown wait.
pub proof fn law_waiting_calls_get_more_room(app: App, height: u16)
    requires
        call_ensures(lower_height, (&app,), height),
    ensures
        height == (if app@.pending matches Some((waiting, _)) && app@.active == Some(waiting) {
            10int
        } else {
            7
        }),
{
}

/// Where the help stands on a screen of the given size: in its middle.
pub fn help_area(width: u16, height: u16) -> (area: Area)
    ensures
        area == (Area {
            x: width / 6,
            y: height / 6,
            width: (wrapped(width * 2) / 3) as u16,
            height: (wrapped(height * 2) / 3) as u16,
        }),
{
    let wide: u16 = width.wrapping_mul(2);
    let high: u16 = height.wrapping_mul(2);
    Area { x: width / 6, y: height / 6, width: wide / 3, height: high / 3 }
}

} // verus!
